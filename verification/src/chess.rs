//! Chess vocabulary shared by both engines: pieces, colors, squares as indices,
//! moves as plain values, bitboards as `u64`, and the calls into `cozy_chess`
//! that only the move generator can answer.
use vstd::prelude::*;

verus! {

#[verifier::external_type_specification]
#[verifier::external_body]
pub struct ExBoard(cozy_chess::Board);

/// A chess piece, in `cozy_chess` order (ordered by approximate material value).
#[derive(Clone, Copy, Debug, PartialEq, Eq, Structural, Hash)]
pub enum PieceKind {
    Pawn,
    Knight,
    Bishop,
    Rook,
    Queen,
    King,
}

/// A side.
#[derive(Clone, Copy, Debug, PartialEq, Eq, Structural, Hash)]
pub enum Side {
    White,
    Black,
}

/// The state of a game as the move generator sees it.
#[derive(Clone, Copy, Debug, PartialEq, Eq, Structural, Hash)]
pub enum GameStatus {
    Won,
    Drawn,
    Ongoing,
}

/// A move. Squares are indices `0..64` in rank-major order (A1, B1, ..., H8).
/// Castling is encoded as the king capturing its own rook.
#[derive(Clone, Copy, Debug, PartialEq, Eq, Structural, Hash)]
pub struct ChessMove {
    pub from: u8,
    pub to: u8,
    pub promotion: Option<PieceKind>,
}

/// The move that stands for "no move" (A1 to A1).
pub open spec fn spec_invalid_move() -> ChessMove {
    ChessMove { from: 0, to: 0, promotion: None }
}

pub fn invalid_move() -> (r: ChessMove)
    ensures
        r == spec_invalid_move(),
{
    ChessMove { from: 0, to: 0, promotion: None }
}

impl ChessMove {
    /// Both squares name squares of the board.
    pub open spec fn valid(self) -> bool {
        self.from < 64 && self.to < 64
    }
}

impl PieceKind {
    pub open spec fn spec_index(self) -> nat {
        match self {
            PieceKind::Pawn => 0,
            PieceKind::Knight => 1,
            PieceKind::Bishop => 2,
            PieceKind::Rook => 3,
            PieceKind::Queen => 4,
            PieceKind::King => 5,
        }
    }

    pub fn index(self) -> (r: usize)
        ensures
            r == self.spec_index(),
            r < 6,
    {
        match self {
            PieceKind::Pawn => 0,
            PieceKind::Knight => 1,
            PieceKind::Bishop => 2,
            PieceKind::Rook => 3,
            PieceKind::Queen => 4,
            PieceKind::King => 5,
        }
    }
}

impl Side {
    pub open spec fn spec_index(self) -> nat {
        match self {
            Side::White => 0,
            Side::Black => 1,
        }
    }

    pub open spec fn spec_flip(self) -> Side {
        match self {
            Side::White => Side::Black,
            Side::Black => Side::White,
        }
    }

    pub fn index(self) -> (r: usize)
        ensures
            r == self.spec_index(),
            r < 2,
    {
        match self {
            Side::White => 0,
            Side::Black => 1,
        }
    }

    /// The other side (`!color` in `cozy_chess`).
    pub fn flip(self) -> (r: Side)
        ensures
            r == self.spec_flip(),
    {
        match self {
            Side::White => Side::Black,
            Side::Black => Side::White,
        }
    }
}

// ---------------------------------------------------------------------------
// Bitboards: a `u64` whose bit `sq` is set when square `sq` is in the set.
// ---------------------------------------------------------------------------

/// Number of squares in a bitboard.
pub open spec fn popcount(x: u64) -> nat
    decreases x,
{
    if x == 0 {
        0
    } else {
        (x % 2) as nat + popcount(x / 2)
    }
}

/// Whether square `sq` is in `bb`.
pub open spec fn spec_has(bb: u64, sq: u8) -> bool {
    (bb >> (sq as u64)) & 1 == 1
}

/// The bitboard holding only square `sq`.
pub open spec fn spec_square_bb(sq: u8) -> u64 {
    1u64 << (sq as u64)
}

/// The edge squares of the board.
pub const EDGES: u64 = 0xFF81_8181_8181_81FF;
/// The four corner squares.
pub const CORNERS: u64 = 0x8100_0000_0000_0081;
/// The dark squares (A1 is dark).
pub const DARK_SQUARES: u64 = 0xAA55_AA55_AA55_AA55;
/// The light squares.
pub const LIGHT_SQUARES: u64 = 0x55AA_55AA_55AA_55AA;

/// `BitBoard::len`: the number of squares in the set.
pub fn popcnt(x: u64) -> (r: u32)
    ensures
        r == popcount(x),
        r <= 64,
{
    proof {
        vstd::arithmetic::power2::lemma2_to64_rest();
        lemma_popcount_le(x, 64);
    }
    let mut y: u64 = x;
    let mut n: u32 = 0;
    while y != 0
        invariant
            n + popcount(y) == popcount(x),
            popcount(x) <= 64,
        decreases y,
    {
        n = n + (y % 2) as u32;
        y = y / 2;
    }
    n
}

/// A set of squares below `2^k` has at most `k` members.
pub proof fn lemma_popcount_le(x: u64, k: nat)
    requires
        x < vstd::arithmetic::power2::pow2(k),
    ensures
        popcount(x) <= k,
    decreases k,
{
    if k == 64 {
        vstd::arithmetic::power2::lemma2_to64_rest();
    }
    if x != 0 {
        if k == 0 {
            vstd::arithmetic::power2::lemma2_to64();
        } else {
            vstd::arithmetic::power2::lemma_pow2_unfold(k);
            lemma_popcount_le(x / 2, (k - 1) as nat);
        }
    }
}

/// `BitBoard::has`.
pub fn bb_has(bb: u64, sq: u8) -> (r: bool)
    requires
        sq < 64,
    ensures
        r == spec_has(bb, sq),
{
    (bb >> (sq as u64)) & 1 == 1
}

/// `Square::bitboard`.
pub fn square_bb(sq: u8) -> (r: u64)
    requires
        sq < 64,
    ensures
        r == spec_square_bb(sq),
{
    1u64 << (sq as u64)
}

/// The lowest square of a bitboard, if any (`BitBoard::next_square`).
pub open spec fn spec_next_square(bb: u64) -> Option<u8> {
    if bb == 0 {
        None
    } else {
        Some(vstd::std_specs::bits::u64_trailing_zeros(bb) as u8)
    }
}

/// The lowest square of a bitboard (`BitBoard::next_square`).
pub fn next_square(bb: u64) -> (r: Option<u8>)
    ensures
        r == spec_next_square(bb),
        bb == 0 <==> r is None,
        r matches Some(sq) ==> sq < 64,
{
    if bb == 0 {
        None
    } else {
        let tz = bb.trailing_zeros();
        proof {
            vstd::std_specs::bits::axiom_u64_trailing_zeros(bb);
        }
        Some(tz as u8)
    }
}

// ---------------------------------------------------------------------------
// Conversions to and from `cozy_chess` values.
// ---------------------------------------------------------------------------

#[verifier::external_type_specification]
#[verifier::external_body]
pub struct ExCozyMove(cozy_chess::Move);

#[verifier::external_type_specification]
#[verifier::external_body]
pub struct ExCozySquare(cozy_chess::Square);

#[verifier::external_type_specification]
#[verifier::external_body]
pub struct ExCozyPiece(cozy_chess::Piece);

#[verifier::external_type_specification]
#[verifier::external_body]
pub struct ExCozyColor(cozy_chess::Color);

/// Converts a square index into a `cozy_chess::Square` (`Square::index`, which panics
/// outside `0..64`).
#[verifier::external_body]
fn cozy_square(sq: u8) -> cozy_chess::Square
    requires
        sq < 64,
{
    cozy_chess::Square::index(sq as usize)
}

/// Converts a piece into the `cozy_chess` piece of the same name.
#[verifier::external_body]
fn cozy_piece(piece: PieceKind) -> cozy_chess::Piece {
    match piece {
        PieceKind::Pawn => cozy_chess::Piece::Pawn,
        PieceKind::Knight => cozy_chess::Piece::Knight,
        PieceKind::Bishop => cozy_chess::Piece::Bishop,
        PieceKind::Rook => cozy_chess::Piece::Rook,
        PieceKind::Queen => cozy_chess::Piece::Queen,
        PieceKind::King => cozy_chess::Piece::King,
    }
}

/// Converts a `cozy_chess` piece into the piece of the same name.
#[verifier::external_body]
fn plain_piece(piece: cozy_chess::Piece) -> PieceKind {
    match piece {
        cozy_chess::Piece::Pawn => PieceKind::Pawn,
        cozy_chess::Piece::Knight => PieceKind::Knight,
        cozy_chess::Piece::Bishop => PieceKind::Bishop,
        cozy_chess::Piece::Rook => PieceKind::Rook,
        cozy_chess::Piece::Queen => PieceKind::Queen,
        cozy_chess::Piece::King => PieceKind::King,
    }
}

/// Converts a side into the `cozy_chess` color of the same name.
#[verifier::external_body]
fn cozy_color(color: Side) -> cozy_chess::Color {
    match color {
        Side::White => cozy_chess::Color::White,
        Side::Black => cozy_chess::Color::Black,
    }
}

/// Converts a `cozy_chess` color into the side of the same name.
#[verifier::external_body]
fn plain_color(color: cozy_chess::Color) -> Side {
    match color {
        cozy_chess::Color::White => Side::White,
        cozy_chess::Color::Black => Side::Black,
    }
}

/// Converts a move into a `cozy_chess::Move` with the same squares and promotion.
#[verifier::external_body]
fn cozy_move(mv: ChessMove) -> cozy_chess::Move
    requires
        mv.valid(),
{
    cozy_chess::Move {
        from: cozy_square(mv.from),
        to: cozy_square(mv.to),
        promotion: mv.promotion.map(cozy_piece),
    }
}

/// Converts a `cozy_chess::Move` into a move with the same squares (as indices) and
/// promotion.
#[verifier::external_body]
fn plain_move(mv: cozy_chess::Move) -> (r: ChessMove)
    ensures
        r.valid(),
{
    ChessMove { from: mv.from as u8, to: mv.to as u8, promotion: mv.promotion.map(plain_piece) }
}

// ---------------------------------------------------------------------------
// What the board answers. Each name stands for what the `cozy_chess` method of the
// same name computes on the board (and arguments) it is given.
// ---------------------------------------------------------------------------

pub uninterp spec fn spec_board_hash(board: cozy_chess::Board) -> u64;

pub uninterp spec fn spec_board_pieces(board: cozy_chess::Board, piece: PieceKind) -> u64;

pub uninterp spec fn spec_board_colors(board: cozy_chess::Board, color: Side) -> u64;

pub uninterp spec fn spec_board_side_to_move(board: cozy_chess::Board) -> Side;

pub uninterp spec fn spec_board_checkers(board: cozy_chess::Board) -> u64;

pub uninterp spec fn spec_board_halfmove_clock(board: cozy_chess::Board) -> u8;

pub uninterp spec fn spec_board_en_passant(board: cozy_chess::Board) -> Option<u8>;

pub uninterp spec fn spec_board_is_legal(board: cozy_chess::Board, mv: ChessMove) -> bool;

pub uninterp spec fn spec_board_play(board: cozy_chess::Board, mv: ChessMove) -> cozy_chess::Board;

pub uninterp spec fn spec_board_null_move(board: cozy_chess::Board) -> Option<cozy_chess::Board>;

pub uninterp spec fn spec_board_legal_moves(board: cozy_chess::Board) -> Seq<(PieceKind, ChessMove)>;

/// The state of the game (`Board::status`): ongoing while there is a legal move and
/// the halfmove clock is below 100, drawn by that clock or by stalemate, and won (by
/// the side that just moved) on checkmate.
pub open spec fn spec_board_status(board: cozy_chess::Board) -> GameStatus {
    if spec_board_legal_moves(board).len() > 0 {
        if spec_board_halfmove_clock(board) < 100 {
            GameStatus::Ongoing
        } else {
            GameStatus::Drawn
        }
    } else if spec_board_checkers(board) == 0 {
        GameStatus::Drawn
    } else {
        GameStatus::Won
    }
}

pub uninterp spec fn spec_board_same_position(a: cozy_chess::Board, b: cozy_chess::Board) -> bool;

pub uninterp spec fn spec_board_castle_rights(board: cozy_chess::Board, color: Side) -> (Option<u8>, Option<u8>);

/// All occupied squares (`Board::occupied`, the union of both colors).
pub open spec fn spec_board_occupied(board: cozy_chess::Board) -> u64 {
    spec_board_colors(board, Side::White) | spec_board_colors(board, Side::Black)
}

/// Calls `Board::hash`: the position's Zobrist hash.
#[verifier::external_body]
pub(crate) fn board_hash(board: &cozy_chess::Board) -> (r: u64)
    ensures
        r == spec_board_hash(*board),
{
    board.hash()
}

/// Calls `Board::pieces`: the squares holding a piece of the given kind, of either color.
#[verifier::external_body]
pub(crate) fn board_pieces(board: &cozy_chess::Board, piece: PieceKind) -> (r: u64)
    ensures
        r == spec_board_pieces(*board, piece),
{
    board.pieces(cozy_piece(piece)).0
}

/// Calls `Board::colors`: the squares holding a piece of the given color.
#[verifier::external_body]
pub(crate) fn board_colors(board: &cozy_chess::Board, color: Side) -> (r: u64)
    ensures
        r == spec_board_colors(*board, color),
{
    board.colors(cozy_color(color)).0
}

/// All occupied squares (`Board::occupied`).
pub fn board_occupied(board: &cozy_chess::Board) -> (r: u64)
    ensures
        r == spec_board_occupied(*board),
{
    board_colors(board, Side::White) | board_colors(board, Side::Black)
}

/// Calls `Board::side_to_move`.
#[verifier::external_body]
pub(crate) fn board_side_to_move(board: &cozy_chess::Board) -> (r: Side)
    ensures
        r == spec_board_side_to_move(*board),
{
    plain_color(board.side_to_move())
}

/// Calls `Board::checkers`: the pieces giving check to the side to move.
#[verifier::external_body]
pub(crate) fn board_checkers(board: &cozy_chess::Board) -> (r: u64)
    ensures
        r == spec_board_checkers(*board),
{
    board.checkers().0
}

/// Calls `Board::halfmove_clock`.
#[verifier::external_body]
pub(crate) fn board_halfmove_clock(board: &cozy_chess::Board) -> (r: u8)
    ensures
        r == spec_board_halfmove_clock(*board),
{
    board.halfmove_clock()
}

/// Calls `Board::en_passant`: the file (index `0..8`) of an en passant square, if any.
#[verifier::external_body]
pub(crate) fn board_en_passant(board: &cozy_chess::Board) -> (r: Option<u8>)
    ensures
        r == spec_board_en_passant(*board),
        r matches Some(f) ==> f < 8,
{
    board.en_passant().map(|f| f as u8)
}

/// Calls `Board::is_legal`, which agrees with the move generator: a legal move is one
/// that `generate_moves` lists, and it never ends on its own square (targets exclude
/// the mover's pieces; castling goes to the rook, beside the king).
#[verifier::external_body]
pub(crate) fn board_is_legal(board: &cozy_chess::Board, mv: ChessMove) -> (r: bool)
    requires
        mv.valid(),
    ensures
        r == spec_board_is_legal(*board, mv),
        r ==> exists|j: int|
            0 <= j < spec_board_legal_moves(*board).len() && (#[trigger] spec_board_legal_moves(*board)[j]).1 == mv,
        r ==> mv.from != mv.to,
{
    board.is_legal(cozy_move(mv))
}

/// Calls `Board::play_unchecked`. The method is only meant for legal moves (it may
/// panic on others), so the move must be legal. A move onto a square of the other side
/// captures the piece there: the mover leaves its square and the victim is removed
/// from it, so one square fewer is occupied.
#[verifier::external_body]
pub(crate) fn board_play_unchecked(board: &mut cozy_chess::Board, mv: ChessMove)
    requires
        mv.valid(),
        spec_board_is_legal(*old(board), mv),
    ensures
        *final(board) == spec_board_play(*old(board), mv),
        spec_has(spec_board_colors(*old(board), spec_board_side_to_move(*old(board)).spec_flip()), mv.to)
            ==> popcount(spec_board_occupied(*final(board))) + 1 == popcount(spec_board_occupied(*old(board))),
{
    board.play_unchecked(cozy_move(mv))
}

/// Calls `Board::null_move`, which passes the turn and succeeds exactly when the side
/// to move is not in check.
#[verifier::external_body]
pub(crate) fn board_null_move(board: &cozy_chess::Board) -> (r: Option<cozy_chess::Board>)
    ensures
        r == spec_board_null_move(*board),
        r is Some <==> spec_board_checkers(*board) == 0,
{
    board.null_move()
}

/// Calls `Board::generate_moves` and lists every legal move once, with the piece it
/// moves; the move starts on a square of that piece's bitboard (the generator takes the
/// origins from `colored_pieces(side to move, piece)`) and ends on another square (the
/// targets exclude the mover's own pieces, and castling goes to the rook's square),
/// and promotions are only ever to knight, bishop, rook or queen (the move iterator's
/// four promotion choices).
#[verifier::external_body]
pub(crate) fn board_legal_moves(board: &cozy_chess::Board) -> (r: Vec<(PieceKind, ChessMove)>)
    ensures
        r@ == spec_board_legal_moves(*board),
        forall|i: int|
            0 <= i < r@.len() ==> (#[trigger] r@[i]).1.valid() && spec_board_is_legal(
                *board,
                r@[i].1,
            ) && r@[i].1.promotion != Some(PieceKind::Pawn) && r@[i].1.promotion != Some(PieceKind::King)
            && spec_has(spec_board_pieces(*board, r@[i].0), r@[i].1.from) && r@[i].1.from != r@[i].1.to,
        forall|i: int, j: int| 0 <= i < j < r@.len() ==> (#[trigger] r@[i]).1 != (#[trigger] r@[j]).1,
{
    let mut out = Vec::new();
    board.generate_moves(|mvs| {
        for mv in mvs {
            out.push((plain_piece(mvs.piece), plain_move(mv)));
        }
        false
    });
    out
}

/// Calls `Board::status`, which decides from `generate_moves`, the halfmove clock and
/// the checkers as `spec_board_status` states.
#[verifier::external_body]
pub(crate) fn board_status(board: &cozy_chess::Board) -> (r: GameStatus)
    ensures
        r == spec_board_status(*board),
{
    match board.status() {
        cozy_chess::GameStatus::Won => GameStatus::Won,
        cozy_chess::GameStatus::Drawn => GameStatus::Drawn,
        cozy_chess::GameStatus::Ongoing => GameStatus::Ongoing,
    }
}

/// Calls `Board::castle_rights`: the rook files (`0..8`) of a side's short and long
/// castling rights.
#[verifier::external_body]
pub(crate) fn board_castle_rights(board: &cozy_chess::Board, color: Side) -> (r: (Option<u8>, Option<u8>))
    ensures
        r == spec_board_castle_rights(*board, color),
        r.0 matches Some(f) ==> f < 8,
        r.1 matches Some(f) ==> f < 8,
{
    let rights = board.castle_rights(cozy_color(color));
    (rights.short.map(|f| f as u8), rights.long.map(|f| f as u8))
}

/// What `Board::double_chess960_startpos` builds from two Scharnagl numbers.
pub uninterp spec fn spec_double_chess960_startpos(white: u32, black: u32) -> cozy_chess::Board;

/// Calls `Board::default`: the standard starting position, which `cozy_chess` builds as
/// the double Chess960 start with Scharnagl number 518 for both sides.
#[verifier::external_body]
pub(crate) fn board_startpos() -> (r: cozy_chess::Board)
    ensures
        r == spec_double_chess960_startpos(518, 518),
{
    cozy_chess::Board::default()
}

/// Calls `Board::chess960_startpos`: the Chess960 start position with Scharnagl
/// number `n` (it panics on a number outside `0..960`), built as the double Chess960
/// start with `n` for both sides.
#[verifier::external_body]
pub(crate) fn board_chess960_startpos(n: u32) -> (r: cozy_chess::Board)
    requires
        n < 960,
    ensures
        r == spec_double_chess960_startpos(n, n),
{
    cozy_chess::Board::chess960_startpos(n)
}

/// Calls `Board::double_chess960_startpos`: White set up by Scharnagl number `white`,
/// Black by `black` (it panics on a number outside `0..960`).
#[verifier::external_body]
pub(crate) fn board_double_chess960_startpos(white: u32, black: u32) -> (r: cozy_chess::Board)
    requires
        white < 960,
        black < 960,
    ensures
        r == spec_double_chess960_startpos(white, black),
{
    cozy_chess::Board::double_chess960_startpos(white, black)
}

/// Calls `Board::clone` (derived): an equal board.
#[verifier::external_body]
pub(crate) fn board_clone(board: &cozy_chess::Board) -> (r: cozy_chess::Board)
    ensures
        r == *board,
{
    board.clone()
}

/// Calls `Board::same_position`: equality of positions by the FIDE definition.
#[verifier::external_body]
pub(crate) fn board_same_position(a: &cozy_chess::Board, b: &cozy_chess::Board) -> (r: bool)
    ensures
        r == spec_board_same_position(*a, *b),
{
    a.same_position(b)
}

/// The piece on a square: the first kind, in piece order, whose bitboard holds it
/// (`Board::piece_on`).
pub open spec fn spec_piece_on(board: cozy_chess::Board, sq: u8) -> Option<PieceKind> {
    if spec_has(spec_board_pieces(board, PieceKind::Pawn), sq) {
        Some(PieceKind::Pawn)
    } else if spec_has(spec_board_pieces(board, PieceKind::Knight), sq) {
        Some(PieceKind::Knight)
    } else if spec_has(spec_board_pieces(board, PieceKind::Bishop), sq) {
        Some(PieceKind::Bishop)
    } else if spec_has(spec_board_pieces(board, PieceKind::Rook), sq) {
        Some(PieceKind::Rook)
    } else if spec_has(spec_board_pieces(board, PieceKind::Queen), sq) {
        Some(PieceKind::Queen)
    } else if spec_has(spec_board_pieces(board, PieceKind::King), sq) {
        Some(PieceKind::King)
    } else {
        None
    }
}

/// The color of the piece on a square (`Board::color_on`).
pub open spec fn spec_color_on(board: cozy_chess::Board, sq: u8) -> Option<Side> {
    if spec_has(spec_board_colors(board, Side::White), sq) {
        Some(Side::White)
    } else if spec_has(spec_board_colors(board, Side::Black), sq) {
        Some(Side::Black)
    } else {
        None
    }
}

/// The king squares of a side: its pieces that are kings.
pub open spec fn spec_king_bb(board: cozy_chess::Board, color: Side) -> u64 {
    spec_board_colors(board, color) & spec_board_pieces(board, PieceKind::King)
}

/// Both sides have a king (`Board::king` panics otherwise).
pub open spec fn has_kings(board: cozy_chess::Board) -> bool {
    spec_king_bb(board, Side::White) != 0 && spec_king_bb(board, Side::Black) != 0
}

/// The king square of a side: the lowest square of its king bitboard (`Board::king`).
pub open spec fn spec_king(board: cozy_chess::Board, color: Side) -> u8 {
    vstd::std_specs::bits::u64_trailing_zeros(spec_king_bb(board, color)) as u8
}

pub fn board_piece_on(board: &cozy_chess::Board, sq: u8) -> (r: Option<PieceKind>)
    requires
        sq < 64,
    ensures
        r == spec_piece_on(*board, sq),
{
    if bb_has(board_pieces(board, PieceKind::Pawn), sq) {
        Some(PieceKind::Pawn)
    } else if bb_has(board_pieces(board, PieceKind::Knight), sq) {
        Some(PieceKind::Knight)
    } else if bb_has(board_pieces(board, PieceKind::Bishop), sq) {
        Some(PieceKind::Bishop)
    } else if bb_has(board_pieces(board, PieceKind::Rook), sq) {
        Some(PieceKind::Rook)
    } else if bb_has(board_pieces(board, PieceKind::Queen), sq) {
        Some(PieceKind::Queen)
    } else if bb_has(board_pieces(board, PieceKind::King), sq) {
        Some(PieceKind::King)
    } else {
        None
    }
}

pub fn board_color_on(board: &cozy_chess::Board, sq: u8) -> (r: Option<Side>)
    requires
        sq < 64,
    ensures
        r == spec_color_on(*board, sq),
{
    if bb_has(board_colors(board, Side::White), sq) {
        Some(Side::White)
    } else if bb_has(board_colors(board, Side::Black), sq) {
        Some(Side::Black)
    } else {
        None
    }
}

pub fn board_has_kings(board: &cozy_chess::Board) -> (r: bool)
    ensures
        r == has_kings(*board),
{
    let kings = board_pieces(board, PieceKind::King);
    board_colors(board, Side::White) & kings != 0 && board_colors(board, Side::Black) & kings != 0
}

pub fn board_king(board: &cozy_chess::Board, color: Side) -> (r: u8)
    requires
        spec_king_bb(*board, color) != 0,
    ensures
        r == spec_king(*board, color),
        r < 64,
{
    let kings = board_colors(board, color) & board_pieces(board, PieceKind::King);
    match next_square(kings) {
        Some(sq) => sq,
        None => 0,
    }
}

// ---------------------------------------------------------------------------
// Attack tables. Each name stands for what the `cozy_chess` function of the same name
// computes from its arguments.
// ---------------------------------------------------------------------------

pub uninterp spec fn spec_bishop_moves(sq: u8, blockers: u64) -> u64;

pub uninterp spec fn spec_rook_moves(sq: u8, blockers: u64) -> u64;

pub uninterp spec fn spec_knight_moves(sq: u8) -> u64;

pub uninterp spec fn spec_king_moves(sq: u8) -> u64;

pub uninterp spec fn spec_pawn_attacks(sq: u8, color: Side) -> u64;

pub uninterp spec fn spec_pawn_quiets(sq: u8, color: Side, blockers: u64) -> u64;

pub uninterp spec fn spec_between_rays(from: u8, to: u8) -> u64;

/// Calls `get_bishop_moves`: squares a bishop on `sq` reaches, stopping at blockers.
#[verifier::external_body]
pub(crate) fn bishop_moves(sq: u8, blockers: u64) -> (r: u64)
    requires
        sq < 64,
    ensures
        r == spec_bishop_moves(sq, blockers),
{
    cozy_chess::get_bishop_moves(cozy_square(sq), cozy_chess::BitBoard(blockers)).0
}

/// Calls `get_rook_moves`: squares a rook on `sq` reaches, stopping at blockers.
#[verifier::external_body]
pub(crate) fn rook_moves(sq: u8, blockers: u64) -> (r: u64)
    requires
        sq < 64,
    ensures
        r == spec_rook_moves(sq, blockers),
{
    cozy_chess::get_rook_moves(cozy_square(sq), cozy_chess::BitBoard(blockers)).0
}

/// Calls `get_knight_moves`.
#[verifier::external_body]
pub(crate) fn knight_moves(sq: u8) -> (r: u64)
    requires
        sq < 64,
    ensures
        r == spec_knight_moves(sq),
{
    cozy_chess::get_knight_moves(cozy_square(sq)).0
}

/// Calls `get_king_moves`.
#[verifier::external_body]
pub(crate) fn king_moves(sq: u8) -> (r: u64)
    requires
        sq < 64,
    ensures
        r == spec_king_moves(sq),
{
    cozy_chess::get_king_moves(cozy_square(sq)).0
}

/// Calls `get_pawn_attacks`: the squares a pawn of `color` on `sq` attacks.
#[verifier::external_body]
pub(crate) fn pawn_attacks(sq: u8, color: Side) -> (r: u64)
    requires
        sq < 64,
    ensures
        r == spec_pawn_attacks(sq, color),
{
    cozy_chess::get_pawn_attacks(cozy_square(sq), cozy_color(color)).0
}

/// Calls `get_pawn_quiets`: the non-capturing pushes of a pawn of `color` on `sq`.
#[verifier::external_body]
pub(crate) fn pawn_quiets(sq: u8, color: Side, blockers: u64) -> (r: u64)
    requires
        sq < 64,
    ensures
        r == spec_pawn_quiets(sq, color, blockers),
{
    cozy_chess::get_pawn_quiets(cozy_square(sq), cozy_color(color), cozy_chess::BitBoard(blockers)).0
}

/// Calls `get_between_rays`: the squares strictly between two aligned squares.
#[verifier::external_body]
pub(crate) fn between_rays(from: u8, to: u8) -> (r: u64)
    requires
        from < 64,
        to < 64,
    ensures
        r == spec_between_rays(from, to),
{
    cozy_chess::get_between_rays(cozy_square(from), cozy_square(to)).0
}

} // verus!
