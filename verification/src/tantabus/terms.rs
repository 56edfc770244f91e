//! The features that the classical evaluation weighs, counted for one side: how far
//! each piece can move, which squares it attacks, passed pawns, rooks on open files,
//! the bishop pair and the attacks around the king.
use vstd::prelude::*;
use crate::chess::{
    PieceKind, Side, popcount, spec_has, spec_square_bb, spec_board_pieces, spec_board_colors,
    spec_board_occupied, spec_king_bb, spec_king, spec_bishop_moves, spec_rook_moves,
    spec_knight_moves, spec_king_moves, spec_pawn_attacks, spec_pawn_quiets, spec_between_rays,
    popcnt, bb_has, square_bb, board_pieces, board_colors, board_occupied, board_king,
    bishop_moves, rook_moves, knight_moves, king_moves, pawn_attacks, pawn_quiets, between_rays,
};

verus! {

// ---------------------------------------------------------------------------
// Mobility
// ---------------------------------------------------------------------------

/// The squares a piece of kind `piece` and color `color` on `sq` attacks.
pub open spec fn spec_piece_attacks(piece: PieceKind, sq: u8, color: Side, occupied: u64) -> u64 {
    match piece {
        PieceKind::Pawn => spec_pawn_attacks(sq, color),
        PieceKind::Knight => spec_knight_moves(sq),
        PieceKind::Bishop => spec_bishop_moves(sq, occupied),
        PieceKind::Rook => spec_rook_moves(sq, occupied),
        PieceKind::Queen => spec_rook_moves(sq, occupied) | spec_bishop_moves(sq, occupied),
        PieceKind::King => spec_king_moves(sq),
    }
}

/// The squares such a piece can move to: a pawn pushes to empty squares and captures
/// enemy pieces; any other piece goes to every attacked square not held by its side.
pub open spec fn spec_piece_moves(
    board: cozy_chess::Board,
    color: Side,
    piece: PieceKind,
    sq: u8,
) -> u64 {
    let occupied = spec_board_occupied(board);
    let attacks = spec_piece_attacks(piece, sq, color, occupied);
    match piece {
        PieceKind::Pawn => spec_pawn_quiets(sq, color, occupied) | (attacks & spec_board_colors(
            board,
            color.spec_flip(),
        )),
        _ => attacks & !spec_board_colors(board, color),
    }
}

/// The pieces of one kind and color.
pub open spec fn spec_our_pieces(board: cozy_chess::Board, color: Side, piece: PieceKind) -> u64 {
    spec_board_colors(board, color) & spec_board_pieces(board, piece)
}

/// Mobility entries `(kind, number of moves)` of the pieces of one kind on squares
/// below `n`, in square order.
pub open spec fn spec_kind_mobility(
    board: cozy_chess::Board,
    color: Side,
    piece: PieceKind,
    n: nat,
) -> Seq<(PieceKind, u32)>
    decreases n,
{
    if n == 0 {
        Seq::empty()
    } else {
        let prev = spec_kind_mobility(board, color, piece, (n - 1) as nat);
        let sq = (n - 1) as u8;
        if spec_has(spec_our_pieces(board, color, piece), sq) {
            prev.push((piece, popcount(spec_piece_moves(board, color, piece, sq)) as u32))
        } else {
            prev
        }
    }
}

/// The union of the squares attacked by the pieces of one kind on squares below `n`.
pub open spec fn spec_kind_attacks(
    board: cozy_chess::Board,
    color: Side,
    piece: PieceKind,
    n: nat,
) -> u64
    decreases n,
{
    if n == 0 {
        0
    } else {
        let prev = spec_kind_attacks(board, color, piece, (n - 1) as nat);
        let sq = (n - 1) as u8;
        if spec_has(spec_our_pieces(board, color, piece), sq) {
            prev | spec_piece_attacks(piece, sq, color, spec_board_occupied(board))
        } else {
            prev
        }
    }
}

/// All mobility entries of a side: pawns first, then knights, bishops, rooks, queens
/// and the king, each kind in square order.
pub open spec fn spec_mobility(board: cozy_chess::Board, color: Side) -> Seq<(PieceKind, u32)> {
    spec_kind_mobility(board, color, PieceKind::Pawn, 64) + spec_kind_mobility(
        board,
        color,
        PieceKind::Knight,
        64,
    ) + spec_kind_mobility(board, color, PieceKind::Bishop, 64) + spec_kind_mobility(
        board,
        color,
        PieceKind::Rook,
        64,
    ) + spec_kind_mobility(board, color, PieceKind::Queen, 64) + spec_kind_mobility(
        board,
        color,
        PieceKind::King,
        64,
    )
}

/// Every square a side attacks.
pub open spec fn spec_attacks(board: cozy_chess::Board, color: Side) -> u64 {
    spec_kind_attacks(board, color, PieceKind::Pawn, 64) | spec_kind_attacks(
        board,
        color,
        PieceKind::Knight,
        64,
    ) | spec_kind_attacks(board, color, PieceKind::Bishop, 64) | spec_kind_attacks(
        board,
        color,
        PieceKind::Rook,
        64,
    ) | spec_kind_attacks(board, color, PieceKind::Queen, 64) | spec_kind_attacks(
        board,
        color,
        PieceKind::King,
        64,
    )
}

/// The attacked squares and the moves of one piece.
fn piece_attacks_and_moves(
    board: &cozy_chess::Board,
    color: Side,
    piece: PieceKind,
    sq: u8,
    occupied: u64,
    ours: u64,
) -> (r: (u64, u64))
    requires
        sq < 64,
        occupied == spec_board_occupied(*board),
        ours == spec_board_colors(*board, color),
    ensures
        r.0 == spec_piece_attacks(piece, sq, color, occupied),
        r.1 == spec_piece_moves(*board, color, piece, sq),
{
    match piece {
        PieceKind::Pawn => {
            let attacks = pawn_attacks(sq, color);
            let theirs = board_colors(board, color.flip());
            (attacks, pawn_quiets(sq, color, occupied) | (attacks & theirs))
        },
        PieceKind::Knight => {
            let attacks = knight_moves(sq);
            (attacks, attacks & !ours)
        },
        PieceKind::Bishop => {
            let attacks = bishop_moves(sq, occupied);
            (attacks, attacks & !ours)
        },
        PieceKind::Rook => {
            let attacks = rook_moves(sq, occupied);
            (attacks, attacks & !ours)
        },
        PieceKind::Queen => {
            let attacks = rook_moves(sq, occupied) | bishop_moves(sq, occupied);
            (attacks, attacks & !ours)
        },
        PieceKind::King => {
            let attacks = king_moves(sq);
            (attacks, attacks & !ours)
        },
    }
}

/// Appends the mobility entries of one kind of piece and returns the squares those
/// pieces attack.
fn add_kind_mobility(
    board: &cozy_chess::Board,
    color: Side,
    piece: PieceKind,
    entries: &mut Vec<(PieceKind, u32)>,
) -> (attacks: u64)
    ensures
        final(entries)@ == old(entries)@ + spec_kind_mobility(*board, color, piece, 64),
        attacks == spec_kind_attacks(*board, color, piece, 64),
{
    let occupied = board_occupied(board);
    let ours = board_colors(board, color);
    let pieces = ours & board_pieces(board, piece);
    let mut attacks: u64 = 0;
    let mut sq: u8 = 0;
    while sq < 64
        invariant
            sq <= 64,
            occupied == spec_board_occupied(*board),
            ours == spec_board_colors(*board, color),
            pieces == spec_our_pieces(*board, color, piece),
            entries@ == old(entries)@ + spec_kind_mobility(*board, color, piece, sq as nat),
            attacks == spec_kind_attacks(*board, color, piece, sq as nat),
        decreases 64 - sq,
    {
        if bb_has(pieces, sq) {
            let (piece_attacks, piece_moves) = piece_attacks_and_moves(
                board,
                color,
                piece,
                sq,
                occupied,
                ours,
            );
            attacks = attacks | piece_attacks;
            entries.push((piece, popcnt(piece_moves)));
            proof {
                assert(entries@ =~= old(entries)@ + spec_kind_mobility(
                    *board,
                    color,
                    piece,
                    (sq + 1) as nat,
                ));
            }
        }
        sq = sq + 1;
    }
    attacks
}

/// The mobility of every piece of a side, and every square it attacks.
pub fn mobility_terms(board: &cozy_chess::Board, color: Side) -> (r: (
    Vec<(PieceKind, u32)>,
    u64,
))
    ensures
        r.0@ == spec_mobility(*board, color),
        r.1 == spec_attacks(*board, color),
{
    let mut entries: Vec<(PieceKind, u32)> = Vec::new();
    let a1 = add_kind_mobility(board, color, PieceKind::Pawn, &mut entries);
    let a2 = add_kind_mobility(board, color, PieceKind::Knight, &mut entries);
    let a3 = add_kind_mobility(board, color, PieceKind::Bishop, &mut entries);
    let a4 = add_kind_mobility(board, color, PieceKind::Rook, &mut entries);
    let a5 = add_kind_mobility(board, color, PieceKind::Queen, &mut entries);
    let a6 = add_kind_mobility(board, color, PieceKind::King, &mut entries);
    proof {
        assert(entries@ =~= spec_mobility(*board, color));
    }
    (entries, a1 | a2 | a3 | a4 | a5 | a6)
}

// ---------------------------------------------------------------------------
// King safety
// ---------------------------------------------------------------------------

/// How many squares a queen on the king's square could reach: the king's exposure.
pub open spec fn spec_virtual_queen_mobility(board: cozy_chess::Board, color: Side) -> nat {
    let occupied = spec_board_occupied(board);
    let king = spec_king(board, color);
    popcount(
        (spec_bishop_moves(king, occupied) | spec_rook_moves(king, occupied)) & !spec_board_colors(
            board,
            color,
        ),
    )
}

pub fn virtual_queen_mobility_terms(board: &cozy_chess::Board, color: Side) -> (r: u32)
    requires
        spec_king_bb(*board, color) != 0,
    ensures
        r == spec_virtual_queen_mobility(*board, color),
{
    let occupied = board_occupied(board);
    let ours = board_colors(board, color);
    let king = board_king(board, color);
    popcnt((bishop_moves(king, occupied) | rook_moves(king, occupied)) & !ours)
}

/// How many squares next to the king the other side attacks.
pub open spec fn spec_king_ring_attacks(board: cozy_chess::Board, color: Side, attacks: u64) -> nat {
    popcount(spec_king_moves(spec_king(board, color)) & attacks)
}

pub fn king_ring_attacks_terms(board: &cozy_chess::Board, color: Side, attacks: u64) -> (r: u32)
    requires
        spec_king_bb(*board, color) != 0,
    ensures
        r == spec_king_ring_attacks(*board, color, attacks),
{
    let king = board_king(board, color);
    popcnt(king_moves(king) & attacks)
}

// ---------------------------------------------------------------------------
// Pawn structure and piece placement
// ---------------------------------------------------------------------------

/// The square on the last rank of a side, in the file of `sq` (`Square::new(file, rank)`).
pub open spec fn spec_promotion_square(sq: u8, color: Side) -> u8 {
    match color {
        Side::White => (56 + sq % 8) as u8,
        Side::Black => (sq % 8) as u8,
    }
}

fn promotion_square(sq: u8, color: Side) -> (r: u8)
    requires
        sq < 64,
    ensures
        r == spec_promotion_square(sq, color),
        r < 64,
{
    match color {
        Side::White => 56 + sq % 8,
        Side::Black => sq % 8,
    }
}

/// The squares in front of the pawns attacked from squares of `attacks` below `n`,
/// up to the last rank, together with the attacked squares themselves.
pub open spec fn spec_adjacent_spans(attacks: u64, color: Side, n: nat) -> u64
    decreases n,
{
    if n == 0 {
        0
    } else {
        let prev = spec_adjacent_spans(attacks, color, (n - 1) as nat);
        let sq = (n - 1) as u8;
        if spec_has(attacks, sq) {
            prev | (spec_between_rays(sq, spec_promotion_square(sq, color)) | spec_square_bb(sq))
        } else {
            prev
        }
    }
}

/// The squares in front of a pawn, up to the last rank.
pub open spec fn spec_front_span(sq: u8, color: Side) -> u64 {
    spec_between_rays(sq, spec_promotion_square(sq, color))
}

/// The squares where an enemy pawn would stop or capture a pawn on its way to promotion.
pub open spec fn spec_blocker_mask(sq: u8, color: Side) -> u64 {
    spec_front_span(sq, color) | spec_adjacent_spans(spec_pawn_attacks(sq, color), color, 64)
}

/// A pawn is passed when no enemy pawn can block or capture it on its way, and no pawn
/// of its own side stands in front of it.
pub open spec fn spec_is_passed(board: cozy_chess::Board, color: Side, sq: u8) -> bool {
    let pawns = spec_board_pieces(board, PieceKind::Pawn);
    let our_pawns = spec_our_pieces(board, color, PieceKind::Pawn);
    let their_pawns = pawns ^ our_pawns;
    &&& their_pawns & spec_blocker_mask(sq, color) == 0
    &&& our_pawns & spec_front_span(sq, color) == 0
}

/// The passed pawns of a side on squares below `n`, in square order.
pub open spec fn spec_passed_pawns(board: cozy_chess::Board, color: Side, n: nat) -> Seq<u8>
    decreases n,
{
    if n == 0 {
        Seq::empty()
    } else {
        let prev = spec_passed_pawns(board, color, (n - 1) as nat);
        let sq = (n - 1) as u8;
        if spec_has(spec_our_pieces(board, color, PieceKind::Pawn), sq) && spec_is_passed(
            board,
            color,
            sq,
        ) {
            prev.push(sq)
        } else {
            prev
        }
    }
}

/// The passed pawns listed are pawns of the side, each passed, in increasing square order.
pub proof fn lemma_passed_pawns_sorted(board: cozy_chess::Board, color: Side, n: nat)
    requires
        n <= 64,
    ensures
        forall|i: int|
            0 <= i < spec_passed_pawns(board, color, n).len() ==> {
                let sq = #[trigger] spec_passed_pawns(board, color, n)[i];
                &&& sq < n
                &&& spec_has(spec_our_pieces(board, color, PieceKind::Pawn), sq)
                &&& spec_is_passed(board, color, sq)
            },
        forall|i: int, j: int|
            0 <= i < j < spec_passed_pawns(board, color, n).len() ==> spec_passed_pawns(
                board,
                color,
                n,
            )[i] < spec_passed_pawns(board, color, n)[j],
    decreases n,
{
    if n > 0 {
        let m = (n - 1) as nat;
        lemma_passed_pawns_sorted(board, color, m);
        let prev = spec_passed_pawns(board, color, m);
        let cur = spec_passed_pawns(board, color, n);
        let sq = m as u8;
        if spec_has(spec_our_pieces(board, color, PieceKind::Pawn), sq) && spec_is_passed(
            board,
            color,
            sq,
        ) {
            assert(cur == prev.push(sq));
            assert forall|i: int| 0 <= i < prev.len() implies #[trigger] cur[i] == prev[i] && prev[i]
                < m by {}
            assert(cur[prev.len() as int] == sq);
        } else {
            assert(cur == prev);
        }
    }
}

fn adjacent_spans(attacks: u64, color: Side) -> (r: u64)
    ensures
        r == spec_adjacent_spans(attacks, color, 64),
{
    let mut spans: u64 = 0;
    let mut sq: u8 = 0;
    while sq < 64
        invariant
            sq <= 64,
            spans == spec_adjacent_spans(attacks, color, sq as nat),
        decreases 64 - sq,
    {
        if bb_has(attacks, sq) {
            spans = spans | (between_rays(sq, promotion_square(sq, color)) | square_bb(sq));
        }
        sq = sq + 1;
    }
    spans
}

/// Whether the pawn on `sq` is passed.
pub fn is_passed(board: &cozy_chess::Board, color: Side, sq: u8) -> (r: bool)
    requires
        sq < 64,
    ensures
        r == spec_is_passed(*board, color, sq),
{
    let pawns = board_pieces(board, PieceKind::Pawn);
    let our_pawns = board_colors(board, color) & pawns;
    let their_pawns = pawns ^ our_pawns;
    let front_span = between_rays(sq, promotion_square(sq, color));
    let blocker_mask = front_span | adjacent_spans(pawn_attacks(sq, color), color);
    their_pawns & blocker_mask == 0 && our_pawns & front_span == 0
}

/// The squares of the passed pawns of a side, in square order.
pub fn passed_pawn_terms(board: &cozy_chess::Board, color: Side) -> (r: Vec<u8>)
    ensures
        r@ == spec_passed_pawns(*board, color, 64),
{
    let our_pawns = board_colors(board, color) & board_pieces(board, PieceKind::Pawn);
    let mut passed: Vec<u8> = Vec::new();
    let mut sq: u8 = 0;
    while sq < 64
        invariant
            sq <= 64,
            our_pawns == spec_our_pieces(*board, color, PieceKind::Pawn),
            passed@ == spec_passed_pawns(*board, color, sq as nat),
        decreases 64 - sq,
    {
        if bb_has(our_pawns, sq) && is_passed(board, color, sq) {
            passed.push(sq);
        }
        sq = sq + 1;
    }
    passed
}

/// The squares of file `file` (`File::bitboard`).
pub open spec fn spec_file_bb(file: u8) -> u64 {
    0x0101_0101_0101_0101u64 << (file as u64)
}

pub fn file_bb(file: u8) -> (r: u64)
    requires
        file < 8,
    ensures
        r == spec_file_bb(file),
{
    0x0101_0101_0101_0101u64 << (file as u64)
}

/// How a rook's file stands: no pawn at all, or no pawn of the rook's side.
pub open spec fn spec_rook_file_open(board: cozy_chess::Board, sq: u8) -> bool {
    spec_file_bb(sq % 8) & spec_board_pieces(board, PieceKind::Pawn) == 0
}

pub open spec fn spec_rook_file_semiopen(board: cozy_chess::Board, color: Side, sq: u8) -> bool {
    !spec_rook_file_open(board, sq) && spec_file_bb(sq % 8) & spec_our_pieces(
        board,
        color,
        PieceKind::Pawn,
    ) == 0
}

/// The numbers of a side's rooks on squares below `n` that stand on an open file, and
/// on a half-open file.
pub open spec fn spec_rook_files(board: cozy_chess::Board, color: Side, n: nat) -> (nat, nat)
    decreases n,
{
    if n == 0 {
        (0, 0)
    } else {
        let prev = spec_rook_files(board, color, (n - 1) as nat);
        let sq = (n - 1) as u8;
        if spec_has(spec_our_pieces(board, color, PieceKind::Rook), sq) {
            if spec_rook_file_open(board, sq) {
                ((prev.0 + 1) as nat, prev.1)
            } else if spec_rook_file_semiopen(board, color, sq) {
                (prev.0, (prev.1 + 1) as nat)
            } else {
                prev
            }
        } else {
            prev
        }
    }
}

proof fn lemma_rook_files_bounded(board: cozy_chess::Board, color: Side, n: nat)
    ensures
        spec_rook_files(board, color, n).0 + spec_rook_files(board, color, n).1 <= n,
    decreases n,
{
    if n > 0 {
        lemma_rook_files_bounded(board, color, (n - 1) as nat);
    }
}

/// A pawn of one side on a file is a pawn on that file.
proof fn lemma_side_pawn_on_file(file: u64, side: u64, pawns: u64)
    by (bit_vector)
    ensures
        file & (side & pawns) != 0 ==> file & pawns != 0,
{
}

/// How a rook's file is classed, from the pawns on it: a file holding a pawn of the
/// rook's side is neither open nor half-open; one holding enemy pawns and none of the
/// rook's side is half-open; an open file holds no pawn of either side.
pub proof fn law_rook_file_from_pawns(board: cozy_chess::Board, color: Side, sq: u8)
    requires
        sq < 64,
    ensures
        ({
            let file = spec_file_bb(sq % 8);
            let own = spec_our_pieces(board, color, PieceKind::Pawn);
            let enemy = spec_our_pieces(board, color.spec_flip(), PieceKind::Pawn);
            &&& file & own != 0 ==> !spec_rook_file_open(board, sq) && !spec_rook_file_semiopen(board, color, sq)
            &&& file & own == 0 && file & enemy != 0 ==> !spec_rook_file_open(board, sq) && spec_rook_file_semiopen(board, color, sq)
            &&& spec_rook_file_open(board, sq) ==> file & own == 0 && file & enemy == 0
        }),
{
    let file = spec_file_bb(sq % 8);
    let pawns = spec_board_pieces(board, PieceKind::Pawn);
    lemma_side_pawn_on_file(file, spec_board_colors(board, color), pawns);
    lemma_side_pawn_on_file(file, spec_board_colors(board, color.spec_flip()), pawns);
}

/// The only square of a one-square bitboard.
proof fn lemma_single_square(sq: u8, s: u8)
    by (bit_vector)
    requires
        sq < 64,
        s < 64,
    ensures
        ((1u64 << (sq as u64)) >> (s as u64)) & 1 == 1 <==> s == sq,
{
}

proof fn lemma_one_rook_files(board: cozy_chess::Board, color: Side, sq: u8, n: nat)
    requires
        sq < 64,
        n <= 64,
        spec_our_pieces(board, color, PieceKind::Rook) == spec_square_bb(sq),
    ensures
        spec_rook_files(board, color, n) == (if n <= sq {
            (0nat, 0nat)
        } else if spec_rook_file_open(board, sq) {
            (1nat, 0nat)
        } else if spec_rook_file_semiopen(board, color, sq) {
            (0nat, 1nat)
        } else {
            (0nat, 0nat)
        }),
    decreases n,
{
    if n > 0 {
        lemma_one_rook_files(board, color, sq, (n - 1) as nat);
        lemma_single_square(sq, (n - 1) as u8);
    }
}

/// A side with a single rook counts it once as on a half-open file exactly when the
/// rook's file holds enemy pawns and none of its own, and never counts it when its own
/// pawn stands on that file.
pub proof fn law_single_rook_half_open_count(board: cozy_chess::Board, color: Side, sq: u8)
    requires
        sq < 64,
        spec_our_pieces(board, color, PieceKind::Rook) == spec_square_bb(sq),
    ensures
        ({
            let file = spec_file_bb(sq % 8);
            let own = spec_our_pieces(board, color, PieceKind::Pawn);
            let enemy = spec_our_pieces(board, color.spec_flip(), PieceKind::Pawn);
            &&& file & own == 0 && file & enemy != 0 ==> spec_rook_files(board, color, 64) == (0nat, 1nat)
            &&& file & own != 0 ==> spec_rook_files(board, color, 64) == (0nat, 0nat)
        }),
{
    lemma_one_rook_files(board, color, sq, 64);
    law_rook_file_from_pawns(board, color, sq);
}

/// The numbers of a side's rooks on open and on half-open files.
pub fn rook_on_open_file_terms(board: &cozy_chess::Board, color: Side) -> (r: (u32, u32))
    ensures
        r.0 == spec_rook_files(*board, color, 64).0,
        r.1 == spec_rook_files(*board, color, 64).1,
{
    let pawns = board_pieces(board, PieceKind::Pawn);
    let ours = board_colors(board, color);
    let our_pawns = ours & pawns;
    let our_rooks = ours & board_pieces(board, PieceKind::Rook);
    let mut open: u32 = 0;
    let mut semiopen: u32 = 0;
    let mut sq: u8 = 0;
    while sq < 64
        invariant
            sq <= 64,
            pawns == spec_board_pieces(*board, PieceKind::Pawn),
            our_pawns == spec_our_pieces(*board, color, PieceKind::Pawn),
            our_rooks == spec_our_pieces(*board, color, PieceKind::Rook),
            open == spec_rook_files(*board, color, sq as nat).0,
            semiopen == spec_rook_files(*board, color, sq as nat).1,
        decreases 64 - sq,
    {
        proof {
            lemma_rook_files_bounded(*board, color, sq as nat);
        }
        if bb_has(our_rooks, sq) {
            let file = file_bb(sq % 8);
            if file & pawns == 0 {
                open = open + 1;
            } else if file & our_pawns == 0 {
                semiopen = semiopen + 1;
            }
        }
        sq = sq + 1;
    }
    (open, semiopen)
}

/// A side has the bishop pair when it has two bishops or more.
pub open spec fn spec_bishop_pair(board: cozy_chess::Board, color: Side) -> bool {
    popcount(spec_our_pieces(board, color, PieceKind::Bishop)) >= 2
}

pub fn bishop_pair_terms(board: &cozy_chess::Board, color: Side) -> (r: bool)
    ensures
        r == spec_bishop_pair(*board, color),
{
    popcnt(board_colors(board, color) & board_pieces(board, PieceKind::Bishop)) >= 2
}

// ---------------------------------------------------------------------------
// All features of a position
// ---------------------------------------------------------------------------

/// The features of one side that the evaluation weighs.
#[derive(Debug, Clone)]
pub struct SideFeatures {
    pub mobility: Vec<(PieceKind, u32)>,
    pub virtual_queen_mobility: u32,
    pub passed_pawns: Vec<u8>,
    pub rooks_on_open_files: u32,
    pub rooks_on_semiopen_files: u32,
    pub bishop_pair: bool,
    pub king_ring_attacks: u32,
}

impl SideFeatures {
    /// These are the features of `color` on `board`.
    pub open spec fn describes(&self, board: cozy_chess::Board, color: Side) -> bool {
        &&& self.mobility@ == spec_mobility(board, color)
        &&& self.virtual_queen_mobility == spec_virtual_queen_mobility(board, color)
        &&& self.passed_pawns@ == spec_passed_pawns(board, color, 64)
        &&& self.rooks_on_open_files == spec_rook_files(board, color, 64).0
        &&& self.rooks_on_semiopen_files == spec_rook_files(board, color, 64).1
        &&& self.bishop_pair == spec_bishop_pair(board, color)
        &&& self.king_ring_attacks == spec_king_ring_attacks(
            board,
            color,
            spec_attacks(board, color.spec_flip()),
        )
    }
}

/// The features of both sides, white first; the attacks around each king are those of
/// the other side.
pub fn eval_features(board: &cozy_chess::Board) -> (r: (SideFeatures, SideFeatures))
    requires
        crate::chess::has_kings(*board),
    ensures
        r.0.describes(*board, Side::White),
        r.1.describes(*board, Side::Black),
{
    let (white_mobility, white_attacks) = mobility_terms(board, Side::White);
    let (black_mobility, black_attacks) = mobility_terms(board, Side::Black);
    let (white_open, white_semiopen) = rook_on_open_file_terms(board, Side::White);
    let (black_open, black_semiopen) = rook_on_open_file_terms(board, Side::Black);
    let white = SideFeatures {
        mobility: white_mobility,
        virtual_queen_mobility: virtual_queen_mobility_terms(board, Side::White),
        passed_pawns: passed_pawn_terms(board, Side::White),
        rooks_on_open_files: white_open,
        rooks_on_semiopen_files: white_semiopen,
        bishop_pair: bishop_pair_terms(board, Side::White),
        king_ring_attacks: king_ring_attacks_terms(board, Side::White, black_attacks),
    };
    let black = SideFeatures {
        mobility: black_mobility,
        virtual_queen_mobility: virtual_queen_mobility_terms(board, Side::Black),
        passed_pawns: passed_pawn_terms(board, Side::Black),
        rooks_on_open_files: black_open,
        rooks_on_semiopen_files: black_semiopen,
        bishop_pair: bishop_pair_terms(board, Side::Black),
        king_ring_attacks: king_ring_attacks_terms(board, Side::Black, white_attacks),
    };
    (white, black)
}

} // verus!
