//! Static exchange evaluation: the material balance of the whole sequence of
//! captures on one square, each side capturing with its least valuable attacker and
//! free to stop whenever continuing would lose material.
use vstd::prelude::*;
use crate::chess::{
    PieceKind, Side, ChessMove, bishop_moves, rook_moves, knight_moves, king_moves, pawn_attacks,
    board_colors, board_pieces, board_side_to_move, board_king, board_occupied, board_piece_on,
    next_square, bb_has, square_bb, spec_next_square, spec_has, spec_square_bb, spec_board_colors,
    spec_board_pieces, spec_board_side_to_move, spec_bishop_moves, spec_rook_moves,
    spec_knight_moves, spec_king_moves, spec_pawn_attacks, spec_king, spec_king_bb, has_kings,
    spec_piece_on, spec_board_occupied,
};

verus! {

/// Exchange value of each piece kind.
pub open spec fn spec_piece_value(p: PieceKind) -> i16 {
    match p {
        PieceKind::Pawn => 500,
        PieceKind::Knight => 1500,
        PieceKind::Bishop => 1625,
        PieceKind::Rook => 2500,
        PieceKind::Queen => 4500,
        PieceKind::King => 30000,
    }
}

pub fn piece_value(p: PieceKind) -> (r: i16)
    ensures
        r == spec_piece_value(p),
        500 <= r <= 30000,
{
    match p {
        PieceKind::Pawn => 500,
        PieceKind::Knight => 1500,
        PieceKind::Bishop => 1625,
        PieceKind::Rook => 2500,
        PieceKind::Queen => 4500,
        PieceKind::King => 30000,
    }
}

/// The state of an exchange: who captured last, what now stands on the square, the
/// pieces still on the board, and the bishop and rook lines through the square.
pub struct SeeState {
    pub stm: Side,
    pub piece: PieceKind,
    pub occupied: u64,
    pub bishop_attacks: u64,
    pub rook_attacks: u64,
}

/// The next capturer of the side `by`: its least valuable piece that attacks `sq`
/// (pawn, knight, bishop, rook, queen), and last its king, with the square it comes
/// from.
pub open spec fn spec_next_attacker(
    board: cozy_chess::Board,
    sq: u8,
    by: Side,
    occupied: u64,
    bishop_attacks: u64,
    rook_attacks: u64,
) -> Option<(PieceKind, u8)> {
    let movable = spec_board_colors(board, by) & occupied;
    let pawns = spec_pawn_attacks(sq, by.spec_flip()) & spec_board_pieces(board, PieceKind::Pawn) & movable;
    let knights = spec_knight_moves(sq) & spec_board_pieces(board, PieceKind::Knight) & movable;
    let bishops = bishop_attacks & spec_board_pieces(board, PieceKind::Bishop) & movable;
    let rooks = rook_attacks & spec_board_pieces(board, PieceKind::Rook) & movable;
    let queens = (rook_attacks | bishop_attacks) & spec_board_pieces(board, PieceKind::Queen) & movable;
    if spec_next_square(pawns) is Some {
        Some((PieceKind::Pawn, spec_next_square(pawns)->0))
    } else if spec_next_square(knights) is Some {
        Some((PieceKind::Knight, spec_next_square(knights)->0))
    } else if spec_next_square(bishops) is Some {
        Some((PieceKind::Bishop, spec_next_square(bishops)->0))
    } else if spec_next_square(rooks) is Some {
        Some((PieceKind::Rook, spec_next_square(rooks)->0))
    } else if spec_next_square(queens) is Some {
        Some((PieceKind::Queen, spec_next_square(queens)->0))
    } else if spec_has(spec_king_moves(sq), spec_king(board, by)) {
        Some((PieceKind::King, spec_king(board, by)))
    } else {
        None
    }
}

/// The state after `by` captures on `sq` with `attacker` from `from`: the capturer
/// leaves the board's occupancy and the slider lines it uncovered are recomputed.
pub open spec fn spec_see_step(
    sq: u8,
    s: SeeState,
    by: Side,
    attacker: PieceKind,
    from: u8,
) -> SeeState {
    let occ = s.occupied & !spec_square_bb(from);
    match attacker {
        PieceKind::Pawn => SeeState { stm: by, piece: attacker, occupied: occ, bishop_attacks: spec_bishop_moves(sq, occ), rook_attacks: s.rook_attacks },
        PieceKind::Knight => SeeState { stm: by, piece: attacker, occupied: occ, bishop_attacks: s.bishop_attacks, rook_attacks: s.rook_attacks },
        PieceKind::Bishop => SeeState { stm: by, piece: attacker, occupied: occ, bishop_attacks: spec_bishop_moves(sq, occ), rook_attacks: s.rook_attacks },
        PieceKind::Rook => SeeState { stm: by, piece: attacker, occupied: occ, bishop_attacks: s.bishop_attacks, rook_attacks: spec_rook_moves(sq, occ) },
        PieceKind::Queen => if spec_has(s.bishop_attacks, from) {
            SeeState { stm: by, piece: attacker, occupied: occ, bishop_attacks: spec_bishop_moves(sq, occ), rook_attacks: s.rook_attacks }
        } else {
            SeeState { stm: by, piece: attacker, occupied: occ, bishop_attacks: s.bishop_attacks, rook_attacks: spec_rook_moves(sq, occ) }
        },
        PieceKind::King => SeeState { stm: by, piece: attacker, occupied: occ, bishop_attacks: s.bishop_attacks, rook_attacks: s.rook_attacks },
    }
}

/// The material won by each capture of the exchange, from capture `i` on (at most 32
/// captures): the value of the piece taken, with a final `0` when the side to
/// recapture has no attacker left, and nothing after a capture of a king.
pub open spec fn spec_see_gains(board: cozy_chess::Board, sq: u8, i: int, s: SeeState) -> Seq<int>
    decreases 32 - i,
{
    if i >= 32 {
        Seq::empty()
    } else {
        let by = s.stm.spec_flip();
        match spec_next_attacker(board, sq, by, s.occupied, s.bishop_attacks, s.rook_attacks) {
            None => seq![0int],
            Some((attacker, from)) => {
                let g = spec_piece_value(s.piece) as int;
                if s.piece == PieceKind::King {
                    seq![g]
                } else {
                    seq![g] + spec_see_gains(board, sq, i + 1, spec_see_step(sq, s, by, attacker, from))
                }
            },
        }
    }
}

/// The value of an exchange whose captures win `gains`: each side captures only while
/// that does not lose material, so the value is `max(0, gains[0] - value(rest))`.
pub open spec fn spec_see_value(gains: Seq<int>) -> int
    decreases gains.len(),
{
    if gains.len() == 0 {
        0
    } else {
        let rest = spec_see_value(gains.drop_first());
        if gains[0] - rest > 0 {
            gains[0] - rest
        } else {
            0
        }
    }
}

/// The exchange on `sq` that starts when `piece` has captured there and the opponent
/// of the side to move is next to recapture.
pub open spec fn spec_see_impl(board: cozy_chess::Board, sq: u8, piece: PieceKind, occupied: u64) -> int {
    spec_see_value(
        spec_see_gains(
            board,
            sq,
            0,
            SeeState {
                stm: spec_board_side_to_move(board),
                piece,
                occupied,
                bishop_attacks: spec_bishop_moves(sq, occupied),
                rook_attacks: spec_rook_moves(sq, occupied),
            },
        ),
    )
}

/// The static exchange value of a capture: the victim's value minus what the opponent
/// wins back by recapturing.
pub open spec fn spec_static_exchange_eval(board: cozy_chess::Board, capture: ChessMove) -> int {
    let occupied = spec_board_occupied(board) & !spec_square_bb(capture.from);
    spec_piece_value(spec_piece_on(board, capture.to)->0) - spec_see_impl(
        board,
        capture.to,
        spec_piece_on(board, capture.from)->0,
        occupied,
    )
}

/// Every gain is a piece value or zero.
pub open spec fn gains_bounded(gains: Seq<int>) -> bool {
    forall|i: int| 0 <= i < gains.len() ==> 0 <= #[trigger] gains[i] <= 30000
}

proof fn lemma_see_value_bounds(gains: Seq<int>)
    requires
        gains_bounded(gains),
    ensures
        0 <= spec_see_value(gains) <= 30000,
        gains.len() > 0 ==> spec_see_value(gains) <= gains[0],
    decreases gains.len(),
{
    if gains.len() > 0 {
        assert(gains_bounded(gains.drop_first())) by {
            assert forall|i: int| 0 <= i < gains.drop_first().len() implies 0 <= #[trigger] gains.drop_first()[i] <= 30000 by {
                assert(gains.drop_first()[i] == gains[i + 1]);
            }
        }
        lemma_see_value_bounds(gains.drop_first());
    }
}

proof fn lemma_see_gains_bounded(board: cozy_chess::Board, sq: u8, i: int, s: SeeState)
    ensures
        gains_bounded(spec_see_gains(board, sq, i, s)),
        i < 32 ==> spec_see_gains(board, sq, i, s).len() > 0,
    decreases 32 - i,
{
    if i < 32 {
        let by = s.stm.spec_flip();
        match spec_next_attacker(board, sq, by, s.occupied, s.bishop_attacks, s.rook_attacks) {
            None => {},
            Some((attacker, from)) => {
                if s.piece != PieceKind::King {
                    let next = spec_see_step(sq, s, by, attacker, from);
                    lemma_see_gains_bounded(board, sq, i + 1, next);
                    let g = spec_piece_value(s.piece) as int;
                    let tail = spec_see_gains(board, sq, i + 1, next);
                    let all = seq![g] + tail;
                    assert forall|k: int| 0 <= k < all.len() implies 0 <= #[trigger] all[k] <= 30000 by {
                        if k > 0 {
                            assert(all[k] == tail[k - 1]);
                        }
                    }
                }
            },
        }
    }
}

/// Finds the next capturer (see `spec_next_attacker`).
fn next_attacker(
    board: &cozy_chess::Board,
    sq: u8,
    by: Side,
    occupied: u64,
    bishop_attacks: u64,
    rook_attacks: u64,
) -> (r: Option<(PieceKind, u8)>)
    requires
        sq < 64,
        has_kings(*board),
    ensures
        r == spec_next_attacker(*board, sq, by, occupied, bishop_attacks, rook_attacks),
        r matches Some((_, f)) ==> f < 64,
{
    let movable = board_colors(board, by) & occupied;
    let pawns = pawn_attacks(sq, by.flip()) & board_pieces(board, PieceKind::Pawn) & movable;
    if let Some(from) = next_square(pawns) {
        return Some((PieceKind::Pawn, from));
    }
    let knights = knight_moves(sq) & board_pieces(board, PieceKind::Knight) & movable;
    if let Some(from) = next_square(knights) {
        return Some((PieceKind::Knight, from));
    }
    let bishops = bishop_attacks & board_pieces(board, PieceKind::Bishop) & movable;
    if let Some(from) = next_square(bishops) {
        return Some((PieceKind::Bishop, from));
    }
    let rooks = rook_attacks & board_pieces(board, PieceKind::Rook) & movable;
    if let Some(from) = next_square(rooks) {
        return Some((PieceKind::Rook, from));
    }
    let queens = (rook_attacks | bishop_attacks) & board_pieces(board, PieceKind::Queen) & movable;
    if let Some(from) = next_square(queens) {
        return Some((PieceKind::Queen, from));
    }
    proof {
        assert(spec_king_bb(*board, by) != 0);
    }
    let king = board_king(board, by);
    if bb_has(king_moves(sq), king) {
        Some((PieceKind::King, king))
    } else {
        None
    }
}

/// The value of the exchange on `sq` after `piece` captured there (`see_impl`).
pub fn see_impl(board: &cozy_chess::Board, sq: u8, piece: PieceKind, occupied: u64) -> (r: i16)
    requires
        sq < 64,
        has_kings(*board),
    ensures
        r == spec_see_impl(*board, sq, piece, occupied),
        0 <= r <= 30000,
{
    let ghost s0 = SeeState {
        stm: spec_board_side_to_move(*board),
        piece,
        occupied,
        bishop_attacks: spec_bishop_moves(sq, occupied),
        rook_attacks: spec_rook_moves(sq, occupied),
    };
    let ghost all = spec_see_gains(*board, sq, 0, s0);
    let mut stm = board_side_to_move(board);
    let mut piece = piece;
    let mut occupied = occupied;
    let mut bishop_attacks = bishop_moves(sq, occupied);
    let mut rook_attacks = rook_moves(sq, occupied);
    let mut gains: Vec<i16> = Vec::new();
    let mut i: usize = 0;
    while i < 32
        invariant_except_break
            i <= 32,
            gains.len() == i,
            forall|k: int| 0 <= k < i ==> 0 <= #[trigger] gains[k] <= 30000,
            all == gains@.map_values(|g: i16| g as int) + spec_see_gains(
                *board,
                sq,
                i as int,
                SeeState { stm, piece, occupied, bishop_attacks, rook_attacks },
            ),
        invariant
            sq < 64,
            has_kings(*board),
            all == spec_see_gains(*board, sq, 0, s0),
        ensures
            all == gains@.map_values(|g: i16| g as int),
            gains.len() >= 1,
            gains.len() <= 32,
            forall|k: int| 0 <= k < gains.len() ==> 0 <= #[trigger] gains[k] <= 30000,
        decreases 32 - i,
    {
        let ghost s = SeeState { stm, piece, occupied, bishop_attacks, rook_attacks };
        let ghost before = gains@;
        let by = stm.flip();
        match next_attacker(board, sq, by, occupied, bishop_attacks, rook_attacks) {
            None => {
                gains.push(0);
                proof {
                    assert(gains@.map_values(|g: i16| g as int) =~= before.map_values(|g: i16| g as int) + seq![0int]);
                }
                break;
            },
            Some((attacker, from)) => {
                let g = piece_value(piece);
                gains.push(g);
                proof {
                    assert(gains@.map_values(|g: i16| g as int) =~= before.map_values(|g: i16| g as int) + seq![g as int]);
                }
                if piece == PieceKind::King {
                    break;
                }
                stm = by;
                occupied = occupied & !square_bb(from);
                match attacker {
                    PieceKind::Pawn => {
                        bishop_attacks = bishop_moves(sq, occupied);
                    },
                    PieceKind::Knight => {},
                    PieceKind::Bishop => {
                        bishop_attacks = bishop_moves(sq, occupied);
                    },
                    PieceKind::Rook => {
                        rook_attacks = rook_moves(sq, occupied);
                    },
                    PieceKind::Queen => {
                        if bb_has(bishop_attacks, from) {
                            bishop_attacks = bishop_moves(sq, occupied);
                        } else {
                            rook_attacks = rook_moves(sq, occupied);
                        }
                    },
                    PieceKind::King => {},
                }
                piece = attacker;
                proof {
                    assert(SeeState { stm, piece, occupied, bishop_attacks, rook_attacks } == spec_see_step(sq, s, by, attacker, from));
                    assert(spec_see_gains(*board, sq, i as int, s) == seq![g as int] + spec_see_gains(*board, sq, i + 1, spec_see_step(sq, s, by, attacker, from)));
                }
                i = i + 1;
                proof {
                    assert(all =~= gains@.map_values(|g: i16| g as int) + spec_see_gains(*board, sq, i as int, SeeState { stm, piece, occupied, bishop_attacks, rook_attacks }));
                }
            },
        }
    }
    proof {
        if i == 32 {
            assert(all =~= gains@.map_values(|g: i16| g as int));
        }
        lemma_see_gains_bounded(*board, sq, 0, s0);
    }
    // Fold from the last capture back to the first.
    let mut value: i16 = 0;
    let mut k: usize = gains.len();
    while k > 0
        invariant
            k <= gains.len(),
            gains.len() <= 32,
            forall|j: int| 0 <= j < gains.len() ==> 0 <= #[trigger] gains[j] <= 30000,
            value == spec_see_value(all.subrange(k as int, all.len() as int)),
            0 <= value <= 30000,
            all == gains@.map_values(|g: i16| g as int),
        decreases k,
    {
        k = k - 1;
        let ghost tail = all.subrange(k + 1, all.len() as int);
        let ghost cur = all.subrange(k as int, all.len() as int);
        proof {
            assert(cur.drop_first() =~= tail);
            assert(cur[0] == gains[k as int]);
        }
        let d = gains[k] - value;
        value = if d > 0 { d } else { 0 };
    }
    proof {
        assert(all.subrange(0, all.len() as int) =~= all);
    }
    value
}

/// The static exchange value of a capture: the victim's value minus what the
/// opponent wins back. Both squares of the move must hold a piece.
pub fn static_exchange_eval(board: &cozy_chess::Board, capture: ChessMove) -> (r: i16)
    requires
        capture.valid(),
        has_kings(*board),
        spec_piece_on(*board, capture.to) is Some,
        spec_piece_on(*board, capture.from) is Some,
    ensures
        r == spec_static_exchange_eval(*board, capture),
        r <= spec_piece_value(spec_piece_on(*board, capture.to)->0),
{
    let occupied = board_occupied(board) & !square_bb(capture.from);
    let victim = match board_piece_on(board, capture.to) {
        Some(p) => p,
        None => PieceKind::Pawn,
    };
    let attacker = match board_piece_on(board, capture.from) {
        Some(p) => p,
        None => PieceKind::Pawn,
    };
    piece_value(victim) - see_impl(board, capture.to, attacker, occupied)
}

/// An exchange is never worth less than nothing to the side that may stop it, nor
/// more than a king; and when nobody can recapture, the capture wins the victim whole.
pub proof fn lemma_see_bounds(board: cozy_chess::Board, sq: u8, piece: PieceKind, occupied: u64)
    ensures
        0 <= spec_see_impl(board, sq, piece, occupied) <= 30000,
        spec_next_attacker(
            board,
            sq,
            spec_board_side_to_move(board).spec_flip(),
            occupied,
            spec_bishop_moves(sq, occupied),
            spec_rook_moves(sq, occupied),
        ) is None ==> spec_see_impl(board, sq, piece, occupied) == 0,
{
    let s0 = SeeState {
        stm: spec_board_side_to_move(board),
        piece,
        occupied,
        bishop_attacks: spec_bishop_moves(sq, occupied),
        rook_attacks: spec_rook_moves(sq, occupied),
    };
    lemma_see_gains_bounded(board, sq, 0, s0);
    lemma_see_value_bounds(spec_see_gains(board, sq, 0, s0));
    let g = spec_see_gains(board, sq, 0, s0);
    if g.len() == 1 {
        assert(g.drop_first().len() == 0);
    }
}


/// After a capture on the square, the line the capturer left is looked at again with
/// the capturer gone: a pawn, bishop or queen that came along a diagonal uncovers the
/// diagonals, a rook or a queen that came along a file or rank uncovers the rook lines.
/// A piece of the other side that stood behind the capturer on that line (an x-ray),
/// a bishop on a diagonal or a rook on a rook line, can then recapture, so the
/// capturer is the next piece won.
pub proof fn law_capture_uncovers_xray(
    board: cozy_chess::Board,
    sq: u8,
    i: int,
    s: SeeState,
    attacker: PieceKind,
    from: u8,
)
    requires
        0 <= i,
        i + 1 < 32,
        s.piece != PieceKind::King,
        attacker != PieceKind::Knight,
        attacker != PieceKind::King,
        spec_next_attacker(board, sq, s.stm.spec_flip(), s.occupied, s.bishop_attacks, s.rook_attacks)
            == Some((attacker, from)),
        ({
            let left = s.occupied & !spec_square_bb(from);
            let behind = spec_board_colors(board, s.stm) & left;
            if attacker == PieceKind::Pawn || attacker == PieceKind::Bishop || (attacker == PieceKind::Queen
                && spec_has(s.bishop_attacks, from)) {
                spec_bishop_moves(sq, left) & spec_board_pieces(board, PieceKind::Bishop) & behind != 0
            } else {
                spec_rook_moves(sq, left) & spec_board_pieces(board, PieceKind::Rook) & behind != 0
            }
        }),
    ensures
        spec_see_gains(board, sq, i, s).len() >= 2,
        spec_see_gains(board, sq, i, s)[1] == spec_piece_value(attacker),
{
    let by = s.stm.spec_flip();
    let next = spec_see_step(sq, s, by, attacker, from);
    assert(next.stm.spec_flip() == s.stm);
    lemma_see_gains_bounded(board, sq, i + 1, next);
}


/// A capture never wins more than its victim and never loses more than the capturing
/// piece: each side may stop the exchange, so the side that starts it loses at most
/// its own piece, and the opponent at most gives back nothing.
pub proof fn law_exchange_between_victim_and_capturer(board: cozy_chess::Board, capture: ChessMove)
    ensures
        spec_piece_value(spec_piece_on(board, capture.to)->0) - spec_piece_value(spec_piece_on(board, capture.from)->0)
            <= spec_static_exchange_eval(board, capture) <= spec_piece_value(spec_piece_on(board, capture.to)->0),
{
    let occupied = spec_board_occupied(board) & !spec_square_bb(capture.from);
    let sq = capture.to;
    let piece = spec_piece_on(board, capture.from)->0;
    let s0 = SeeState {
        stm: spec_board_side_to_move(board),
        piece,
        occupied,
        bishop_attacks: spec_bishop_moves(sq, occupied),
        rook_attacks: spec_rook_moves(sq, occupied),
    };
    let gains = spec_see_gains(board, sq, 0, s0);
    lemma_see_gains_bounded(board, sq, 0, s0);
    lemma_see_value_bounds(gains);
    assert(gains[0] <= spec_piece_value(piece));
}


/// The exchange ends when the side to recapture has no attacker left (the last gain
/// is nothing) or when the piece just taken is a king (nothing is played after it).
pub proof fn law_exchange_ends(board: cozy_chess::Board, sq: u8, i: int, s: SeeState)
    requires
        0 <= i < 32,
    ensures
        spec_next_attacker(board, sq, s.stm.spec_flip(), s.occupied, s.bishop_attacks, s.rook_attacks) is None
            ==> spec_see_gains(board, sq, i, s) == seq![0int],
        spec_next_attacker(board, sq, s.stm.spec_flip(), s.occupied, s.bishop_attacks, s.rook_attacks) is Some
            && s.piece == PieceKind::King ==> spec_see_gains(board, sq, i, s) == seq![spec_piece_value(PieceKind::King) as int],
{
}

} // verus!
