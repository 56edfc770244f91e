//! Game phase for tapered evaluation.
use vstd::prelude::*;
use crate::chess::{PieceKind, board_pieces, popcnt, popcount, spec_board_pieces};

verus! {

/// Phase scale: `0` is the opening, `MAX_PHASE` a pawn ending.
pub const MAX_PHASE: u32 = 256;
/// Phase weight of the starting material.
pub const INIT_PHASE: u32 = 24;

/// Material counted by phase weight (knight and bishop 1, rook 2, queen 4).
pub open spec fn spec_inv_phase(board: cozy_chess::Board) -> int {
    (popcount(spec_board_pieces(board, PieceKind::Knight)) + popcount(spec_board_pieces(board, PieceKind::Bishop))
        + 2 * popcount(spec_board_pieces(board, PieceKind::Rook)) + 4 * popcount(spec_board_pieces(board, PieceKind::Queen))) as int
}

/// The phase for a given weighted material: rounds `(24 - material) * 256 / 24`, with
/// material beyond the starting amount counting as the opening.
pub open spec fn spec_phase_of(inv_phase: int) -> int {
    let phase = if inv_phase >= INIT_PHASE { 0 } else { INIT_PHASE - inv_phase };
    (phase * MAX_PHASE + INIT_PHASE / 2) / INIT_PHASE as int
}

pub fn game_phase(board: &cozy_chess::Board) -> (r: u32)
    ensures
        r == spec_phase_of(spec_inv_phase(*board)),
        r <= MAX_PHASE,
{
    let inv_phase: u32 = popcnt(board_pieces(board, PieceKind::Pawn)) * 0
        + popcnt(board_pieces(board, PieceKind::Knight)) * 1
        + popcnt(board_pieces(board, PieceKind::Bishop)) * 1
        + popcnt(board_pieces(board, PieceKind::Rook)) * 2
        + popcnt(board_pieces(board, PieceKind::Queen)) * 4;
    let phase: u32 = INIT_PHASE.saturating_sub(inv_phase);
    proof {
        assert(phase * MAX_PHASE + INIT_PHASE / 2 <= 24 * 256 + 12);
    }
    (phase * MAX_PHASE + (INIT_PHASE / 2)) / INIT_PHASE
}

/// Less material never means an earlier phase, and the ends of the scale are bare
/// kings (or pawns only) and the full starting material.
pub proof fn lemma_phase_monotone(a: int, b: int)
    requires
        0 <= a <= b,
    ensures
        spec_phase_of(b) <= spec_phase_of(a),
        spec_phase_of(0) == MAX_PHASE,
        spec_phase_of(INIT_PHASE as int) == 0,
{
    let pa = if a >= 24 { 0 } else { 24 - a };
    let pb = if b >= 24 { 0 } else { 24 - b };
    assert(pb <= pa);
    vstd::arithmetic::div_mod::lemma_div_is_ordered(pb * 256 + 12, pa * 256 + 12, 24);
}

} // verus!
