//! Small board queries of the classical engine.
use vstd::prelude::*;
use crate::chess::{
    ChessMove, Side, board_colors, board_en_passant, board_side_to_move, bb_has, spec_board_colors,
    spec_board_en_passant, spec_board_side_to_move, spec_has,
};

verus! {

/// The rank (index) of the square a pawn of `color` skips on a double push when
/// seen by its opponent: `Rank::Third.relative_to(!color)`.
pub open spec fn spec_ep_rank(opponent: Side) -> u8 {
    match opponent {
        Side::White => 2,
        Side::Black => 5,
    }
}

/// The squares a move of the side to move captures on: enemy pieces, and the en
/// passant square.
pub open spec fn spec_capture_squares(board: cozy_chess::Board) -> u64 {
    let color = spec_board_side_to_move(board);
    let enemies = spec_board_colors(board, color.spec_flip());
    match spec_board_en_passant(board) {
        Some(f) => enemies | (1u64 << ((spec_ep_rank(color.spec_flip()) * 8 + f) as u64)),
        None => enemies,
    }
}

/// A move is quiet when it captures nothing (en passant included) and promotes to
/// nothing.
pub fn move_is_quiet(mv: ChessMove, board: &cozy_chess::Board) -> (r: bool)
    requires
        mv.valid(),
    ensures
        r == (!spec_has(spec_capture_squares(*board), mv.to) && mv.promotion is None),
{
    let color = board_side_to_move(board);
    let them = color.flip();
    let mut capture_squares = board_colors(board, them);
    if let Some(ep) = board_en_passant(board) {
        let rank: u8 = match them {
            Side::White => 2,
            Side::Black => 5,
        };
        capture_squares = capture_squares | (1u64 << ((rank * 8 + ep) as u64));
    }
    !bb_has(capture_squares, mv.to) && mv.promotion.is_none()
}

} // verus!
