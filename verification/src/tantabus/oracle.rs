//! Interior node recognizer of the classical engine: scores some endings without
//! searching them.
use vstd::prelude::*;
use crate::chess::{
    PieceKind, Side, CORNERS, DARK_SQUARES, EDGES, board_colors, board_occupied, board_pieces,
    popcnt, popcount, spec_board_colors, spec_board_occupied, spec_board_pieces,
};
use super::eval::Eval;

verus! {

/// The oracle's verdict from the board's bitboards: `Some(0)` for a known draw.
pub open spec fn spec_oracle(all: u64, white: u64, bishops: u64, knights: u64, kings: u64) -> Option<i16> {
    let n = popcount(all);
    if n == 2 {
        Some(0)
    } else if n == 3 {
        if bishops | knights != 0 { Some(0) } else { None }
    } else if n == 4 {
        let one_piece_each = popcount(white) == 2;
        if popcount(knights) == 2 && kings & EDGES == 0 {
            Some(0)
        } else if popcount(bishops) == 2 && popcount(bishops & DARK_SQUARES) != 1 {
            Some(0)
        } else if popcount(bishops) == 2 && one_piece_each && kings & CORNERS == 0 {
            Some(0)
        } else if popcount(knights) == 1 && popcount(bishops) == 1 && one_piece_each && kings & CORNERS == 0 {
            Some(0)
        } else {
            None
        }
    } else {
        None
    }
}

/// Recognises drawn endings: bare kings, a lone minor piece, two knights against a
/// bare king away from the edge, same-colored bishops, and opposite minors away from
/// the corners.
pub fn oracle(board: &cozy_chess::Board) -> (r: Option<Eval>)
    ensures
        r == (match spec_oracle(
            spec_board_occupied(*board),
            spec_board_colors(*board, Side::White),
            spec_board_pieces(*board, PieceKind::Bishop),
            spec_board_pieces(*board, PieceKind::Knight),
            spec_board_pieces(*board, PieceKind::King),
        ) {
            Some(v) => Some(Eval(v)),
            None => None,
        }),
{
    let all_pieces = board_occupied(board);
    let white_pieces = board_colors(board, Side::White);
    let bishops = board_pieces(board, PieceKind::Bishop);
    let knights = board_pieces(board, PieceKind::Knight);
    let kings = board_pieces(board, PieceKind::King);
    let n = popcnt(all_pieces);
    if n == 2 {
        Some(Eval(0))
    } else if n == 3 {
        if bishops | knights != 0 { Some(Eval(0)) } else { None }
    } else if n == 4 {
        let one_piece_each = popcnt(white_pieces) == 2;
        let nk = popcnt(knights);
        let nb = popcnt(bishops);
        if nk == 2 && kings & EDGES == 0 {
            return Some(Eval(0));
        }
        if nb == 2 {
            if popcnt(bishops & DARK_SQUARES) != 1 {
                return Some(Eval(0));
            }
            if one_piece_each && kings & CORNERS == 0 {
                return Some(Eval(0));
            }
        }
        if nk == 1 && nb == 1 {
            if one_piece_each && kings & CORNERS == 0 {
                return Some(Eval(0));
            }
        }
        None
    } else {
        None
    }
}

/// The oracle only ever answers "draw".
pub proof fn lemma_oracle_only_draws(all: u64, white: u64, bishops: u64, knights: u64, kings: u64)
    ensures
        spec_oracle(all, white, bishops, knights, kings) matches Some(v) ==> v == 0,
{
}

} // verus!
