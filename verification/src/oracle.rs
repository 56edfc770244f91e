//! Recognises minor-piece endings that are dead draws.
use vstd::prelude::*;
use crate::chess::{
    PieceKind, Side, CORNERS, EDGES, LIGHT_SQUARES, board_colors, board_occupied, board_pieces,
    popcnt, popcount, spec_board_colors, spec_board_occupied, spec_board_pieces,
};

verus! {

/// `a` is a subset of `b`.
pub open spec fn subset(a: u64, b: u64) -> bool {
    a & !b == 0
}

/// The draw verdict from the board's bitboards.
pub open spec fn spec_draw_oracle(occupied: u64, white: u64, black: u64, bishops: u64, knights: u64, kings: u64) -> bool {
    if occupied != bishops | knights | kings {
        false
    } else if popcount(occupied) - 2 == popcount(bishops) && (subset(bishops, LIGHT_SQUARES) || subset(bishops, !LIGHT_SQUARES)) {
        true
    } else if popcount(occupied) <= 3 {
        true
    } else if popcount(occupied) == 4 {
        let minors = bishops | knights;
        if minors & white == 0 || minors & black == 0 {
            bishops == 0 && kings & EDGES == 0
        } else {
            kings & CORNERS == 0
        }
    } else {
        false
    }
}

/// Whether the position is a draw by insufficient material among minor pieces: bare
/// kings, a lone minor piece, bishops all on one color, or two minors that cannot force
/// mate. The board must hold at least two pieces (its kings).
pub fn draw_oracle(board: &cozy_chess::Board) -> (r: bool)
    requires
        popcount(spec_board_occupied(*board)) >= 2,
    ensures
        r == spec_draw_oracle(
            spec_board_occupied(*board),
            spec_board_colors(*board, Side::White),
            spec_board_colors(*board, Side::Black),
            spec_board_pieces(*board, PieceKind::Bishop),
            spec_board_pieces(*board, PieceKind::Knight),
            spec_board_pieces(*board, PieceKind::King),
        ),
{
    let bishops = board_pieces(board, PieceKind::Bishop);
    let knights = board_pieces(board, PieceKind::Knight);
    let kings = board_pieces(board, PieceKind::King);
    let occupied = board_occupied(board);
    if occupied != bishops | knights | kings {
        return false;
    }
    let n = popcnt(occupied);
    if n - 2 == popcnt(bishops) {
        if bishops & !LIGHT_SQUARES == 0 || bishops & !(!LIGHT_SQUARES) == 0 {
            return true;
        }
    }
    if n <= 3 {
        true
    } else if n == 4 {
        let minors = bishops | knights;
        if minors & board_colors(board, Side::White) == 0 || minors & board_colors(board, Side::Black) == 0 {
            bishops == 0 && kings & EDGES == 0
        } else {
            kings & CORNERS == 0
        }
    } else {
        false
    }
}

/// Bare kings, and kings with a single minor piece, are always recognised as drawn.
pub proof fn lemma_lone_minor_draws(occupied: u64, white: u64, black: u64, bishops: u64, knights: u64, kings: u64)
    requires
        occupied == bishops | knights | kings,
        popcount(occupied) <= 3,
    ensures
        spec_draw_oracle(occupied, white, black, bishops, knights, kings),
{
}


/// Two minor pieces on one side against a bare king are a forced win, not a draw, as
/// soon as one of them is a bishop, unless the minors are two bishops on one square
/// color: king, bishop and knight against king, and king and two bishops on opposite
/// colors against king, are never called drawn.
pub proof fn law_bishop_and_partner_against_bare_king_is_no_draw(
    occupied: u64,
    white: u64,
    black: u64,
    bishops: u64,
    knights: u64,
    kings: u64,
)
    requires
        occupied == bishops | knights | kings,
        popcount(occupied) == 4,
        (bishops | knights) & white == 0 || (bishops | knights) & black == 0,
        bishops != 0,
        !(popcount(bishops) == 2 && (subset(bishops, LIGHT_SQUARES) || subset(bishops, !LIGHT_SQUARES))),
    ensures
        !spec_draw_oracle(occupied, white, black, bishops, knights, kings),
{
}


/// Two knights on one side against a bare king are called drawn exactly when neither
/// king stands on the edge of the board.
pub proof fn law_two_knights_against_bare_king(
    occupied: u64,
    white: u64,
    black: u64,
    bishops: u64,
    knights: u64,
    kings: u64,
)
    requires
        occupied == bishops | knights | kings,
        popcount(occupied) == 4,
        bishops == 0,
        knights & white == 0 || knights & black == 0,
    ensures
        spec_draw_oracle(occupied, white, black, bishops, knights, kings) == (kings & EDGES == 0),
{
    assert(popcount(0) == 0);
    assert(bishops | knights == knights) by (bit_vector)
        requires
            bishops == 0,
    ;
}

/// With one minor piece on each side, the ending is called drawn exactly when no king
/// stands in a corner (two bishops on one square color are drawn wherever the kings
/// stand).
pub proof fn law_minor_against_minor(occupied: u64, white: u64, black: u64, bishops: u64, knights: u64, kings: u64)
    requires
        occupied == bishops | knights | kings,
        popcount(occupied) == 4,
        (bishops | knights) & white != 0,
        (bishops | knights) & black != 0,
        !(popcount(bishops) == 2 && (subset(bishops, LIGHT_SQUARES) || subset(bishops, !LIGHT_SQUARES))),
    ensures
        spec_draw_oracle(occupied, white, black, bishops, knights, kings) == (kings & CORNERS == 0),
{
}

/// A pawn, rook or queen on the board (anything besides bishops, knights and kings)
/// rules out a draw by this oracle, as do five or more pieces that are not all
/// bishops of one square color beside the kings.
pub proof fn law_no_draw_with_other_material(
    occupied: u64,
    white: u64,
    black: u64,
    bishops: u64,
    knights: u64,
    kings: u64,
)
    ensures
        occupied != bishops | knights | kings ==> !spec_draw_oracle(occupied, white, black, bishops, knights, kings),
        popcount(occupied) >= 5 && !(popcount(occupied) - 2 == popcount(bishops) && (subset(bishops, LIGHT_SQUARES)
            || subset(bishops, !LIGHT_SQUARES))) ==> !spec_draw_oracle(occupied, white, black, bishops, knights, kings),
{
}

} // verus!
