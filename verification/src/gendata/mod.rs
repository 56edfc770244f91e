//! The rules of the training-data tools: how a searched position is annotated, which
//! annotated positions a filter keeps, and how positions are classified for statistics.
//! Reading and writing the packed data files is left to the caller.
use vstd::prelude::*;
use crate::chess::{
    ChessMove, PieceKind, Side, bb_has, board_checkers, board_clone, board_colors, board_pieces,
    board_play_unchecked, board_side_to_move, popcnt, popcount, spec_board_checkers,
    spec_board_colors, spec_board_is_legal, spec_board_pieces, spec_board_play,
    spec_board_side_to_move, spec_has, spec_board_legal_moves,
};
use crate::eval::Eval;
use crate::engine::Frozenight;
use crate::selfplay::legal_move_count;
use crate::time::{SearchInfo, TimeConstraint};

pub mod filter;

verus! {

/// The flags byte of an annotated position: bit 0 the best move captures, bit 1 the
/// side to move is in check, bit 2 the best move gives check.
pub open spec fn spec_extra(capture: bool, in_check: bool, gives_check: bool) -> u8 {
    ((if capture { 1int } else { 0int }) + (if in_check { 2int } else { 0int }) + (if gives_check { 4int } else { 0int })) as u8
}

/// A score from White's side.
pub open spec fn spec_white_eval(board: cozy_chess::Board, eval: Eval) -> int {
    match spec_board_side_to_move(board) {
        Side::White => eval.0 as int,
        Side::Black => -eval.0,
    }
}

/// The annotation of a position searched to `eval` with best move `best_move`: the
/// score from White's side and the flags byte.
pub fn annotate(board: &cozy_chess::Board, eval: Eval, best_move: ChessMove) -> (r: (i16, u8))
    requires
        eval.0 != i16::MIN,
        best_move.valid(),
        spec_board_is_legal(*board, best_move),
    ensures
        r.0 == spec_white_eval(*board, eval),
        r.1 == spec_extra(
            spec_has(spec_board_colors(*board, spec_board_side_to_move(*board).spec_flip()), best_move.to),
            spec_board_checkers(*board) != 0,
            spec_board_checkers(spec_board_play(*board, best_move)) != 0,
        ),
{
    let stm = board_side_to_move(board);
    let white_eval = match stm {
        Side::White => eval.0,
        Side::Black => -eval.0,
    };
    let capture = bb_has(board_colors(board, stm.flip()), best_move.to);
    let in_check = board_checkers(board) != 0;
    let mut after = board_clone(board);
    board_play_unchecked(&mut after, best_move);
    let gives_check = board_checkers(&after) != 0;
    let extra: u8 = (if capture { 1u8 } else { 0u8 }) + (if in_check { 2u8 } else { 0u8 }) + (if gives_check { 4u8 } else { 0u8 });
    (white_eval, extra)
}

/// How the statistics count a score.
#[derive(Clone, Copy, Debug, PartialEq, Eq, Structural)]
pub enum EvalClass {
    Draw,
    Mate,
    Scored,
}

pub open spec fn spec_classify(eval: i16) -> EvalClass {
    if eval == 0 {
        EvalClass::Draw
    } else if eval <= -20000 || eval >= 20000 {
        EvalClass::Mate
    } else {
        EvalClass::Scored
    }
}

/// A draw, a mate (or tablebase) score, or an ordinary score.
pub fn classify(eval: i16) -> (r: EvalClass)
    ensures
        r == spec_classify(eval),
{
    if eval == 0 {
        EvalClass::Draw
    } else if eval <= -20000 || eval >= 20000 {
        EvalClass::Mate
    } else {
        EvalClass::Scored
    }
}

/// The material of a position in pawns (queen 8, rook 5, minor 3, pawn 1).
pub open spec fn spec_material(board: cozy_chess::Board) -> int {
    (popcount(spec_board_pieces(board, PieceKind::Pawn)) + 3 * popcount(spec_board_pieces(board, PieceKind::Bishop))
        + 3 * popcount(spec_board_pieces(board, PieceKind::Knight)) + 5 * popcount(spec_board_pieces(board, PieceKind::Rook))
        + 8 * popcount(spec_board_pieces(board, PieceKind::Queen))) as int
}

/// The network bucket a position's material selects: `material * 16 / 76`, at most 15.
pub fn material_bucket(board: &cozy_chess::Board) -> (r: usize)
    ensures
        r == (if spec_material(*board) * 16 / 76 < 15 { spec_material(*board) * 16 / 76 } else { 15 }),
        r < 16,
{
    let material: usize = popcnt(board_pieces(board, PieceKind::Pawn)) as usize
        + 3 * popcnt(board_pieces(board, PieceKind::Bishop)) as usize
        + 3 * popcnt(board_pieces(board, PieceKind::Knight)) as usize
        + 5 * popcnt(board_pieces(board, PieceKind::Rook)) as usize
        + 8 * popcnt(board_pieces(board, PieceKind::Queen)) as usize;
    let bucket = material * 16 / 76;
    if bucket < 15 { bucket } else { 15 }
}

/// The annotation step of the data tool for one position: a fresh game from `board`,
/// searched to the node limit and the depth limit (250 plies when none is given), then
/// annotated with the score and best move of the last completed iteration. `None` when
/// the position has no legal move (the search needs one) or no iteration completed.
pub fn annotate_position(
    engine: &mut Frozenight,
    board: &cozy_chess::Board,
    nodes: Option<u64>,
    depth: Option<i16>,
) -> (r: Option<(i16, u8)>)
    requires
        old(engine).wf(),
    ensures
        final(engine).wf(),
        final(engine).spec_board() == *board,
        r is None <==> spec_board_legal_moves(*board).len() == 0 || (match depth {
            Some(d) => d,
            None => 250i16,
        }) < 1 || final(engine).spec_reports().len() == 0,
        r matches Some(a) ==> {
            let info = final(engine).spec_reports().last();
            &&& a.0 == spec_white_eval(*board, info.eval)
            &&& a.1 == spec_extra(
                spec_has(spec_board_colors(*board, spec_board_side_to_move(*board).spec_flip()), info.best_move.to),
                spec_board_checkers(*board) != 0,
                spec_board_checkers(spec_board_play(*board, info.best_move)) != 0,
            )
        },
{
    engine.new_game();
    let no_moves: Vec<ChessMove> = Vec::new();
    proof {
        crate::engine::lemma_line_len(*board, no_moves@);
    }
    engine.set_position(board_clone(board), &no_moves);
    let mut time = TimeConstraint::infinite();
    time.nodes = match nodes {
        Some(n) => n,
        None => u64::MAX,
    };
    time.depth = match depth {
        Some(d) => d,
        None => 250,
    };
    if time.depth < 1 || legal_move_count(board) == 0 {
        return None;
    }
    let info = engine.search(time, |_i: &SearchInfo| {});
    if info.depth == 0 {
        None
    } else {
        Some(annotate(board, info.eval, info.best_move))
    }
}

} // verus!
