//! Pruning and reduction formulas of the classical engine's search.
use vstd::prelude::*;
use crate::arith::trunc_div;
use super::eval::{Eval, MAX_MATE_IN};
use super::window::Window;

verus! {

/// Late move reductions start at this depth.
pub const LMR_MIN_DEPTH: u8 = 3;

/// The centipawn value of a score, if it is not a mate score.
pub open spec fn spec_as_cp(e: Eval) -> Option<i16> {
    if -MAX_MATE_IN < e.0 < MAX_MATE_IN { Some(e.0) } else { None }
}

/// Null move reduction: 3 plies, plus one per full 100 centipawns that the static
/// eval exceeds beta by, at most 2 more.
pub open spec fn spec_nmp_reduction(static_eval: Eval, window: Window) -> u8 {
    match (spec_as_cp(static_eval), spec_as_cp(window.beta)) {
        (Some(eval), Some(beta)) => if eval >= beta {
            let extra = (eval - beta) / 100;
            (3 + if extra < 2 { extra } else { 2 }) as u8
        } else {
            3
        },
        _ => 3,
    }
}

pub fn nmp_calculate_reduction(static_eval: Eval, window: Window) -> (r: u8)
    ensures
        r == spec_nmp_reduction(static_eval, window),
        3 <= r <= 5,
{
    let mut reduction: u8 = 3;
    if let (Some(eval), Some(beta)) = (static_eval.as_cp(), window.beta.as_cp()) {
        if eval >= beta {
            let extra: i32 = (eval as i32 - beta as i32) / 100;
            reduction = reduction + (if extra < 2 { extra } else { 2 }) as u8;
        }
    }
    reduction
}

/// The late move reduction before history: none for the first three moves, one ply
/// below depth 7, two plies from depth 7 on.
pub open spec fn spec_lmr_base(i: usize, depth: u8) -> i8 {
    if i < 3 { 0 } else if depth < 7 { 1 } else { 2 }
}

/// The reduction after subtracting one ply per 200 points of history, before the
/// floor at zero.
pub open spec fn spec_lmr_unclamped(i: usize, depth: u8, history: i32) -> int {
    spec_lmr_base(i, depth) - (trunc_div(history as int, 200) as i8)
}

pub fn lmr_calculate_reduction(i: usize, depth: u8, history: i32) -> (r: u8)
    requires
        i8::MIN <= spec_lmr_unclamped(i, depth, history) <= i8::MAX,
    ensures
        r == (if spec_lmr_unclamped(i, depth, history) > 0 {
            spec_lmr_unclamped(i, depth, history)
        } else {
            0
        }),
{
    let mut reduction: i8 = if i < 3 {
        0
    } else if depth < 7 {
        1
    } else {
        2
    };
    reduction = reduction - (history / 200) as i8;
    if reduction > 0 { reduction as u8 } else { 0 }
}

/// How many quiet moves late move pruning searches at shallow depths.
pub open spec fn spec_lmp_quiets(depth: u8) -> usize {
    if depth == 1 { 5 } else if depth == 2 { 10 } else if depth == 3 { 15 } else { usize::MAX }
}

pub fn lmp_quiets_to_check(depth: u8) -> (r: usize)
    ensures
        r == spec_lmp_quiets(depth),
{
    match depth {
        1 => 5,
        2 => 10,
        3 => 15,
        _ => usize::MAX,
    }
}

/// Futility margin: 300 centipawns at depth 1, 600 at depth 2, none deeper.
pub fn futility_margin(depth: u8) -> (r: Option<Eval>)
    ensures
        r == (if depth == 1 { Some(Eval(300)) } else if depth == 2 { Some(Eval(600)) } else { None::<Eval> }),
{
    match depth {
        1 => Some(Eval::cp(300)),
        2 => Some(Eval::cp(600)),
        _ => None,
    }
}

/// Reverse futility margin: 100 centipawns per ply below depth 5, none deeper.
pub fn reverse_futility_margin(depth: u8) -> (r: Option<Eval>)
    ensures
        r == (if depth < 5 { Some(Eval((100 * depth) as i16)) } else { None::<Eval> }),
{
    if depth < 5 {
        Some(Eval::cp(100 * depth as i16))
    } else {
        None
    }
}

/// Late move pruning searches more quiet moves the deeper the node (from depth 1 on),
/// and the null move reduction only grows with the margin over beta.
pub proof fn lemma_pruning_grows(d: u8, e: u8, eval: Eval, eval2: Eval, window: Window)
    requires
        1 <= d <= e,
        spec_as_cp(eval) is Some,
        spec_as_cp(eval2) is Some,
        eval.0 <= eval2.0,
    ensures
        spec_lmp_quiets(d) <= spec_lmp_quiets(e),
        spec_nmp_reduction(eval, window) <= spec_nmp_reduction(eval2, window),
{
    if let Some(beta) = spec_as_cp(window.beta) {
        if eval.0 >= beta {
            vstd::arithmetic::div_mod::lemma_div_is_ordered(eval.0 - beta, eval2.0 - beta, 100);
        }
    }
}

} // verus!
