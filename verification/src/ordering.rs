//! Move ordering of the NNUE engine: move scores and the history heuristic.
use vstd::prelude::*;
use crate::arith::trunc_div;

verus! {

/// Bound of the history heuristic: updates approach `±MAX_HISTORY` but do not pass it.
pub const MAX_HISTORY: i32 = 4096;

/// How promising a move looks; later variants sort first, and within a variant the
/// larger payload sorts first.
#[derive(Clone, Copy, Debug, PartialEq, Eq, Structural, Hash)]
pub enum MoveScore {
    BadCapture(i16),
    Quiet(i16),
    GoodCapture(i16),
    Hash,
}

impl MoveScore {
    /// Rank of the variant in the derived order.
    pub open spec fn spec_rank(self) -> int {
        match self {
            MoveScore::BadCapture(_) => 0,
            MoveScore::Quiet(_) => 1,
            MoveScore::GoodCapture(_) => 2,
            MoveScore::Hash => 3,
        }
    }

    pub open spec fn spec_payload(self) -> int {
        match self {
            MoveScore::BadCapture(v) => v as int,
            MoveScore::Quiet(v) => v as int,
            MoveScore::GoodCapture(v) => v as int,
            MoveScore::Hash => 0,
        }
    }

    /// `self < other` in the derived order.
    pub open spec fn spec_lt(self, other: Self) -> bool {
        self.spec_rank() < other.spec_rank() || (self.spec_rank() == other.spec_rank()
            && self.spec_payload() < other.spec_payload())
    }

    pub fn rank(&self) -> (r: u8)
        ensures
            r == self.spec_rank(),
    {
        match self {
            MoveScore::BadCapture(_) => 0,
            MoveScore::Quiet(_) => 1,
            MoveScore::GoodCapture(_) => 2,
            MoveScore::Hash => 3,
        }
    }

    pub fn payload(&self) -> (r: i16)
        ensures
            r == self.spec_payload(),
    {
        match self {
            MoveScore::BadCapture(v) => *v,
            MoveScore::Quiet(v) => *v,
            MoveScore::GoodCapture(v) => *v,
            MoveScore::Hash => 0,
        }
    }

    /// `self < other` in the derived order.
    pub fn less_than(&self, other: &Self) -> (r: bool)
        ensures
            r == self.spec_lt(*other),
    {
        let (a, b) = (self.rank(), other.rank());
        a < b || (a == b && self.payload() < other.payload())
    }
}

/// The amount `history_inc` adds, in exact arithmetic.
pub open spec fn spec_inc_delta(hist: i16, change: i32) -> int {
    change - trunc_div(change * hist, MAX_HISTORY as int)
}

/// The amount `history_dec` subtracts, in exact arithmetic.
pub open spec fn spec_dec_delta(hist: i16, change: i32) -> int {
    change + trunc_div(change * hist, MAX_HISTORY as int)
}

/// `history_inc` in wrapping arithmetic: `i32` products and sums wrap, the delta is
/// truncated to `i16` and added with wrapping.
pub open spec fn spec_history_inc(hist: i16, change: i32) -> i16 {
    let prod = vstd::wrapping::i32_specs::wrapping_mul(change, hist as i32);
    let delta = vstd::wrapping::i32_specs::wrapping_sub(change, trunc_div(prod as int, MAX_HISTORY as int) as i32);
    vstd::wrapping::i16_specs::wrapping_add(hist, delta as i16)
}

/// `history_dec` in wrapping arithmetic.
pub open spec fn spec_history_dec(hist: i16, change: i32) -> i16 {
    let prod = vstd::wrapping::i32_specs::wrapping_mul(change, hist as i32);
    let delta = vstd::wrapping::i32_specs::wrapping_add(change, trunc_div(prod as int, MAX_HISTORY as int) as i32);
    vstd::wrapping::i16_specs::wrapping_sub(hist, delta as i16)
}

/// Rewards a move that caused a cutoff, pulling its score toward `MAX_HISTORY`.
pub fn history_inc(hist: &mut i16, change: i32)
    ensures
        *final(hist) == spec_history_inc(*old(hist), change),
{
    let h = *hist;
    let prod: i32 = change.wrapping_mul(h as i32);
    let delta: i32 = change.wrapping_sub(prod / MAX_HISTORY);
    *hist = h.wrapping_add(delta as i16);
}

/// Penalises a move that was tried before the cutoff, pulling its score toward
/// `-MAX_HISTORY`.
pub fn history_dec(hist: &mut i16, change: i32)
    ensures
        *final(hist) == spec_history_dec(*old(hist), change),
{
    let h = *hist;
    let prod: i32 = change.wrapping_mul(h as i32);
    let delta: i32 = change.wrapping_add(prod / MAX_HISTORY);
    *hist = h.wrapping_sub(delta as i16);
}

proof fn lemma_trunc_div_bounds(x: int)
    ensures
        x >= 0 ==> x - MAX_HISTORY < MAX_HISTORY * trunc_div(x, MAX_HISTORY as int) <= x,
        x < 0 ==> x <= MAX_HISTORY * trunc_div(x, MAX_HISTORY as int) < x + MAX_HISTORY,
{
    if x >= 0 {
        vstd::arithmetic::div_mod::lemma_fundamental_div_mod(x, 4096);
    } else {
        vstd::arithmetic::div_mod::lemma_fundamental_div_mod(-x, 4096);
    }
}

/// The history heuristic stays bounded: while the change per update is at most
/// `MAX_HISTORY` (depth at most 64), a score in `[-MAX_HISTORY, MAX_HISTORY]` stays there
/// after any reward or penalty, and no step of either update wraps (the updates are
/// then exact: `hist ± (change ∓ change * hist / MAX_HISTORY)`).
pub proof fn lemma_history_bounded(hist: i16, change: i32)
    requires
        -MAX_HISTORY <= hist <= MAX_HISTORY,
        0 <= change <= MAX_HISTORY,
    ensures
        spec_history_inc(hist, change) == hist + spec_inc_delta(hist, change),
        spec_history_dec(hist, change) == hist - spec_dec_delta(hist, change),
        -MAX_HISTORY <= spec_history_inc(hist, change) <= MAX_HISTORY,
        -MAX_HISTORY <= spec_history_dec(hist, change) <= MAX_HISTORY,
{
    let p = change * hist;
    assert(-MAX_HISTORY * MAX_HISTORY <= p <= MAX_HISTORY * MAX_HISTORY) by (nonlinear_arith)
        requires -4096 <= hist <= 4096, 0 <= change <= 4096, p == change * hist;
    lemma_trunc_div_bounds(p);
    let t = trunc_div(p, MAX_HISTORY as int);
    // h + c - t <= 4096 and >= -4096, using 4096 * (h + c - t) compared against
    // 4096 * h + 4096 * c - c * h = 4096 * 4096 - (4096 - h) * (4096 - c).
    assert(4096 * hist + 4096 * change - p == 4096 * 4096 - (4096 - hist) * (4096 - change))
        by (nonlinear_arith) requires p == change * hist;
    assert(0 <= (4096 - hist) * (4096 - change)) by (nonlinear_arith)
        requires hist <= 4096, change <= 4096;
    assert((4096 - hist) * (4096 - change) <= 8192 * 4096) by (nonlinear_arith)
        requires -4096 <= hist, 0 <= change, hist <= 4096, change <= 4096;
    assert(4096 * hist - 4096 * change - p == -4096 * 4096 + (4096 + hist) * (4096 - change))
        by (nonlinear_arith) requires p == change * hist;
    assert(0 <= (4096 + hist) * (4096 - change)) by (nonlinear_arith)
        requires -4096 <= hist, change <= 4096;
    assert((4096 + hist) * (4096 - change) <= 8192 * 4096) by (nonlinear_arith)
        requires -4096 <= hist, 0 <= change, hist <= 4096, change <= 4096;
    assert(-4096 <= hist + change - t <= 4096);
    assert(-4096 <= hist - change - t <= 4096);
    assert(-4096 <= t <= 4096) by {
        assert(-4096 * 4096 <= p <= 4096 * 4096);
    }
}

} // verus!
