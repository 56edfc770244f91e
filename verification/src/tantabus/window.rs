//! The alpha-beta window of the classical engine.
use vstd::prelude::*;
use super::eval::{Eval, spec_clamp_inconclusive, spec_saturate_i16, MAX_MATE_IN};

verus! {

#[derive(Debug, Clone, Copy, PartialEq, Eq, Structural)]
pub struct Window {
    pub alpha: Eval,
    pub beta: Eval,
}

impl Window {
    /// The widest window (`Window::INFINITY`).
    pub fn infinity() -> (r: Window)
        ensures
            r.alpha.0 == -i16::MAX,
            r.beta.0 == i16::MAX,
    {
        Window { alpha: Eval::min_eval(), beta: Eval::max_eval() }
    }

    /// An aspiration window `bounds` wide on each side of `eval`, saturating.
    pub fn around(eval: Eval, bounds: Eval) -> (r: Self)
        ensures
            r.alpha.0 == spec_clamp_inconclusive(spec_saturate_i16(eval.0 - bounds.0)),
            r.beta.0 == spec_clamp_inconclusive(spec_saturate_i16(eval.0 + bounds.0)),
    {
        Window { alpha: eval.saturating_sub(bounds), beta: eval.saturating_add(bounds) }
    }

    pub fn narrow_alpha(&mut self, eval: Eval)
        ensures
            final(self).beta == old(self).beta,
            final(self).alpha.0 == (if old(self).alpha.0 >= eval.0 { old(self).alpha.0 } else { eval.0 }),
    {
        if eval.0 > self.alpha.0 {
            self.alpha = eval;
        }
    }

    pub fn narrow_beta(&mut self, eval: Eval)
        ensures
            final(self).alpha == old(self).alpha,
            final(self).beta.0 == (if old(self).beta.0 <= eval.0 { old(self).beta.0 } else { eval.0 }),
    {
        if eval.0 < self.beta.0 {
            self.beta = eval;
        }
    }

    pub fn contains(&self, eval: Eval) -> (r: bool)
        ensures
            r == (self.alpha.0 < eval.0 && eval.0 < self.beta.0),
    {
        self.alpha.0 < eval.0 && eval.0 < self.beta.0
    }

    /// Scout window to test for moves that can raise alpha.
    pub fn null_window_alpha(&self) -> (r: Self)
        requires
            self.alpha.0 < i16::MAX,
        ensures
            r.alpha == self.alpha,
            r.beta.0 == self.alpha.0 + 1,
    {
        Window { alpha: self.alpha, beta: Eval(self.alpha.0 + 1) }
    }

    /// Scout window to test for beta cutoffs.
    pub fn null_window_beta(&self) -> (r: Self)
        requires
            self.beta.0 > i16::MIN,
        ensures
            r.alpha.0 == self.beta.0 - 1,
            r.beta == self.beta,
    {
        Window { alpha: Eval(self.beta.0 - 1), beta: self.beta }
    }

    pub fn empty(self) -> (r: bool)
        ensures
            r == (self.alpha.0 >= self.beta.0),
    {
        self.alpha.0 >= self.beta.0
    }

    /// The window seen by the opponent.
    pub fn neg(self) -> (r: Self)
        requires
            self.alpha.0 != i16::MIN,
            self.beta.0 != i16::MIN,
        ensures
            r.alpha.0 == -self.beta.0,
            r.beta.0 == -self.alpha.0,
    {
        Window { alpha: self.beta.neg(), beta: self.alpha.neg() }
    }
}

/// An aspiration window holds the score it is centred on, as long as the score is
/// not a mate score and the bounds are positive and do not reach the mate bands.
pub proof fn lemma_around_contains(eval: Eval, bounds: Eval)
    requires
        bounds.0 > 0,
        -MAX_MATE_IN < eval.0 - bounds.0,
        eval.0 + bounds.0 < MAX_MATE_IN,
    ensures
        spec_clamp_inconclusive(spec_saturate_i16(eval.0 - bounds.0)) < eval.0 < spec_clamp_inconclusive(
            spec_saturate_i16(eval.0 + bounds.0),
        ),
{
}

/// Null windows are never empty and hold no score strictly inside.
pub proof fn lemma_null_windows(alpha: i16, v: i16)
    requires
        alpha < i16::MAX,
    ensures
        alpha < alpha + 1,
        !(alpha < v && v < alpha + 1),
{
}

/// Negating a window twice gives it back, and a score is inside a window exactly when
/// its negation is inside the negated window.
pub proof fn lemma_neg_window(w: Window, v: Eval)
    requires
        w.alpha.0 != i16::MIN,
        w.beta.0 != i16::MIN,
        v.0 != i16::MIN,
    ensures
        (w.alpha.0 < v.0 && v.0 < w.beta.0) == (-w.beta.0 < -v.0 && -v.0 < -w.alpha.0),
{
}

} // verus!
