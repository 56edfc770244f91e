//! The alpha-beta window of the NNUE engine's search.
use vstd::prelude::*;
use crate::arith::clamp;
use crate::eval::{Eval, MATE, MAX_INCONCLUSIVE};

verus! {

/// Scores `v` with `lb < v < ub` are inside the window.
#[derive(Clone, Copy, Debug, PartialEq, Eq, Structural)]
pub struct Window {
    pub lb: Eval,
    pub ub: Eval,
}

impl Window {
    /// A null window just above `lb`: its upper bound is `lb + 1`, clamped like any
    /// `Eval + i16`.
    pub fn null(lb: Eval) -> (r: Self)
        requires
            lb.0 < i16::MAX,
        ensures
            r.lb == lb,
            r.ub.0 == clamp(lb.0 + 1, -MAX_INCONCLUSIVE as int, MAX_INCONCLUSIVE as int),
    {
        Window { lb, ub: lb.add(1) }
    }

    pub fn lb(&self) -> (r: Eval)
        ensures
            r == self.lb,
    {
        self.lb
    }

    /// The score is at or below the lower bound.
    pub fn fail_low(&self, v: Eval) -> (r: bool)
        ensures
            r == (v.0 <= self.lb.0),
    {
        v.0 <= self.lb.0
    }

    /// The score is at or above the upper bound.
    pub fn fail_high(&self, v: Eval) -> (r: bool)
        ensures
            r == (v.0 >= self.ub.0),
    {
        v.0 >= self.ub.0
    }

    /// Raises the lower bound to `v` if `v` is above it; says whether it did.
    pub fn raise_lb(&mut self, v: Eval) -> (r: bool)
        requires
            v.0 < old(self).ub.0,
        ensures
            r == (v.0 > old(self).lb.0),
            final(self).ub == old(self).ub,
            final(self).lb == (if r { v } else { old(self).lb }),
    {
        let raised = v.0 > self.lb.0;
        if raised {
            self.lb = v;
        }
        raised
    }

    /// A window from its bounds, which must be in order.
    pub fn new(lb: Eval, ub: Eval) -> (r: Self)
        requires
            lb.0 < ub.0,
        ensures
            r.lb == lb,
            r.ub == ub,
    {
        Window { lb, ub }
    }

    /// The full window, from `-MATE` to `MATE` (`Default`).
    pub fn full() -> (r: Self)
        ensures
            r.lb.0 == -MATE,
            r.ub.0 == MATE,
    {
        Window { lb: Eval(-MATE), ub: Eval(MATE) }
    }

    /// The window seen from the other side: `-ub .. -lb`.
    pub fn neg(self) -> (r: Self)
        requires
            self.lb.0 != i16::MIN,
            self.ub.0 != i16::MIN,
        ensures
            r.lb.0 == -self.ub.0,
            r.ub.0 == -self.lb.0,
    {
        Window { lb: self.ub.neg(), ub: self.lb.neg() }
    }

    /// Strictly between the bounds.
    pub fn inside(&self, v: Eval) -> (r: bool)
        ensures
            r == (self.lb.0 < v.0 && v.0 < self.ub.0),
    {
        self.lb.0 < v.0 && v.0 < self.ub.0
    }
}

impl Default for Window {
    fn default() -> (r: Self)
        ensures
            r.lb.0 == -MATE,
            r.ub.0 == MATE,
    {
        Window::full()
    }
}

/// Negamax duality: a score fails low in a window exactly when its negation fails high
/// in the negated window, and negating twice gives the window back.
pub proof fn lemma_window_negation(w: Window, v: Eval)
    requires
        w.lb.0 != i16::MIN,
        w.ub.0 != i16::MIN,
        v.0 != i16::MIN,
    ensures
        ({
            let nw = Window { lb: Eval((-w.ub.0) as i16), ub: Eval((-w.lb.0) as i16) };
            &&& (v.0 <= w.lb.0) == ((-v.0) >= nw.ub.0)
            &&& (v.0 >= w.ub.0) == ((-v.0) <= nw.lb.0)
            &&& Window { lb: Eval((-nw.ub.0) as i16), ub: Eval((-nw.lb.0) as i16) } == w
        }),
{
}

/// A null window around an inconclusive bound holds no score: every score fails
/// either low or high.
pub proof fn lemma_null_window_decides(lb: Eval, v: Eval)
    requires
        -MAX_INCONCLUSIVE <= lb.0 < MAX_INCONCLUSIVE,
    ensures
        ({
            let ub = clamp(lb.0 + 1, -MAX_INCONCLUSIVE as int, MAX_INCONCLUSIVE as int);
            v.0 <= lb.0 || v.0 >= ub
        }),
{
}

} // verus!
