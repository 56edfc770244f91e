use frozenight::eval::{Eval, MATE, MAX_INCONCLUSIVE};
use frozenight::tantabus::eval::Eval as ClassicEval;
use frozenight::tantabus::window::Window as ClassicWindow;
use frozenight::window::Window;

#[test]
fn null_window_is_one_wide() {
    let w = Window::null(Eval(100));
    assert_eq!(w.lb(), Eval(100));
    assert_eq!(w.ub, Eval(101));
    assert!(w.fail_low(Eval(100)));
    assert!(w.fail_high(Eval(101)));
    assert!(!w.inside(Eval(100)));
}

#[test]
fn null_window_bound_is_clamped() {
    // the upper bound is computed with the clamping addition of scores
    let w = Window::null(Eval(MAX_INCONCLUSIVE));
    assert_eq!(w.ub, Eval(MAX_INCONCLUSIVE));
}

#[test]
fn raise_lb_only_raises() {
    let mut w = Window::new(Eval(-50), Eval(50));
    assert!(!w.raise_lb(Eval(-60)));
    assert_eq!(w.lb, Eval(-50));
    assert!(w.raise_lb(Eval(10)));
    assert_eq!(w.lb, Eval(10));
    assert_eq!(w.ub, Eval(50));
}

#[test]
fn negated_window_swaps_fail_sides() {
    let w = Window::new(Eval(-30), Eval(40));
    let n = w.neg();
    assert_eq!(n, Window::new(Eval(-40), Eval(30)));
    assert_eq!(w.fail_low(Eval(-35)), n.fail_high(Eval(35)));
    assert_eq!(w.fail_high(Eval(45)), n.fail_low(Eval(-45)));
    assert_eq!(n.neg(), w);
}

#[test]
fn full_window_is_the_mate_range() {
    let w: Window = Default::default();
    assert_eq!(w, Window::full());
    assert_eq!(w.lb, Eval(-MATE));
    assert_eq!(w.ub, Eval(MATE));
}

#[test]
fn classic_window_narrowing() {
    let mut w = ClassicWindow::infinity();
    assert!(w.contains(ClassicEval::cp(0)));
    w.narrow_alpha(ClassicEval::cp(-20));
    w.narrow_beta(ClassicEval::cp(30));
    w.narrow_alpha(ClassicEval::cp(-50));
    assert_eq!(w.alpha, ClassicEval::cp(-20));
    assert_eq!(w.beta, ClassicEval::cp(30));
    assert!(!w.contains(ClassicEval::cp(30)));
    assert!(!w.empty());
    w.narrow_alpha(ClassicEval::cp(30));
    assert!(w.empty());
}

#[test]
fn classic_window_scouts_and_negation() {
    let w = ClassicWindow::around(ClassicEval::cp(100), ClassicEval::cp(75));
    assert_eq!(w.alpha, ClassicEval::cp(25));
    assert_eq!(w.beta, ClassicEval::cp(175));
    let a = w.null_window_alpha();
    assert_eq!((a.alpha, a.beta), (ClassicEval::cp(25), ClassicEval::cp(26)));
    let b = w.null_window_beta();
    assert_eq!((b.alpha, b.beta), (ClassicEval::cp(174), ClassicEval::cp(175)));
    let n = w.neg();
    assert_eq!((n.alpha, n.beta), (ClassicEval::cp(-175), ClassicEval::cp(-25)));
}
