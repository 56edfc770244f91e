use frozenight::eval::{Eval, InternalEval, MATE, MAX_INCONCLUSIVE, TB_WIN};
use frozenight::tantabus::eval::{Eval as ClassicEval, EvalKind, MATE_IN_ZERO, MAX_MATE_IN};

#[test]
fn plys_to_conclusion_examples() {
    assert_eq!(Eval::mate().plys_to_conclusion(), Some(0));
    assert_eq!(Eval::mate().add_time(4).plys_to_conclusion(), Some(4));
    assert_eq!(Eval::mate().neg().add_time(4).plys_to_conclusion(), Some(-4));
    assert_eq!(Eval::tb_win().plys_to_conclusion(), Some(0));
    assert_eq!(Eval::tb_win().add_time(4).plys_to_conclusion(), Some(4));
    assert_eq!(Eval::tb_win().neg().add_time(4).plys_to_conclusion(), Some(-4));
}

#[test]
fn new_clamps_to_inconclusive() {
    assert_eq!(Eval::new(25000).0, MAX_INCONCLUSIVE);
    assert_eq!(Eval::new(-30000).0, -MAX_INCONCLUSIVE);
    assert_eq!(Eval::new(123).0, 123);
    assert!(!Eval::new(i16::MAX).is_conclusive());
    assert_eq!(Eval::new(i16::MIN).plys_to_conclusion(), None);
}

#[test]
fn add_time_then_sub_time_restores() {
    let v = Eval(MATE - 3);
    let later = v.add_time(7);
    assert_eq!(later.0, MATE - 10);
    assert_eq!(later.sub_time(7), v);
    let lost = Eval(-MATE + 2);
    assert_eq!(lost.add_time(5).0, -MATE + 7);
    assert_eq!(lost.add_time(5).sub_time(5), lost);
    let plain = Eval(150);
    assert_eq!(plain.add_time(9), plain);
    assert_eq!(plain.sub_time(9), plain);
}

#[test]
fn negation_mirrors_distance() {
    let v = Eval(TB_WIN - 6);
    assert_eq!(v.plys_to_conclusion(), Some(6));
    assert_eq!(v.neg().plys_to_conclusion(), Some(-6));
    assert_eq!(Eval(MAX_INCONCLUSIVE).plys_to_conclusion(), None);
    assert_eq!(Eval(MAX_INCONCLUSIVE + 1).plys_to_conclusion(), Some(TB_WIN - MAX_INCONCLUSIVE - 1));
}

#[test]
fn add_and_sub_clamp() {
    assert_eq!(Eval(19990).add(100).0, MAX_INCONCLUSIVE);
    assert_eq!(Eval(-19990).sub(100).0, -MAX_INCONCLUSIVE);
    assert_eq!(Eval(10).add(5).0, 15);
    assert_eq!(Eval(10).sub(5).0, 5);
    assert_eq!(Eval(42).raw(), 42);
}

#[test]
fn internal_eval_orders_by_value_then_kind() {
    let real = InternalEval::from(Eval(0));
    let rep = InternalEval::Repetition(7);
    let fake = InternalEval::Fake(Eval(0));
    assert_eq!(real.cmp(&rep), std::cmp::Ordering::Less);
    assert_eq!(fake.cmp(&rep), std::cmp::Ordering::Greater);
    assert_eq!(rep.cmp(&rep), std::cmp::Ordering::Equal);
    assert_eq!(InternalEval::Real(Eval(5)).cmp(&fake), std::cmp::Ordering::Greater);
    assert_eq!(rep.apparent_value(), Eval(0));
    assert!(InternalEval::Real(Eval(3)) == InternalEval::Real(Eval(3)));
    assert!(InternalEval::Real(Eval(3)) != InternalEval::Fake(Eval(3)));
}

#[test]
fn internal_eval_negation_reverses_order() {
    let a = InternalEval::Real(Eval(10));
    let b = InternalEval::Fake(Eval(-4));
    assert_eq!(a.cmp(&b), std::cmp::Ordering::Greater);
    assert_eq!(a.neg().cmp(&b.neg()), std::cmp::Ordering::Less);
    match InternalEval::Repetition(9).neg() {
        InternalEval::Repetition(h) => assert_eq!(h, 9),
        _ => panic!("negation changed the kind"),
    }
}

#[test]
fn classic_eval_kinds_round_trip() {
    assert_eq!(ClassicEval::cp(35).kind(), EvalKind::Centipawn(35));
    assert_eq!(ClassicEval::mate_in(3).kind(), EvalKind::MateIn(3));
    assert_eq!(ClassicEval::mated_in(4).kind(), EvalKind::MatedIn(4));
    assert_eq!(ClassicEval::mate_in(0).0, MATE_IN_ZERO);
    assert_eq!(ClassicEval::mated_in(2), ClassicEval::mate_in(2).neg());
    assert_eq!(ClassicEval::cp(-12).as_cp(), Some(-12));
    assert_eq!(ClassicEval::mate_in(1).as_cp(), None);
}

#[test]
fn classic_eval_saturates() {
    // saturating arithmetic never reaches the mate band
    assert_eq!(ClassicEval::max_eval().saturating_add(ClassicEval::cp(10)), ClassicEval::cp(MAX_MATE_IN - 1));
    assert_eq!(ClassicEval::min_eval().saturating_sub(ClassicEval::cp(10)), ClassicEval::cp(-MAX_MATE_IN + 1));
    assert_eq!(ClassicEval::cp(20000).saturating_mul(ClassicEval::cp(2)), ClassicEval::cp(MAX_MATE_IN - 1));
    assert_eq!(ClassicEval::cp(100).saturating_add(ClassicEval::cp(-30)), ClassicEval::cp(70));
    assert_eq!(ClassicEval::cp(7).saturating_mul(ClassicEval::cp(3)), ClassicEval::cp(21));
    assert_eq!(ClassicEval::zero(), ClassicEval::cp(0));
    assert_eq!(ClassicEval::unit(), ClassicEval::cp(1));
}
