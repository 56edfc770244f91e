//! Scores of the NNUE engine: centipawn-like values, with bands at the top and
//! bottom of the range that encode the distance to a mate or a tablebase win.
use vstd::prelude::*;
use crate::arith::{clamp, trunc_div};

verus! {

/// A score. Values above `MAX_INCONCLUSIVE` (and below its negation) are conclusive:
/// `MATE - p` is a mate in `p` plies and `TB_WIN - p` a tablebase win in `p` plies.
#[derive(Clone, Copy, Debug, PartialEq, Eq, Structural, Hash, Default)]
pub struct Eval(pub i16);

/// Raw value of a mate on the board.
pub const MATE: i16 = 30000;
/// Raw value of a tablebase win on the board.
pub const TB_WIN: i16 = 25000;
/// Largest raw value that is not conclusive.
pub const MAX_INCONCLUSIVE: i16 = 20000;

/// What `Eval::plys_to_conclusion` answers for a raw value.
pub open spec fn spec_plys_to_conclusion(v: i16) -> Option<i16> {
    if v > TB_WIN {
        Some((MATE - v) as i16)
    } else if v > MAX_INCONCLUSIVE {
        Some((TB_WIN - v) as i16)
    } else if v < -TB_WIN {
        Some((-MATE - v) as i16)
    } else if v < -MAX_INCONCLUSIVE {
        Some((-TB_WIN - v) as i16)
    } else {
        None
    }
}

/// The raw value of `add_time`: conclusive scores move `plys` toward zero.
pub open spec fn spec_add_time(v: i16, plys: u16) -> int {
    if v < -MAX_INCONCLUSIVE {
        v + (plys as i16)
    } else if v > MAX_INCONCLUSIVE {
        v - (plys as i16)
    } else {
        v as int
    }
}

/// `add_time` stays within `i16` (its arithmetic would overflow otherwise).
pub open spec fn add_time_fits(v: i16, plys: u16) -> bool {
    i16::MIN <= spec_add_time(v, plys) <= i16::MAX
}

/// The raw value of `sub_time`: conclusive scores move `plys` away from zero.
pub open spec fn spec_sub_time(v: i16, plys: u16) -> int {
    if v < -MAX_INCONCLUSIVE {
        v - (plys as i16)
    } else if v > MAX_INCONCLUSIVE {
        v + (plys as i16)
    } else {
        v as int
    }
}

/// What `sub_time` asserts in debug builds: the result stays strictly inside the mate
/// range.
pub open spec fn sub_time_allowed(v: i16, plys: u16) -> bool {
    &&& (v < -MAX_INCONCLUSIVE ==> v - (plys as i16) > -MATE)
    &&& (v > MAX_INCONCLUSIVE ==> v + (plys as i16) < MATE)
}

impl Eval {
    /// `Eval::MATE`.
    pub fn mate() -> (r: Eval)
        ensures r.0 == MATE,
    {
        Eval(MATE)
    }

    /// `Eval::TB_WIN`.
    pub fn tb_win() -> (r: Eval)
        ensures r.0 == TB_WIN,
    {
        Eval(TB_WIN)
    }

    /// `Eval::MAX_INCONCLUSIVE`.
    pub fn max_inconclusive() -> (r: Eval)
        ensures r.0 == MAX_INCONCLUSIVE,
    {
        Eval(MAX_INCONCLUSIVE)
    }

    /// `Eval::DRAW`.
    pub fn draw() -> (r: Eval)
        ensures r.0 == 0,
    {
        Eval(0)
    }

    /// An inconclusive score: `value` clamped to `[-MAX_INCONCLUSIVE, MAX_INCONCLUSIVE]`.
    pub fn new(value: i16) -> (r: Self)
        ensures
            r.0 == clamp(value as int, -MAX_INCONCLUSIVE as int, MAX_INCONCLUSIVE as int),
    {
        if value < -MAX_INCONCLUSIVE {
            Eval(-MAX_INCONCLUSIVE)
        } else if value > MAX_INCONCLUSIVE {
            Eval(MAX_INCONCLUSIVE)
        } else {
            Eval(value)
        }
    }

    pub fn is_conclusive(self) -> (r: bool)
        ensures
            r == (spec_plys_to_conclusion(self.0) is Some),
            r == (self.0 > MAX_INCONCLUSIVE || self.0 < -MAX_INCONCLUSIVE),
    {
        self.plys_to_conclusion().is_some()
    }

    /// Returns `p` if winning or `-p` if losing, where `p` is the number of plys until
    /// conclusion; `None` for inconclusive scores.
    pub fn plys_to_conclusion(self) -> (r: Option<i16>)
        ensures
            r == spec_plys_to_conclusion(self.0),
    {
        let v = self.0;
        if v > TB_WIN {
            Some(MATE - v)
        } else if v > MAX_INCONCLUSIVE {
            Some(TB_WIN - v)
        } else if v < -TB_WIN {
            Some(-MATE - v)
        } else if v < -MAX_INCONCLUSIVE {
            Some(-TB_WIN - v)
        } else {
            None
        }
    }

    /// If this eval is conclusive, decreases the score by the indicated number of plys.
    pub fn add_time(self, plys: u16) -> (r: Self)
        requires
            add_time_fits(self.0, plys),
        ensures
            r.0 == spec_add_time(self.0, plys),
    {
        if self.0 < -MAX_INCONCLUSIVE {
            Eval(self.0 + plys as i16)
        } else if self.0 > MAX_INCONCLUSIVE {
            Eval(self.0 - plys as i16)
        } else {
            self
        }
    }

    /// If this eval is conclusive, increases the score by the indicated number of plys.
    pub fn sub_time(self, plys: u16) -> (r: Self)
        requires
            sub_time_allowed(self.0, plys),
        ensures
            r.0 == spec_sub_time(self.0, plys),
    {
        if self.0 < -MAX_INCONCLUSIVE {
            Eval(self.0 - plys as i16)
        } else if self.0 > MAX_INCONCLUSIVE {
            Eval(self.0 + plys as i16)
        } else {
            self
        }
    }

    pub fn raw(self) -> (r: i16)
        ensures
            r == self.0,
    {
        self.0
    }

    /// Negation (`-eval`); `i16::MIN` has none.
    pub fn neg(self) -> (r: Self)
        requires
            self.0 != i16::MIN,
        ensures
            r.0 == -self.0,
    {
        Eval(-self.0)
    }

    /// `eval + rhs`, clamped back into the inconclusive range.
    pub fn add(self, rhs: i16) -> (r: Self)
        requires
            i16::MIN <= self.0 + rhs <= i16::MAX,
        ensures
            r.0 == clamp(self.0 + rhs, -MAX_INCONCLUSIVE as int, MAX_INCONCLUSIVE as int),
    {
        Eval::new(self.0 + rhs)
    }

    /// `eval - rhs`, clamped back into the inconclusive range.
    pub fn sub(self, rhs: i16) -> (r: Self)
        requires
            i16::MIN <= self.0 - rhs <= i16::MAX,
        ensures
            r.0 == clamp(self.0 - rhs, -MAX_INCONCLUSIVE as int, MAX_INCONCLUSIVE as int),
    {
        Eval::new(self.0 - rhs)
    }
}

/// How a score is reported to a user interface: a mate in whole moves (negative when
/// being mated) or centipawns.
#[derive(Clone, Copy, Debug, PartialEq, Eq, Structural)]
pub enum UciScore {
    Mate(i16),
    Cp(i16),
}

/// The reported form of a raw score: `p` plies to a conclusion are `(p + sign p) / 2`
/// moves, and an inconclusive score is a fifth of the raw value in centipawns.
pub open spec fn spec_uci_score(v: i16) -> UciScore {
    match spec_plys_to_conclusion(v) {
        Some(p) => UciScore::Mate(trunc_div(p + (if p > 0 { 1int } else if p < 0 { -1int } else { 0int }), 2) as i16),
        None => UciScore::Cp(trunc_div(v as int, 5) as i16),
    }
}

impl Eval {
    /// The score as a user interface shows it.
    pub fn uci_score(self) -> (r: UciScore)
        ensures
            r == spec_uci_score(self.0),
    {
        match self.plys_to_conclusion() {
            Some(p) => {
                let sign: i16 = if p > 0 { 1 } else if p < 0 { -1 } else { 0 };
                UciScore::Mate((p + sign) / 2)
            },
            None => UciScore::Cp(self.0 / 5),
        }
    }
}

/// A mate found `p` plies down the tree reads back as "mate in `p`": adding `p` plies
/// of time to a mate (or tablebase win) on the board gives a score whose distance to
/// conclusion is `p`, and `-p` for the losing side, while `p` stays below the width of
/// a band.
pub proof fn lemma_add_time_gives_distance(p: u16)
    requires
        p < 5000,
    ensures
        spec_plys_to_conclusion(spec_add_time(MATE, p) as i16) == Some(p as i16),
        spec_plys_to_conclusion(spec_add_time(-30000i16, p) as i16) == Some((-(p as i16)) as i16),
        spec_plys_to_conclusion(spec_add_time(TB_WIN, p) as i16) == Some(p as i16),
        spec_plys_to_conclusion(spec_add_time(-25000i16, p) as i16) == Some((-(p as i16)) as i16),
{
}

/// Scores stored with `sub_time` and read back with `add_time` at the same ply are
/// unchanged: the transposition table's way of making mate scores ply-independent.
pub proof fn lemma_sub_then_add_time(v: i16, plys: u16)
    requires
        sub_time_allowed(v, plys),
        plys <= i16::MAX,
    ensures
        add_time_fits(spec_sub_time(v, plys) as i16, plys),
        spec_add_time(spec_sub_time(v, plys) as i16, plys) == v,
{
    assert((plys as i16) == plys as int);
}

/// Negating a score negates its distance to conclusion.
pub proof fn lemma_neg_plys_to_conclusion(v: i16)
    requires
        v != i16::MIN,
    ensures
        spec_plys_to_conclusion((-v) as i16) == (match spec_plys_to_conclusion(v) {
            Some(p) => Some((-p) as i16),
            None => None,
        }),
{
}

/// `Eval::new` never makes a conclusive score.
pub proof fn lemma_new_is_inconclusive(value: i16)
    ensures
        spec_plys_to_conclusion(
            clamp(value as int, -MAX_INCONCLUSIVE as int, MAX_INCONCLUSIVE as int) as i16,
        ) is None,
{
}

/// The kind of a score, in the order used to compare equal-valued scores.
#[derive(Clone, Copy, Debug)]
pub enum InternalEval {
    Real(Eval),
    Repetition(u64),
    Fake(Eval),
}

impl InternalEval {
    /// The score the search sees: repetitions look like draws.
    pub open spec fn spec_apparent(self) -> i16 {
        match self {
            InternalEval::Real(v) => v.0,
            InternalEval::Repetition(_) => 0,
            InternalEval::Fake(v) => v.0,
        }
    }

    /// Tie-break rank of the variant: real, then repetition, then fake.
    pub open spec fn spec_rank(self) -> int {
        match self {
            InternalEval::Real(_) => 0,
            InternalEval::Repetition(_) => 1,
            InternalEval::Fake(_) => 2,
        }
    }

    /// The order of `cmp` as a number: negative, zero or positive.
    pub open spec fn spec_compare(self, rhs: Self) -> int {
        if self.spec_apparent() < rhs.spec_apparent() {
            -1
        } else if self.spec_apparent() > rhs.spec_apparent() {
            1
        } else if self.spec_rank() < rhs.spec_rank() {
            -1
        } else if self.spec_rank() > rhs.spec_rank() {
            1
        } else {
            0
        }
    }

    pub fn apparent_value(&self) -> (r: Eval)
        ensures
            r.0 == self.spec_apparent(),
    {
        match *self {
            InternalEval::Real(v) => v,
            InternalEval::Repetition(_) => Eval(0),
            InternalEval::Fake(v) => v,
        }
    }

    fn rank(&self) -> (r: u8)
        ensures
            r == self.spec_rank(),
    {
        match self {
            InternalEval::Real(_) => 0,
            InternalEval::Repetition(_) => 1,
            InternalEval::Fake(_) => 2,
        }
    }

    /// `From<Eval>`: a real score.
    pub fn from(v: Eval) -> (r: Self)
        ensures
            r == InternalEval::Real(v),
    {
        InternalEval::Real(v)
    }

    /// Compares by apparent value, then real before repetition before fake.
    pub fn cmp(&self, rhs: &Self) -> (r: core::cmp::Ordering)
        ensures
            (r == core::cmp::Ordering::Less) == (self.spec_compare(*rhs) < 0),
            (r == core::cmp::Ordering::Equal) == (self.spec_compare(*rhs) == 0),
            (r == core::cmp::Ordering::Greater) == (self.spec_compare(*rhs) > 0),
    {
        let l = self.apparent_value();
        let r = rhs.apparent_value();
        if l.0 < r.0 {
            core::cmp::Ordering::Less
        } else if l.0 > r.0 {
            core::cmp::Ordering::Greater
        } else {
            let lr = self.rank();
            let rr = rhs.rank();
            if lr < rr {
                core::cmp::Ordering::Less
            } else if lr > rr {
                core::cmp::Ordering::Greater
            } else {
                core::cmp::Ordering::Equal
            }
        }
    }

    /// Negation: real and fake scores are negated, repetitions are kept.
    pub fn neg(self) -> (r: Self)
        requires
            self.spec_apparent() != i16::MIN,
        ensures
            r == (match self {
                InternalEval::Real(v) => InternalEval::Real(Eval((-v.0) as i16)),
                InternalEval::Repetition(h) => InternalEval::Repetition(h),
                InternalEval::Fake(v) => InternalEval::Fake(Eval((-v.0) as i16)),
            }),
    {
        match self {
            InternalEval::Real(v) => InternalEval::Real(v.neg()),
            InternalEval::Repetition(v) => InternalEval::Repetition(v),
            InternalEval::Fake(v) => InternalEval::Fake(v.neg()),
        }
    }
}

impl PartialEq for InternalEval {
    fn eq(&self, other: &Self) -> (r: bool) {
        self.apparent_value().0 == other.apparent_value().0 && self.rank() == other.rank()
    }
}

impl vstd::std_specs::cmp::PartialEqSpecImpl for InternalEval {
    open spec fn obeys_eq_spec() -> bool {
        true
    }

    open spec fn eq_spec(&self, other: &Self) -> bool {
        self.spec_compare(*other) == 0
    }
}

impl Eq for InternalEval {}

/// The comparison of internal evals is a total preorder: it is antisymmetric and
/// transitive, so sorting and `max` on it are well defined.
pub proof fn lemma_internal_eval_order(a: InternalEval, b: InternalEval, c: InternalEval)
    ensures
        a.spec_compare(b) == -b.spec_compare(a),
        a.spec_compare(a) == 0,
        a.spec_compare(b) <= 0 && b.spec_compare(c) <= 0 ==> a.spec_compare(c) <= 0,
{
}

/// Negation turns the order around for real and fake scores of the same kind.
pub proof fn lemma_internal_eval_neg_reverses(a: Eval, b: Eval)
    requires
        a.0 != i16::MIN,
        b.0 != i16::MIN,
    ensures
        InternalEval::Real(Eval((-a.0) as i16)).spec_compare(InternalEval::Real(Eval((-b.0) as i16)))
            == InternalEval::Real(b).spec_compare(InternalEval::Real(a)),
{
}

} // verus!
