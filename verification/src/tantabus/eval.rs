use vstd::prelude::*;

verus! {

/// Score of the classical engine, in centipawns, or encoding a distance to mate.
///
/// Scores at or above `mate_in(255)` encode "mate in n plies", scores at or below
/// `mated_in(255)` encode "mated in n plies"; everything in between is a centipawn value.
#[derive(Debug, Clone, Copy, PartialEq, Eq, Structural, Hash, Default)]
pub struct Eval(pub i16);

#[derive(Debug, Clone, Copy, PartialEq, Eq, Structural, Hash)]
pub enum EvalKind {
    Centipawn(i16),
    MateIn(u8),
    MatedIn(u8),
}

/// Raw score of "mate on the board" (mate in zero plies).
pub const MATE_IN_ZERO: i16 = 32667;
/// Smallest raw score that still reads as a mate score (mate in 255 plies).
pub const MAX_MATE_IN: i16 = 32412;

pub open spec fn spec_mate_in(plies: u8) -> i16 {
    (MATE_IN_ZERO - plies) as i16
}

pub open spec fn spec_mated_in(plies: u8) -> i16 {
    (-(MATE_IN_ZERO - plies)) as i16
}

/// What `Eval::kind` reads out of a raw score.
pub open spec fn spec_kind(v: i16) -> EvalKind {
    if v >= MAX_MATE_IN {
        EvalKind::MateIn((MATE_IN_ZERO - v) as u8)
    } else if v <= -MAX_MATE_IN {
        EvalKind::MatedIn((v + MATE_IN_ZERO) as u8)
    } else {
        EvalKind::Centipawn(v)
    }
}

/// Saturating arithmetic clamps into the open range between the mate bands.
pub open spec fn spec_clamp_inconclusive(v: int) -> i16 {
    if v < -MAX_MATE_IN + 1 {
        (-MAX_MATE_IN + 1) as i16
    } else if v > MAX_MATE_IN - 1 {
        (MAX_MATE_IN - 1) as i16
    } else {
        v as i16
    }
}

/// `v` after saturation to the `i16` range.
pub open spec fn spec_saturate_i16(v: int) -> int {
    if v < i16::MIN { i16::MIN as int } else if v > i16::MAX { i16::MAX as int } else { v }
}

impl Eval {
    /// The zero score (`Eval::ZERO`, also `Eval::DRAW`).
    pub fn zero() -> (r: Self)
        ensures r.0 == 0,
    {
        Eval(0)
    }

    /// The largest score (`Eval::MAX`).
    pub fn max_eval() -> (r: Self)
        ensures r.0 == i16::MAX,
    {
        Eval(32767)
    }

    /// The smallest score, the negation of the largest (`Eval::MIN`).
    pub fn min_eval() -> (r: Self)
        ensures r.0 == -i16::MAX,
    {
        Eval(-32767)
    }

    /// One centipawn (`Eval::UNIT`).
    pub fn unit() -> (r: Self)
        ensures r.0 == 1,
    {
        Eval(1)
    }

    pub fn cp(centipawns: i16) -> (r: Self)
        ensures
            r.0 == centipawns,
    {
        Eval(centipawns)
    }

    pub fn mate_in(plies_to_mate: u8) -> (r: Self)
        ensures
            r.0 == spec_mate_in(plies_to_mate),
    {
        Eval(MATE_IN_ZERO - plies_to_mate as i16)
    }

    pub fn mated_in(plies_to_mate: u8) -> (r: Self)
        ensures
            r.0 == spec_mated_in(plies_to_mate),
    {
        Eval(-(MATE_IN_ZERO - plies_to_mate as i16))
    }

    pub fn kind(self) -> (r: EvalKind)
        ensures
            r == spec_kind(self.0),
    {
        let v = self.0;
        if v >= MAX_MATE_IN {
            EvalKind::MateIn((MATE_IN_ZERO - v) as u8)
        } else if v <= -MAX_MATE_IN {
            EvalKind::MatedIn((v + MATE_IN_ZERO) as u8)
        } else {
            EvalKind::Centipawn(v)
        }
    }

    pub fn as_cp(self) -> (r: Option<i16>)
        ensures
            r == (if -MAX_MATE_IN < self.0 < MAX_MATE_IN { Some(self.0) } else { None::<i16> }),
    {
        match self.kind() {
            EvalKind::Centipawn(cp) => Some(cp),
            _ => None,
        }
    }

    /// Negation; `i16::MIN` has no negation and is left out.
    pub fn neg(self) -> (r: Self)
        requires
            self.0 != i16::MIN,
        ensures
            r.0 == -self.0,
    {
        Eval(-self.0)
    }

    pub fn saturating_add(self, other: Self) -> (r: Self)
        ensures
            r.0 == spec_clamp_inconclusive(spec_saturate_i16(self.0 + other.0)),
    {
        let sum: i32 = self.0 as i32 + other.0 as i32;
        let sat: i32 = if sum < -32768 { -32768 } else if sum > 32767 { 32767 } else { sum };
        Eval(clamp_inconclusive(sat))
    }

    pub fn saturating_sub(self, other: Self) -> (r: Self)
        ensures
            r.0 == spec_clamp_inconclusive(spec_saturate_i16(self.0 - other.0)),
    {
        let diff: i32 = self.0 as i32 - other.0 as i32;
        let sat: i32 = if diff < -32768 { -32768 } else if diff > 32767 { 32767 } else { diff };
        Eval(clamp_inconclusive(sat))
    }

    pub fn saturating_mul(self, other: Self) -> (r: Self)
        ensures
            r.0 == spec_clamp_inconclusive(spec_saturate_i16(self.0 * other.0)),
    {
        assert(-32768 * 32768 <= self.0 * other.0 <= 32768 * 32768) by (nonlinear_arith)
            requires -32768 <= self.0 <= 32767, -32768 <= other.0 <= 32767;
        let prod: i64 = self.0 as i64 * other.0 as i64;
        let sat: i64 = if prod < -32768 { -32768 } else if prod > 32767 { 32767 } else { prod };
        Eval(clamp_inconclusive(sat as i32))
    }
}

fn clamp_inconclusive(v: i32) -> (r: i16)
    ensures
        r == spec_clamp_inconclusive(v as int),
{
    if v < -MAX_MATE_IN as i32 + 1 {
        -MAX_MATE_IN + 1
    } else if v > MAX_MATE_IN as i32 - 1 {
        MAX_MATE_IN - 1
    } else {
        v as i16
    }
}

/// A mate distance survives the trip through the raw score: reading back the kind
/// of `mate_in(p)` gives `MateIn(p)`, of `mated_in(p)` gives `MatedIn(p)`, and a
/// centipawn value strictly between the mate bands reads back as itself.
pub proof fn lemma_kind_round_trip(plies: u8, centipawns: i16)
    ensures
        spec_kind(spec_mate_in(plies)) == EvalKind::MateIn(plies),
        spec_kind(spec_mated_in(plies)) == EvalKind::MatedIn(plies),
        -MAX_MATE_IN < centipawns < MAX_MATE_IN ==> spec_kind(centipawns) == EvalKind::Centipawn(
            centipawns,
        ),
{
}

/// Being mated in `p` plies is the negation of mating in `p` plies.
pub proof fn lemma_mated_is_negated_mate(plies: u8)
    ensures
        spec_mated_in(plies) == -spec_mate_in(plies),
{
}

/// Saturating arithmetic never produces a mate score.
pub proof fn lemma_saturating_is_inconclusive(v: int)
    ensures
        spec_kind(spec_clamp_inconclusive(v)) == EvalKind::Centipawn(spec_clamp_inconclusive(v)),
{
}

// ---------------------------------------------------------------------------
// Text
// ---------------------------------------------------------------------------

/// The decimal digits of `n`, most significant first.
pub open spec fn spec_decimal(n: nat) -> Seq<char>
    decreases n,
{
    if n < 10 {
        seq![(48 + n) as char]
    } else {
        spec_decimal(n / 10).push((48 + n % 10) as char)
    }
}

/// How a score is written: centipawns as pawns, a dot and the remaining centipawns
/// (written without padding, so 5 centipawns read "0.5"), and mates as `M` or `-M`
/// followed by the number of moves (plies rounded up to whole moves).
pub open spec fn spec_kind_text(kind: EvalKind) -> Seq<char> {
    match kind {
        EvalKind::Centipawn(cp) => {
            let magnitude: nat = if cp < 0 { (-cp) as nat } else { cp as nat };
            (if cp < 0 { seq!['-'] } else { Seq::empty() }) + spec_decimal(magnitude / 100) + seq!['.']
                + spec_decimal(magnitude % 100)
        },
        EvalKind::MateIn(m) => seq!['M'] + spec_decimal(((m + 1) / 2) as nat),
        EvalKind::MatedIn(m) => seq!['-', 'M'] + spec_decimal(((m + 1) / 2) as nat),
    }
}

/// Calls `String::push`: appends one character.
#[verifier::external_body]
fn push_char(s: &mut String, c: char)
    ensures
        final(s)@ == old(s)@.push(c),
{
    s.push(c)
}

/// Appends the decimal digits of `n`.
fn push_decimal(s: &mut String, n: u32)
    ensures
        final(s)@ == old(s)@ + spec_decimal(n as nat),
    decreases n,
{
    if n >= 10 {
        push_decimal(s, n / 10);
    }
    let digit = (n % 10) as u8;
    push_char(s, (48u8 + digit) as char);
    proof {
        if n >= 10 {
            assert(spec_decimal(n as nat) == spec_decimal((n / 10) as nat).push((48 + n % 10) as char));
        }
        assert(s@ =~= old(s)@ + spec_decimal(n as nat));
    }
}

impl EvalKind {
    /// The score as text.
    pub fn to_string(&self) -> (r: String)
        requires
            *self matches EvalKind::Centipawn(cp) ==> cp != i16::MIN,
        ensures
            r@ == spec_kind_text(*self),
    {
        let mut s = String::new();
        match *self {
            EvalKind::Centipawn(cp) => {
                if cp < 0 {
                    push_char(&mut s, '-');
                }
                let magnitude: u32 = if cp < 0 { (-cp) as u32 } else { cp as u32 };
                push_decimal(&mut s, magnitude / 100);
                push_char(&mut s, '.');
                push_decimal(&mut s, magnitude % 100);
            },
            EvalKind::MateIn(m) => {
                push_char(&mut s, 'M');
                push_decimal(&mut s, (m as u32 + 1) / 2);
            },
            EvalKind::MatedIn(m) => {
                push_char(&mut s, '-');
                push_char(&mut s, 'M');
                push_decimal(&mut s, (m as u32 + 1) / 2);
            },
        }
        proof {
            assert(s@ =~= spec_kind_text(*self));
        }
        s
    }
}

impl Eval {
    /// The score as text: the text of its kind.
    pub fn to_string(&self) -> (r: String)
        ensures
            r@ == spec_kind_text(spec_kind(self.0)),
    {
        self.kind().to_string()
    }
}

} // verus!
