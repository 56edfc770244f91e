//! Search parameters and the fixed-point formulas built on them.
use vstd::prelude::*;
use crate::arith::trunc_div;

pub mod fixed;
pub mod tweakable;

verus! {

/// Minimum depth for null move pruning.
pub const NMP_MIN_DEPTH: i16 = 1;
/// Per-mille growth of the null move reduction with depth.
pub const NMP_DEPTH_FACTOR: i16 = 333;
/// Base null move reduction.
pub const NMP_BASE_REDUCTION: i16 = 1;
/// Per-mille late move reduction per move index.
pub const LMR_MOVE_FACTOR: i16 = 100;
/// Per-mille late move reduction per ply of depth.
pub const LMR_DEPTH_FACTOR: i16 = 70;
/// Deepest node at which reverse futility pruning applies.
pub const RFP_MAX_DEPTH: i16 = 3;
/// Reverse futility margin per ply.
pub const RFP_MARGIN: i16 = 350;
/// Delta pruning margin of the quiescence search.
pub const DELTA_PRUNING_MARGIN: i16 = 1000;

/// Multiplication by a per-mille factor: `a * b / 1000`, rounded toward zero and
/// truncated to `i16`.
pub open spec fn spec_fp_mul(a: i16, b: i16) -> i16 {
    trunc_div(a * b, 1000) as i16
}

/// The late move reduction before adjustments, in plies.
pub open spec fn spec_base_lmr(i: int, depth: i16) -> i16 {
    trunc_div(i * LMR_MOVE_FACTOR + depth * LMR_DEPTH_FACTOR, 1000) as i16
}

pub fn fp_mul(a: i16, b: i16) -> (r: i16)
    ensures
        r == spec_fp_mul(a, b),
{
    assert(-32768 * 32768 <= a * b <= 32768 * 32768) by (nonlinear_arith)
        requires -32768 <= a <= 32767, -32768 <= b <= 32767;
    (a as i32 * b as i32 / 1000) as i16
}

/// The formula is computed in `i32`, so the move index must keep it there.
pub fn base_lmr(i: usize, depth: i16) -> (r: i16)
    requires
        i * LMR_MOVE_FACTOR + depth * LMR_DEPTH_FACTOR <= i32::MAX,
        i * LMR_MOVE_FACTOR <= i32::MAX,
    ensures
        r == spec_base_lmr(i as int, depth),
{
    let base: i32 = i as i32 * LMR_MOVE_FACTOR as i32 + depth as i32 * LMR_DEPTH_FACTOR as i32;
    (base / 1000) as i16
}

/// Every tunable parameter with its range and default, in declaration order
/// (`all_parameters`).
pub fn all_parameters() -> (r: Vec<tweakable::Parameter>)
    ensures
        r.len() == 8,
        forall|i: int| 0 <= i < r.len() ==> (#[trigger] r[i]).wf(),
        r[0].value == NMP_MIN_DEPTH && r[1].value == NMP_DEPTH_FACTOR,
        r[2].value == NMP_BASE_REDUCTION && r[3].value == LMR_MOVE_FACTOR,
        r[4].value == LMR_DEPTH_FACTOR && r[5].value == RFP_MAX_DEPTH,
        r[6].value == RFP_MARGIN && r[7].value == DELTA_PRUNING_MARGIN,
{
    let mut v = Vec::new();
    v.push(tweakable::Parameter::new("NMP_MIN_DEPTH", 1, 20, NMP_MIN_DEPTH));
    v.push(tweakable::Parameter::new("NMP_DEPTH_FACTOR", 0, 1000, NMP_DEPTH_FACTOR));
    v.push(tweakable::Parameter::new("NMP_BASE_REDUCTION", 0, 20, NMP_BASE_REDUCTION));
    v.push(tweakable::Parameter::new("LMR_MOVE_FACTOR", 0, 2000, LMR_MOVE_FACTOR));
    v.push(tweakable::Parameter::new("LMR_DEPTH_FACTOR", 0, 2000, LMR_DEPTH_FACTOR));
    v.push(tweakable::Parameter::new("RFP_MAX_DEPTH", 0, 10, RFP_MAX_DEPTH));
    v.push(tweakable::Parameter::new("RFP_MARGIN", 1, 1000, RFP_MARGIN));
    v.push(tweakable::Parameter::new("DELTA_PRUNING_MARGIN", 0, 10000, DELTA_PRUNING_MARGIN));
    v
}

/// Late move reductions grow with both the move index and the depth.
pub proof fn lemma_base_lmr_monotone(i: int, j: int, d: i16, e: i16)
    requires
        0 <= i <= j,
        0 <= d <= e,
        j * 100 + e * 70 <= i16::MAX * 1000,
    ensures
        spec_base_lmr(i, d) <= spec_base_lmr(j, e),
        spec_base_lmr(i, d) >= 0,
{
    let a = i * 100 + d * 70;
    let b = j * 100 + e * 70;
    assert(0 <= a <= b);
    vstd::arithmetic::div_mod::lemma_div_is_ordered(a, b, 1000);
    vstd::arithmetic::div_mod::lemma_div_pos_is_pos(a, 1000);
    vstd::arithmetic::div_mod::lemma_div_is_ordered(b, i16::MAX * 1000, 1000);
    assert(i16::MAX * 1000 / 1000 == i16::MAX);
}

} // verus!
