//! Which annotated positions a data set keeps.
use vstd::prelude::*;
use crate::gendata::spec_extra;

verus! {

/// What the filter removes: positions whose best move captures, that are in check,
/// or whose best move gives check (each when asked), and positions whose score is at
/// least the threshold (in centipawns, a fifth of the raw score) away from even.
pub struct Options {
    pub filter_eval: Option<i16>,
    pub filter_capture: bool,
    pub filter_in_check: bool,
    pub filter_give_check: bool,
}

impl Options {
    /// The threshold's raw score and the score's magnitude stay within `i16`.
    pub open spec fn applicable(&self, eval: i16) -> bool {
        self.filter_eval matches Some(t) ==> eval != i16::MIN && i16::MIN <= t * 5 <= i16::MAX
    }

    pub open spec fn spec_keep(&self, eval: i16, extra: u8) -> bool {
        if self.filter_capture && extra & 1 != 0 {
            false
        } else if self.filter_in_check && extra & 2 != 0 {
            false
        } else if self.filter_give_check && extra & 4 != 0 {
            false
        } else {
            match self.filter_eval {
                Some(t) => !((if eval < 0 { -eval } else { eval as int }) >= t * 5),
                None => true,
            }
        }
    }

    /// Whether an annotated position stays in the data set.
    pub fn keep(&self, eval: i16, extra: u8) -> (r: bool)
        requires
            self.applicable(eval),
        ensures
            r == self.spec_keep(eval, extra),
    {
        if self.filter_capture && extra & 1 != 0 {
            false
        } else if self.filter_in_check && extra & 2 != 0 {
            false
        } else if self.filter_give_check && extra & 4 != 0 {
            false
        } else {
            match self.filter_eval {
                Some(t) => {
                    let magnitude = if eval < 0 { -eval } else { eval };
                    !(magnitude >= t * 5)
                },
                None => true,
            }
        }
    }
}


/// The low three bits of a flags byte, read one at a time.
proof fn lemma_flag_bits(x: u8)
    by (bit_vector)
    requires
        x < 8,
    ensures
        (x & 1 != 0) == (x % 2 == 1),
        (x & 2 != 0) == ((x / 2) % 2 == 1),
        (x & 4 != 0) == (x >= 4),
{
}

/// With in-check filtering the only filter asked for, a position is dropped exactly when
/// bit 1 of its flags (the side to move is in check) is set, whatever the other bits
/// and the score.
pub proof fn law_in_check_filter_reads_bit_one(eval: i16, extra: u8)
    ensures
        (Options {
            filter_eval: None,
            filter_capture: false,
            filter_in_check: true,
            filter_give_check: false,
        }).spec_keep(eval, extra) == (extra & 2 == 0),
{
}

/// Each filter drops exactly the positions that annotation marks with its own flag: a
/// position annotated as capturing, in check and giving check (each a yes or a no) is
/// kept exactly when no asked-for filter matches one of its marks and its score is
/// within the threshold.
pub proof fn law_filters_match_annotation_flags(
    opts: Options,
    eval: i16,
    capture: bool,
    in_check: bool,
    gives_check: bool,
)
    ensures
        opts.spec_keep(eval, spec_extra(capture, in_check, gives_check)) == (
            !(opts.filter_capture && capture)
            && !(opts.filter_in_check && in_check)
            && !(opts.filter_give_check && gives_check)
            && match opts.filter_eval {
                Some(t) => (if eval < 0 { -eval } else { eval as int }) < t * 5,
                None => true,
            }),
{
    let x = spec_extra(capture, in_check, gives_check);
    assert(x as int == (if capture { 1int } else { 0int }) + (if in_check { 2int } else { 0int })
        + (if gives_check { 4int } else { 0int }));
    lemma_flag_bits(x);
}

} // verus!
