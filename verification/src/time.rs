//! Time management of the NNUE engine. Durations and instants are whole nanoseconds;
//! instants count from the start of the search.
use vstd::prelude::*;
use core::ops::ControlFlow;
use crate::chess::{ChessMove, board_legal_moves, spec_board_legal_moves, spec_invalid_move};
use crate::eval::Eval;

verus! {

/// One millisecond.
pub const MILLISECOND: u64 = 1_000_000;

/// Limits of a search.
#[derive(Copy, Clone, Debug)]
pub struct TimeConstraint {
    pub nodes: u64,
    pub depth: i16,
    pub clock: Option<u64>,
    pub increment: u64,
    pub overhead: u64,
    pub moves_to_go: Option<u32>,
    pub use_all_time: bool,
}

impl TimeConstraint {
    /// No limit at all (`TimeConstraint::INFINITE`).
    pub fn infinite() -> (r: TimeConstraint)
        ensures
            r.nodes == u64::MAX,
            r.depth == i16::MAX,
            r.clock is None,
            r.increment == 0,
            r.overhead == 0,
            r.moves_to_go is None,
            r.use_all_time,
    {
        TimeConstraint {
            nodes: u64::MAX,
            depth: i16::MAX,
            clock: None,
            increment: 0,
            overhead: 0,
            moves_to_go: None,
            use_all_time: true,
        }
    }
}

/// What the search reports after each completed iteration.
#[derive(Clone, Debug)]
pub struct SearchInfo {
    pub eval: Eval,
    pub nodes: u64,
    pub depth: i16,
    pub selective_depth: i16,
    pub best_move: ChessMove,
    pub pv: Vec<ChessMove>,
}

/// When to stop between iterations: early while the best move stays the same, later
/// when it changes.
#[derive(Copy, Clone, Debug)]
pub struct SoftDeadlines {
    pub consistent: u64,
    pub inconsistent: u64,
}

pub struct TimeManager {
    pub hard_deadline: Option<u64>,
    pub soft_deadline: Option<SoftDeadlines>,
    pub consistent_move: Option<ChessMove>,
    pub one_reply: bool,
}

/// `a - b`, or zero.
pub open spec fn sat_sub(a: u64, b: u64) -> u64 {
    if a > b { (a - b) as u64 } else { 0 }
}

/// Moves to go, with a margin of five.
pub open spec fn spec_mtg(time: TimeConstraint) -> int {
    match time.moves_to_go {
        Some(m) => m + 5,
        None => 50,
    }
}

/// A soft deadline: the budget less the overhead, but at least a millisecond.
pub open spec fn spec_adjust(d: int, overhead: u64) -> int {
    let s = if d > overhead { d - overhead } else { 0 };
    if s > MILLISECOND { s } else { MILLISECOND as int }
}

pub open spec fn spec_consistent(clock: u64, time: TimeConstraint) -> int {
    (sat_sub(clock, time.increment) as int) * 2 / (spec_mtg(time) * 2) + time.increment as int / 2
}

pub open spec fn spec_inconsistent(clock: u64, time: TimeConstraint) -> int {
    (sat_sub(clock, time.increment) as int) * 3 / (spec_mtg(time) * 2) + time.increment as int / 2
}

/// The time arithmetic stays within its types (`moves_to_go + 5` and its
/// double fit in `u32`, the budgets fit in a duration).
pub open spec fn time_fits(time: TimeConstraint) -> bool {
    &&& spec_mtg(time) * 2 <= u32::MAX
    &&& (time.clock matches Some(c) ==> sat_sub(c, time.increment) * 3 <= u64::MAX
        && spec_inconsistent(c, time) <= u64::MAX)
}

impl TimeManager {
    /// Plans the search. With `use_all_time` the whole clock (less overhead) is the
    /// hard deadline; otherwise half of it is, and the soft deadlines spread the clock
    /// over the moves to go (45 by default) with part of the increment: a consistent best
    /// move gets at least 2% of the clock plus half the increment. A position with
    /// a single legal move stops after the first iteration when a clock is set.
    pub fn new(board: &cozy_chess::Board, time: TimeConstraint) -> (r: Self)
        requires
            time_fits(time),
        ensures
            r.consistent_move is None,
            time.use_all_time ==> r.one_reply == false && r.soft_deadline is None
                && r.hard_deadline == (match time.clock {
                Some(c) => Some(sat_sub(c, time.overhead)),
                None => None,
            }),
            !time.use_all_time ==> r.one_reply == (time.clock is Some && spec_board_legal_moves(*board).len() == 1)
                && r.hard_deadline == (match time.clock {
                Some(c) => Some(sat_sub(c / 2, time.overhead)),
                None => None,
            }) && (match time.clock {
                Some(c) => r.soft_deadline matches Some(d)
                    && d.consistent == spec_adjust(spec_consistent(c, time), time.overhead)
                    && d.inconsistent == spec_adjust(spec_inconsistent(c, time), time.overhead),
                None => r.soft_deadline is None,
            }),
    {
        if time.use_all_time {
            let hard = match time.clock {
                Some(clock) => Some(saturating_sub(clock, time.overhead)),
                None => None,
            };
            TimeManager { one_reply: false, hard_deadline: hard, soft_deadline: None, consistent_move: None }
        } else {
            let mtg: u32 = match time.moves_to_go {
                Some(m) => m + 5,
                None => 50,
            };
            let one = match time.clock {
                Some(_) => one_reply(board),
                None => false,
            };
            match time.clock {
                Some(clock) => {
                    let noinc = saturating_sub(clock, time.increment);
                    let consistent = noinc * 2 / (mtg as u64 * 2) + time.increment / 2;
                    let inconsistent = noinc * 3 / (mtg as u64 * 2) + time.increment / 2;
                    TimeManager {
                        one_reply: one,
                        hard_deadline: Some(saturating_sub(clock / 2, time.overhead)),
                        soft_deadline: Some(SoftDeadlines {
                            consistent: adjust(consistent, time.overhead),
                            inconsistent: adjust(inconsistent, time.overhead),
                        }),
                        consistent_move: None,
                    }
                },
                None => TimeManager { one_reply: one, hard_deadline: None, soft_deadline: None, consistent_move: None },
            }
        }
    }

    pub fn deadline(&self) -> (r: Option<u64>)
        ensures
            r == self.hard_deadline,
    {
        self.hard_deadline
    }

    /// Decides after an iteration, `now` nanoseconds into the search, whether to go
    /// on. The first best move seen is the consistent one; once another appears, the
    /// best move no longer counts as consistent.
    pub fn update(&mut self, info: &SearchInfo, now: u64) -> (r: ControlFlow<()>)
        ensures
            final(self).hard_deadline == old(self).hard_deadline,
            final(self).soft_deadline == old(self).soft_deadline,
            final(self).one_reply == old(self).one_reply,
            final(self).consistent_move == (match old(self).consistent_move {
                None => Some(info.best_move),
                Some(m) => if m == info.best_move { Some(m) } else { Some(spec_invalid_move()) },
            }),
            r == (if old(self).one_reply {
                ControlFlow::Break(())
            } else {
                match old(self).soft_deadline {
                    None => ControlFlow::Continue(()),
                    Some(d) => {
                        let deadline = if final(self).consistent_move == Some(info.best_move) {
                            d.consistent
                        } else {
                            d.inconsistent
                        };
                        if now < deadline { ControlFlow::Continue(()) } else { ControlFlow::Break(()) }
                    },
                }
            }),
    {
        match self.consistent_move {
            None => {
                self.consistent_move = Some(info.best_move);
            },
            Some(m) => {
                if m != info.best_move {
                    self.consistent_move = Some(crate::chess::invalid_move());
                }
            },
        }
        if self.one_reply {
            return ControlFlow::Break(());
        }
        match self.soft_deadline {
            None => ControlFlow::Continue(()),
            Some(deadlines) => {
                let consistent = match self.consistent_move {
                    Some(m) => m == info.best_move,
                    None => false,
                };
                let deadline = if consistent { deadlines.consistent } else { deadlines.inconsistent };
                if now < deadline {
                    ControlFlow::Continue(())
                } else {
                    ControlFlow::Break(())
                }
            },
        }
    }
}

fn saturating_sub(a: u64, b: u64) -> (r: u64)
    ensures
        r == sat_sub(a, b),
{
    if a > b { a - b } else { 0 }
}

fn adjust(d: u64, overhead: u64) -> (r: u64)
    ensures
        r == spec_adjust(d as int, overhead),
{
    let s = saturating_sub(d, overhead);
    if s > MILLISECOND { s } else { MILLISECOND }
}

/// Whether the side to move has exactly one legal move.
pub fn one_reply(board: &cozy_chess::Board) -> (r: bool)
    ensures
        r == (spec_board_legal_moves(*board).len() == 1),
{
    board_legal_moves(board).len() == 1
}

/// A consistent best move is given less time than a changing one, and every soft
/// deadline leaves at least a millisecond.
pub proof fn lemma_consistent_before_inconsistent(clock: u64, time: TimeConstraint)
    requires
        time_fits(time),
    ensures
        spec_consistent(clock, time) <= spec_inconsistent(clock, time),
        spec_adjust(spec_consistent(clock, time), time.overhead) <= spec_adjust(spec_inconsistent(clock, time), time.overhead),
        spec_adjust(spec_consistent(clock, time), time.overhead) >= MILLISECOND,
{
    let n = sat_sub(clock, time.increment) as int;
    let m = spec_mtg(time) * 2;
    assert(m > 0);
    assert(n >= 0);
    vstd::arithmetic::div_mod::lemma_div_is_ordered(n * 2, n * 3, m);
}

/// With the default moves to go, a consistent best move still gets at least 2% of the
/// clock (less the increment) plus half the increment before the soft deadline.
pub proof fn lemma_consistent_share(clock: u64, time: TimeConstraint)
    requires
        time.moves_to_go is None,
    ensures
        spec_consistent(clock, time) == (sat_sub(clock, time.increment) as int) * 2 / 100
            + time.increment as int / 2,
{
}

} // verus!
