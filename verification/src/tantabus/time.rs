//! Time managers of the classical engine. Durations are whole nanoseconds.
use vstd::prelude::*;
use super::search::SearchResult;

verus! {

/// Decides, after each finished iteration of the search, how much longer it may go on.
pub trait TimeManager {
    /// Whether `time` more nanoseconds of searching can still be recorded.
    spec fn can_record(&self, time: u64) -> bool;

    /// Records a new result found after `time` more of searching, and returns how long
    /// the search may go on until the next update before it must stop.
    fn update(&mut self, result: SearchResult, time: u64) -> (r: u64)
        requires
            old(self).can_record(time),
    ;
}

/// Uses a fixed amount of time per move.
pub struct FixedTimeManager {
    pub interval: u64,
    pub elapsed: u64,
}

impl FixedTimeManager {
    pub fn new(interval: u64) -> (r: Self)
        ensures
            r.interval == interval,
            r.elapsed == 0,
    {
        FixedTimeManager { interval, elapsed: 0 }
    }
}

impl TimeManager for FixedTimeManager {
    open spec fn can_record(&self, time: u64) -> bool {
        self.elapsed + time <= u64::MAX
    }

    /// Records `time` more of searching and returns how long the search may go on
    /// before it must stop: what is left of the interval, or zero.
    fn update(&mut self, _result: SearchResult, time: u64) -> (r: u64)
        ensures
            final(self).interval == old(self).interval,
            final(self).elapsed == old(self).elapsed + time,
            r == (if final(self).interval > final(self).elapsed {
                final(self).interval - final(self).elapsed
            } else {
                0
            }),
    {
        self.elapsed = self.elapsed + time;
        if self.interval > self.elapsed {
            self.interval - self.elapsed
        } else {
            0
        }
    }
}

/// Uses a fixed share of the remaining time per move, but at least a minimum.
pub struct PercentageTimeManager(pub FixedTimeManager);

impl PercentageTimeManager {
    /// `budget` is the share of the clock (the caller computes it in floating point
    /// from the remaining time and the percentage); the interval is the larger of it
    /// and `minimum_time`.
    pub fn new(budget: u64, minimum_time: u64) -> (r: Self)
        ensures
            r.0.interval == (if budget >= minimum_time { budget } else { minimum_time }),
            r.0.elapsed == 0,
    {
        PercentageTimeManager(FixedTimeManager::new(if budget >= minimum_time { budget } else { minimum_time }))
    }
}

impl TimeManager for PercentageTimeManager {
    open spec fn can_record(&self, time: u64) -> bool {
        self.0.elapsed + time <= u64::MAX
    }

    fn update(&mut self, result: SearchResult, time: u64) -> (r: u64)
        ensures
            final(self).0.interval == old(self).0.interval,
            final(self).0.elapsed == old(self).0.elapsed + time,
            r == (if final(self).0.interval > final(self).0.elapsed {
                final(self).0.interval - final(self).0.elapsed
            } else {
                0
            }),
    {
        self.0.update(result, time)
    }
}

/// The standard time manager: for now the percentage time manager.
pub struct StandardTimeManager(pub PercentageTimeManager);

impl StandardTimeManager {
    pub fn new(budget: u64, minimum_time: u64) -> (r: Self)
        ensures
            r.0.0.interval == (if budget >= minimum_time { budget } else { minimum_time }),
            r.0.0.elapsed == 0,
    {
        StandardTimeManager(PercentageTimeManager::new(budget, minimum_time))
    }
}

impl TimeManager for StandardTimeManager {
    open spec fn can_record(&self, time: u64) -> bool {
        self.0.0.elapsed + time <= u64::MAX
    }

    fn update(&mut self, result: SearchResult, time: u64) -> (r: u64)
        ensures
            final(self).0.0.interval == old(self).0.0.interval,
            final(self).0.0.elapsed == old(self).0.0.elapsed + time,
            r == (if final(self).0.0.interval > final(self).0.0.elapsed {
                final(self).0.0.interval - final(self).0.0.elapsed
            } else {
                0
            }),
    {
        self.0.update(result, time)
    }
}

/// The time granted never grows: over two updates the second timeout is at most the
/// first, and time already spent is always subtracted in full.
pub proof fn lemma_timeout_shrinks(interval: u64, e1: u64, t: u64)
    requires
        e1 + t <= u64::MAX,
    ensures
        ({
            let r1 = if interval > e1 { interval - e1 } else { 0 };
            let r2 = if interval > e1 + t { interval - (e1 + t) } else { 0 };
            &&& r2 <= r1
            &&& r1 > 0 ==> r2 + t >= r1
        }),
{
}

} // verus!
