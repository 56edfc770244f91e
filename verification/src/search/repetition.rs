//! Repetition detection: the hashes of the positions on the path from the game's
//! start, with a table of per-bucket counters that rules most lookups out quickly.
use vstd::prelude::*;

verus! {

/// Number of counter buckets.
pub const REP_BUCKETS: usize = 1024;

/// The bucket of a hash.
pub open spec fn bucket(h: u64) -> int {
    (h % 1024) as int
}

/// How many hashes of `list` fall into bucket `b`.
pub open spec fn bucket_count(list: Seq<u64>, b: int) -> nat
    decreases list.len(),
{
    if list.len() == 0 {
        0
    } else {
        bucket_count(list.drop_last(), b) + if bucket(list.last()) == b { 1nat } else { 0nat }
    }
}

/// The position with hash `h` occurred earlier on the path, within the `halfmove_clock`
/// most recent entries and not as the most recent one.
pub open spec fn spec_seen(list: Seq<u64>, h: u64, halfmove_clock: u8) -> bool {
    exists|k: int| 1 <= k < halfmove_clock && k < list.len() && #[trigger] list[list.len() - 1 - k] == h
}

/// The hashes on the path, oldest first, and their bucket counters.
pub struct Repetitions {
    list: Vec<u64>,
    table: Vec<u8>,
}

impl Repetitions {
    pub closed spec fn view(&self) -> Seq<u64> {
        self.list@
    }

    /// The counter of bucket `b`.
    pub closed spec fn counter(&self, b: int) -> u8 {
        self.table@[b]
    }

    /// Each counter holds its bucket's count, modulo 256 (the counters are bytes).
    pub closed spec fn wf(&self) -> bool {
        &&& self.table@.len() == REP_BUCKETS
        &&& forall|b: int| 0 <= b < REP_BUCKETS ==> #[trigger] self.table@[b] == bucket_count(self.list@, b) % 256
    }

    /// The counters describe the list.
    pub proof fn lemma_counters(&self, b: int)
        requires
            self.wf(),
            0 <= b < REP_BUCKETS,
        ensures
            self.counter(b) == bucket_count(self.view(), b) % 256,
    {
    }

    /// Starts from the hashes of the game so far.
    pub fn new(prehistory: &Vec<u64>) -> (r: Self)
        ensures
            r.wf(),
            r.view() == prehistory@,
    {
        let mut r = Repetitions { list: Vec::new(), table: Vec::new() };
        while r.table.len() < REP_BUCKETS
            invariant
                r.table@.len() <= REP_BUCKETS,
                r.list@.len() == 0,
                forall|b: int| 0 <= b < r.table@.len() ==> r.table@[b] == 0,
            decreases REP_BUCKETS - r.table.len(),
        {
            r.table.push(0);
        }
        let mut i: usize = 0;
        while i < prehistory.len()
            invariant
                i <= prehistory.len(),
                r.wf(),
                r.view() == prehistory@.take(i as int),
            decreases prehistory.len() - i,
        {
            r.push(prehistory[i]);
            assert(prehistory@.take(i + 1) =~= prehistory@.take(i as int).push(prehistory[i as int]));
            i = i + 1;
        }
        assert(prehistory@.take(i as int) =~= prehistory@);
        r
    }

    /// Records a position entered by the search.
    pub fn push(&mut self, h: u64)
        requires
            old(self).wf(),
        ensures
            final(self).wf(),
            final(self).view() == old(self).view().push(h),
    {
        let b = (h % 1024) as usize;
        let c = self.table[b];
        self.table.set(b, if c == 255 { 0 } else { c + 1 });
        self.list.push(h);
        proof {
            assert forall|x: int| 0 <= x < REP_BUCKETS implies #[trigger] self.table@[x] == bucket_count(self.list@, x) % 256 by {
                assert(self.list@.drop_last() =~= old(self).list@);
                assert(old(self).table@[x] == bucket_count(old(self).list@, x) % 256);
            }
        }
    }

    /// Forgets the most recent position.
    pub fn pop(&mut self)
        requires
            old(self).wf(),
            old(self).view().len() > 0,
        ensures
            final(self).wf(),
            final(self).view() == old(self).view().drop_last(),
    {
        let h = self.list.pop().unwrap();
        let b = (h % 1024) as usize;
        let c = self.table[b];
        self.table.set(b, if c == 0 { 255 } else { c - 1 });
        proof {
            assert forall|x: int| 0 <= x < REP_BUCKETS implies #[trigger] self.table@[x] == bucket_count(self.list@, x) % 256 by {
                assert(old(self).list@.drop_last() =~= self.list@);
                assert(old(self).table@[x] == bucket_count(old(self).list@, x) % 256);
            }
        }
    }

    /// Whether a position with hash `h` repeats one of the `halfmove_clock` most recent
    /// positions (the most recent excluded); a zero counter answers no at once.
    pub fn is_repetition(&self, h: u64, halfmove_clock: u8) -> (r: bool)
        requires
            self.wf(),
        ensures
            r == (self.counter(bucket(h)) != 0 && spec_seen(self.view(), h, halfmove_clock)),
    {
        if self.table[(h % 1024) as usize] == 0 {
            return false;
        }
        let n = self.list.len();
        let mut k: usize = 1;
        while k < halfmove_clock as usize && k < n
            invariant
                n == self.list@.len(),
                self.table@[bucket(h)] != 0,
                1 <= k,
                forall|j: int| 1 <= j < k ==> #[trigger] self.list@[n - 1 - j] != h,
            decreases n - k,
        {
            if self.list[n - 1 - k] == h {
                assert(self.list@[self.list@.len() - 1 - k as int] == h);
                return true;
            }
            k = k + 1;
        }
        proof {
            assert forall|j: int| 1 <= j < halfmove_clock && j < self.list@.len() implies #[trigger] self.list@[self.list@.len() - 1 - j] != h by {
                assert(j < k);
            }
        }
        false
    }
}

proof fn lemma_count_le_len(list: Seq<u64>, b: int)
    ensures
        bucket_count(list, b) <= list.len(),
    decreases list.len(),
{
    if list.len() > 0 {
        lemma_count_le_len(list.drop_last(), b);
    }
}

proof fn lemma_count_pos(list: Seq<u64>, i: int)
    requires
        0 <= i < list.len(),
    ensures
        bucket_count(list, bucket(list[i])) >= 1,
    decreases list.len(),
{
    if i < list.len() - 1 {
        lemma_count_pos(list.drop_last(), i);
    }
}

/// While the path is shorter than 256 positions no counter wraps, so the quick check
/// never hides a repetition: the answer is exactly whether the position occurred.
pub proof fn lemma_repetition_exact(reps: Repetitions, h: u64, halfmove_clock: u8)
    requires
        reps.wf(),
        reps.view().len() < 256,
    ensures
        (reps.counter(bucket(h)) != 0 && spec_seen(reps.view(), h, halfmove_clock)) == spec_seen(
            reps.view(),
            h,
            halfmove_clock,
        ),
{
    let list = reps.view();
    if spec_seen(list, h, halfmove_clock) {
        let k = choose|k: int| 1 <= k < halfmove_clock && k < list.len() && #[trigger] list[list.len() - 1 - k] == h;
        lemma_count_pos(list, list.len() - 1 - k);
        lemma_count_le_len(list, bucket(h));
        reps.lemma_counters(bucket(h));
    }
}

} // verus!
