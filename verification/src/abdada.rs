//! ABDADA: a table of counters telling parallel searchers which positions another
//! thread is busy with, so that they can defer those moves.
use vstd::prelude::*;

verus! {

/// Number of counters in the table.
pub const ABDADA_ENTRIES: usize = 65536;

pub struct AbdadaTable {
    entries: Vec<u8>,
}

/// Marks one visit of a position; give it back to `AbdadaTable::leave` when done.
pub struct AbdadaGuard {
    index: usize,
}

/// The counter a hash selects.
pub open spec fn abdada_index(hash: u64) -> int {
    (hash % (ABDADA_ENTRIES as u64)) as int
}

/// `v + 1`, wrapping at 256.
pub open spec fn wrapping_inc(v: u8) -> u8 {
    if v == 255 { 0 } else { (v + 1) as u8 }
}

/// `v - 1`, wrapping at 0.
pub open spec fn wrapping_dec(v: u8) -> u8 {
    if v == 0 { 255 } else { (v - 1) as u8 }
}

/// `a - b`, wrapping at 0.
pub open spec fn wrapping_sub_u8(a: u8, b: u8) -> u8 {
    if a >= b { (a - b) as u8 } else { (a + 256 - b) as u8 }
}

impl AbdadaGuard {
    pub closed spec fn spec_index(&self) -> int {
        self.index as int
    }
}

impl AbdadaTable {
    pub closed spec fn view(&self) -> Seq<u8> {
        self.entries@
    }

    /// One counter per slot.
    pub open spec fn wf(&self) -> bool {
        self.view().len() == ABDADA_ENTRIES
    }

    /// All counters at zero.
    pub fn new() -> (r: Self)
        ensures
            r.wf(),
            r.view() == Seq::new(ABDADA_ENTRIES as nat, |_i: int| 0u8),
    {
        let mut entries: Vec<u8> = Vec::new();
        while entries.len() < ABDADA_ENTRIES
            invariant
                entries.len() <= ABDADA_ENTRIES,
                forall|i: int| 0 <= i < entries.len() ==> entries[i] == 0,
            decreases ABDADA_ENTRIES - entries.len(),
        {
            entries.push(0);
        }
        let r = AbdadaTable { entries };
        assert(r.view() =~= Seq::new(ABDADA_ENTRIES as nat, |_i: int| 0u8));
        r
    }

    /// Some searcher is inside the position with this hash (or another position that
    /// shares its counter).
    pub fn is_searching(&self, hash: u64) -> (r: bool)
        requires
            self.wf(),
        ensures
            r == (self.view()[abdada_index(hash)] > 0),
    {
        self.entries[(hash % ABDADA_ENTRIES as u64) as usize] > 0
    }

    /// Counts one more searcher inside the position; the counter wraps like an atomic
    /// `fetch_add`.
    pub fn enter(&mut self, hash: u64) -> (r: Option<AbdadaGuard>)
        requires
            old(self).wf(),
        ensures
            final(self).wf(),
            r matches Some(g) && g.spec_index() == abdada_index(hash),
            final(self).view() == old(self).view().update(
                abdada_index(hash),
                wrapping_inc(old(self).view()[abdada_index(hash)]),
            ),
    {
        let index = (hash % ABDADA_ENTRIES as u64) as usize;
        let old_v = self.entries[index];
        let v = if old_v == 255 { 0 } else { old_v + 1 };
        self.entries.set(index, v);
        Some(AbdadaGuard { index })
    }

    /// Counts one searcher less: gives the guard back.
    pub fn leave(&mut self, guard: AbdadaGuard)
        requires
            old(self).wf(),
            0 <= guard.spec_index() < ABDADA_ENTRIES,
        ensures
            final(self).wf(),
            final(self).view() == old(self).view().update(
                guard.spec_index(),
                wrapping_dec(old(self).view()[guard.spec_index()]),
            ),
    {
        let old_v = self.entries[guard.index];
        let v = if old_v == 0 { 255 } else { old_v - 1 };
        self.entries.set(guard.index, v);
    }
}

/// Entering a position and leaving it again leaves every counter as it was, and while
/// inside (and short of 255 concurrent visits) the position reads as being searched.
pub proof fn lemma_enter_leave(before: Seq<u8>, hash: u64)
    requires
        before.len() == ABDADA_ENTRIES,
    ensures
        ({
            let i = abdada_index(hash);
            let inside = before.update(i, wrapping_inc(before[i]));
            &&& before[i] < 255 ==> inside[i] > 0
            &&& inside.update(i, wrapping_dec(inside[i])) == before
        }),
{
    let i = abdada_index(hash);
    let inside = before.update(i, wrapping_inc(before[i]));
    assert(inside.update(i, wrapping_dec(inside[i])) =~= before);
}

} // verus!
