//! The classical engine's transposition table: a replace-always cache indexed by the
//! position hash, which stores mate scores relative to the node that stores them.
use vstd::prelude::*;
use crate::chess::{ChessMove, board_hash, spec_board_hash};
use super::eval::{Eval, EvalKind, spec_kind, spec_mate_in, spec_mated_in, MATE_IN_ZERO};

verus! {

/// Bytes one slot occupies; sizes given in bytes are divided by it.
pub const SLOT_BYTES: usize = 16;

#[derive(Debug, Copy, Clone, PartialEq, Eq, Structural)]
pub enum TableEntryKind {
    Exact,
    LowerBound,
    UpperBound,
}

#[derive(Debug, Copy, Clone, PartialEq, Eq, Structural)]
pub struct TableEntry {
    pub kind: TableEntryKind,
    pub eval: Eval,
    pub depth: u8,
    pub best_move: ChessMove,
}

#[derive(Debug, Copy, Clone, PartialEq, Eq, Structural)]
pub enum CacheTableError {
    NotEnoughMemory,
    TooManyEntries,
}

/// A slot: the full hash of the position stored there, and its entry.
pub type TableKeyValueEntry = Option<(u64, TableEntry)>;

/// Number of occupied slots.
pub open spec fn count_some(s: Seq<TableKeyValueEntry>) -> nat
    decreases s.len(),
{
    if s.len() == 0 {
        0
    } else {
        count_some(s.drop_last()) + if s.last() is Some { 1nat } else { 0nat }
    }
}

/// The slot of a hash: its low 32 bits scaled to the capacity (multiply-shift
/// reduction).
pub open spec fn spec_hash_index(hash: u64, capacity: nat) -> int {
    ((hash % 0x1_0000_0000) * capacity) / 0x1_0000_0000
}

/// A mate score read back at `ply_index` plies from the root: the distance grows by
/// the ply; distances beyond 255 become large centipawn values.
pub open spec fn spec_read_eval(e: Eval, ply_index: u8) -> Eval {
    match spec_kind(e.0) {
        EvalKind::Centipawn(_) => e,
        EvalKind::MateIn(p) => {
            let q = p + ply_index;
            if q <= 255 { Eval(spec_mate_in(q as u8)) } else { Eval((20000 - q - 255) as i16) }
        },
        EvalKind::MatedIn(p) => {
            let q = p + ply_index;
            if q <= 255 { Eval(spec_mated_in(q as u8)) } else { Eval((-(20000 - q - 255)) as i16) }
        },
    }
}

/// A mate score written at `ply_index`: its distance becomes relative to this node.
pub open spec fn spec_write_eval(e: Eval, ply_index: u8) -> Eval {
    match spec_kind(e.0) {
        EvalKind::Centipawn(_) => e,
        EvalKind::MateIn(p) => Eval(spec_mate_in((p - ply_index) as u8)),
        EvalKind::MatedIn(p) => Eval(spec_mated_in((p - ply_index) as u8)),
    }
}

/// A mate score can be stored at this ply: its distance is at least the ply.
pub open spec fn writable(e: Eval, ply_index: u8) -> bool {
    match spec_kind(e.0) {
        EvalKind::Centipawn(_) => true,
        EvalKind::MateIn(p) => p >= ply_index,
        EvalKind::MatedIn(p) => p >= ply_index,
    }
}

pub open spec fn spec_cache_get(table: Seq<TableKeyValueEntry>, hash: u64, ply_index: u8) -> Option<TableEntry> {
    match table[spec_hash_index(hash, table.len())] {
        Some((h, entry)) => if h == hash {
            Some(TableEntry { eval: spec_read_eval(entry.eval, ply_index), ..entry })
        } else {
            None
        },
        None => None,
    }
}

pub open spec fn spec_cache_set(table: Seq<TableKeyValueEntry>, hash: u64, ply_index: u8, entry: TableEntry) -> Seq<TableKeyValueEntry> {
    table.update(
        spec_hash_index(hash, table.len()),
        Some((hash, TableEntry { eval: spec_write_eval(entry.eval, ply_index), ..entry })),
    )
}

#[derive(Debug)]
pub struct CacheTable {
    table: Vec<TableKeyValueEntry>,
    len: u32,
}

proof fn lemma_count_update(s: Seq<TableKeyValueEntry>, i: int, v: TableKeyValueEntry)
    requires
        0 <= i < s.len(),
    ensures
        count_some(s.update(i, v)) == count_some(s) - (if s[i] is Some { 1int } else { 0int }) + (if v is Some { 1int } else { 0int }),
    decreases s.len(),
{
    let t = s.update(i, v);
    if i == s.len() - 1 {
        assert(t.drop_last() =~= s.drop_last());
    } else {
        assert(t.drop_last() =~= s.drop_last().update(i, v));
        lemma_count_update(s.drop_last(), i, v);
    }
}

proof fn lemma_count_le(s: Seq<TableKeyValueEntry>)
    ensures
        count_some(s) <= s.len(),
        count_some(s) < s.len() <== exists|i: int| 0 <= i < s.len() && s[i] is None,
    decreases s.len(),
{
    if s.len() > 0 {
        lemma_count_le(s.drop_last());
        if exists|i: int| 0 <= i < s.len() && s[i] is None {
            let i = choose|i: int| 0 <= i < s.len() && s[i] is None;
            if i < s.len() - 1 {
                assert(s.drop_last()[i] is None);
            }
        }
    }
}

proof fn lemma_count_all_none(n: nat)
    ensures
        count_some(Seq::new(n, |_i: int| None::<(u64, TableEntry)>)) == 0,
    decreases n,
{
    if n > 0 {
        assert(Seq::new(n, |_i: int| None::<(u64, TableEntry)>).drop_last() =~= Seq::new((n - 1) as nat, |_i: int| None::<(u64, TableEntry)>));
        lemma_count_all_none((n - 1) as nat);
    }
}

impl CacheTable {
    pub closed spec fn view(&self) -> Seq<TableKeyValueEntry> {
        self.table@
    }

    pub closed spec fn spec_len(&self) -> u32 {
        self.len
    }

    /// At least one slot, at most `u32::MAX`, and the count of used slots is right.
    pub open spec fn wf(&self) -> bool {
        &&& 0 < self.view().len() <= u32::MAX
        &&& self.spec_len() == count_some(self.view())
    }

    /// A cache table with the given (nonzero) number of entries, all empty.
    pub fn new_with_entries(entries: u32) -> (r: Self)
        requires
            entries > 0,
        ensures
            r.wf(),
            r.view() == Seq::new(entries as nat, |_i: int| None::<(u64, TableEntry)>),
            r.spec_len() == 0,
    {
        let mut table: Vec<TableKeyValueEntry> = Vec::new();
        while table.len() < entries as usize
            invariant
                table.len() <= entries,
                forall|i: int| 0 <= i < table.len() ==> table[i] is None,
            decreases entries - table.len(),
        {
            table.push(None);
        }
        let r = CacheTable { table, len: 0 };
        assert(r.view() =~= Seq::new(entries as nat, |_i: int| None::<(u64, TableEntry)>));
        proof {
            lemma_count_all_none(entries as nat);
        }
        r
    }

    /// A cache table no bigger than `size` bytes. There must be room for one slot, or
    /// this fails with `NotEnoughMemory`; there may be at most `u32::MAX` slots, or it
    /// fails with `TooManyEntries`.
    pub fn new_with_size(size: usize) -> (r: Result<Self, CacheTableError>)
        ensures
            size / SLOT_BYTES > u32::MAX ==> r == Err::<Self, CacheTableError>(CacheTableError::TooManyEntries),
            size / SLOT_BYTES == 0 ==> r == Err::<Self, CacheTableError>(CacheTableError::NotEnoughMemory),
            0 < size / SLOT_BYTES <= u32::MAX ==> (r matches Ok(t) && t.wf() && t.view().len() == size / SLOT_BYTES && t.spec_len() == 0),
    {
        let entries = size / SLOT_BYTES;
        if entries > u32::MAX as usize {
            return Err(CacheTableError::TooManyEntries);
        }
        if entries == 0 {
            return Err(CacheTableError::NotEnoughMemory);
        }
        Ok(Self::new_with_entries(entries as u32))
    }

    fn hash_to_index(&self, hash: u64) -> (r: usize)
        requires
            self.wf(),
        ensures
            r == spec_hash_index(hash, self.view().len()),
            r < self.view().len(),
    {
        let cap = self.table.len() as u64;
        let low = (hash as u32) as u64;
        assert(((hash as u32) as u64) == hash % 0x1_0000_0000) by (bit_vector);
        assert(low * cap < 0x1_0000_0000 * 0x1_0000_0000) by (nonlinear_arith)
            requires low < 0x1_0000_0000, cap < 0x1_0000_0000;
        let p = low * cap;
        let r = p >> 32u64;
        assert(r == p / 0x1_0000_0000) by (bit_vector)
            requires r == p >> 32u64;
        assert(p / 0x1_0000_0000 < cap) by (nonlinear_arith)
            requires p == low * cap, low < 0x1_0000_0000, cap > 0;
        r as usize
    }

    /// The entry stored for `board`, with mate scores read back at `ply_index`.
    pub fn get(&self, board: &cozy_chess::Board, ply_index: u8) -> (r: Option<TableEntry>)
        requires
            self.wf(),
        ensures
            r == spec_cache_get(self.view(), spec_board_hash(*board), ply_index),
    {
        let hash = board_hash(board);
        let index = self.hash_to_index(hash);
        match self.table[index] {
            Some((entry_hash, entry)) => if entry_hash == hash {
                Some(TableEntry { eval: read_eval(entry.eval, ply_index), ..entry })
            } else {
                None
            },
            None => None,
        }
    }

    /// Stores `entry` for `board`, replacing whatever the slot held, with mate scores
    /// made relative to `ply_index`.
    pub fn set(&mut self, board: &cozy_chess::Board, ply_index: u8, entry: TableEntry)
        requires
            old(self).wf(),
            writable(entry.eval, ply_index),
        ensures
            final(self).wf(),
            final(self).view() == spec_cache_set(old(self).view(), spec_board_hash(*board), ply_index, entry),
    {
        let hash = board_hash(board);
        let index = self.hash_to_index(hash);
        let stored = TableEntry { eval: write_eval(entry.eval, ply_index), ..entry };
        let was_empty = self.table[index].is_none();
        proof {
            lemma_count_update(self.view(), index as int, Some((hash, stored)));
            if was_empty {
                lemma_count_le(self.view());
            }
        }
        if was_empty {
            self.len = self.len + 1;
        }
        self.table.set(index, Some((hash, stored)));
    }

    pub fn capacity(&self) -> (r: u32)
        requires
            self.wf(),
        ensures
            r == self.view().len(),
    {
        self.table.len() as u32
    }

    /// Number of occupied slots.
    pub fn len(&self) -> (r: u32)
        ensures
            r == self.spec_len(),
    {
        self.len
    }
}

fn read_eval(e: Eval, ply_index: u8) -> (r: Eval)
    ensures
        r == spec_read_eval(e, ply_index),
{
    match e.kind() {
        EvalKind::Centipawn(_) => e,
        EvalKind::MateIn(p) => {
            let q: u32 = p as u32 + ply_index as u32;
            if q <= 255 { Eval::mate_in(q as u8) } else { Eval::cp((20000 - q - 255) as i16) }
        },
        EvalKind::MatedIn(p) => {
            let q: u32 = p as u32 + ply_index as u32;
            if q <= 255 { Eval::mated_in(q as u8) } else { Eval::cp(-((20000 - q - 255) as i16)) }
        },
    }
}

fn write_eval(e: Eval, ply_index: u8) -> (r: Eval)
    requires
        writable(e, ply_index),
    ensures
        r == spec_write_eval(e, ply_index),
{
    match e.kind() {
        EvalKind::Centipawn(_) => e,
        EvalKind::MateIn(p) => Eval::mate_in(p - ply_index),
        EvalKind::MatedIn(p) => Eval::mated_in(p - ply_index),
    }
}

/// A read gives back the write: looking a position up at the ply where it was stored
/// finds the stored entry, with the same score, as long as the score is a centipawn
/// value or a mate score with its distance in range (between mate in 0 and mate in
/// 255).
pub proof fn lemma_set_then_get(table: Seq<TableKeyValueEntry>, hash: u64, ply_index: u8, entry: TableEntry)
    requires
        table.len() > 0,
        writable(entry.eval, ply_index),
        -MATE_IN_ZERO <= entry.eval.0 <= MATE_IN_ZERO,
    ensures
        spec_cache_get(spec_cache_set(table, hash, ply_index, entry), hash, ply_index) == Some(entry),
{
    let i = spec_hash_index(hash, table.len());
    assert(0 <= i < table.len()) by {
        assert(0 <= (hash % 0x1_0000_0000) * table.len()) by (nonlinear_arith)
            requires table.len() > 0;
        assert(((hash % 0x1_0000_0000) * table.len()) / 0x1_0000_0000 < table.len()) by (nonlinear_arith)
            requires hash % 0x1_0000_0000 < 0x1_0000_0000, table.len() > 0;
    }
    let w = spec_write_eval(entry.eval, ply_index);
    match spec_kind(entry.eval.0) {
        EvalKind::Centipawn(_) => {},
        EvalKind::MateIn(p) => {
            crate::tantabus::eval::lemma_kind_round_trip((p - ply_index) as u8, 0);
        },
        EvalKind::MatedIn(p) => {
            crate::tantabus::eval::lemma_kind_round_trip((p - ply_index) as u8, 0);
        },
    }
    assert(spec_read_eval(w, ply_index) == entry.eval);
}

/// The count of occupied slots never exceeds the capacity.
pub proof fn lemma_len_le_capacity(t: CacheTable)
    requires
        t.wf(),
    ensures
        t.spec_len() <= t.view().len(),
{
    lemma_count_le(t.view());
}

} // verus!
