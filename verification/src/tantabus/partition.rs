//! A move list split into partitions (hash move, captures, quiets, ...). Each
//! partition is sorted by score when it is closed and then handed out best first.
use vstd::prelude::*;
use crate::chess::ChessMove;

verus! {

/// Maximum number of moves in a chess position.
pub const MAX_MOVES: usize = 218;

/// A move with its ordering score.
pub type ScoredMove = (ChessMove, i32);

#[verifier::external_type_specification]
#[verifier::external_body]
#[verifier::reject_recursive_types(T)]
pub struct ExArrayVec<T, const CAP: usize>(arrayvec::ArrayVec<T, CAP>);

/// The moves an `ArrayVec` holds, in order.
pub uninterp spec fn spec_move_list(v: arrayvec::ArrayVec<ScoredMove, 218>) -> Seq<ScoredMove>;

/// Calls `ArrayVec::new`: an empty list.
#[verifier::external_body]
fn move_list_new() -> (r: arrayvec::ArrayVec<ScoredMove, 218>)
    ensures
        spec_move_list(r) == Seq::<ScoredMove>::empty(),
{
    arrayvec::ArrayVec::new()
}

/// Calls `ArrayVec::push`, which panics on a full list: appends the move.
#[verifier::external_body]
fn move_list_push(v: &mut arrayvec::ArrayVec<ScoredMove, 218>, m: ScoredMove)
    requires
        spec_move_list(*old(v)).len() < MAX_MOVES,
    ensures
        spec_move_list(*final(v)) == spec_move_list(*old(v)).push(m),
{
    v.push(m)
}

/// Calls `ArrayVec::try_extend_from_slice`, which fails when the slice does not fit:
/// appends the slice.
#[verifier::external_body]
fn move_list_extend(v: &mut arrayvec::ArrayVec<ScoredMove, 218>, s: &[ScoredMove])
    requires
        spec_move_list(*old(v)).len() + s@.len() <= MAX_MOVES,
    ensures
        spec_move_list(*final(v)) == spec_move_list(*old(v)) + s@,
{
    v.try_extend_from_slice(s).unwrap()
}

/// Calls `ArrayVec::len`.
#[verifier::external_body]
fn move_list_len(v: &arrayvec::ArrayVec<ScoredMove, 218>) -> (r: usize)
    ensures
        r == spec_move_list(*v).len(),
        r <= MAX_MOVES,
{
    v.len()
}

/// Reads a move of the list (indexing through `Deref` to a slice).
#[verifier::external_body]
fn move_list_get(v: &arrayvec::ArrayVec<ScoredMove, 218>, i: usize) -> (r: ScoredMove)
    requires
        i < spec_move_list(*v).len(),
    ensures
        r == spec_move_list(*v)[i as int],
{
    v[i]
}

/// A range of the list as a slice (through `Deref`).
#[verifier::external_body]
fn move_list_slice(v: &arrayvec::ArrayVec<ScoredMove, 218>, start: usize, end: usize) -> (r: &[ScoredMove])
    requires
        start <= end <= spec_move_list(*v).len(),
    ensures
        r@ == spec_move_list(*v).subrange(start as int, end as int),
{
    &v[start..end]
}

/// The sort key: moves with higher scores come first.
fn descending_key(m: &ScoredMove) -> (r: i64)
    ensures
        r == -(m.1 as int),
{
    -(m.1 as i64)
}

/// Scores of `s` never increase from one move to the next.
pub open spec fn sorted_desc(s: Seq<ScoredMove>) -> bool {
    forall|i: int, j: int| 0 <= i <= j < s.len() ==> s[i].1 >= s[j].1
}

/// Calls `pdqsort::sort_by_key` on a range of the list with key `-score`: the range
/// becomes a rearrangement of itself sorted by descending score (pdqsort is unstable,
/// so the order of equal scores is not fixed); the rest of the list is untouched.
#[verifier::external_body]
fn move_list_sort_desc(v: &mut arrayvec::ArrayVec<ScoredMove, 218>, start: usize, end: usize)
    requires
        start <= end <= spec_move_list(*old(v)).len(),
    ensures
        spec_move_list(*final(v)).len() == spec_move_list(*old(v)).len(),
        spec_move_list(*final(v)).subrange(0, start as int) == spec_move_list(*old(v)).subrange(0, start as int),
        spec_move_list(*final(v)).subrange(end as int, spec_move_list(*old(v)).len() as int)
            == spec_move_list(*old(v)).subrange(end as int, spec_move_list(*old(v)).len() as int),
        spec_move_list(*final(v)).subrange(start as int, end as int).to_multiset()
            == spec_move_list(*old(v)).subrange(start as int, end as int).to_multiset(),
        sorted_desc(spec_move_list(*final(v)).subrange(start as int, end as int)),
{
    pdqsort::sort_by_key(&mut v[start..end], descending_key)
}

pub struct PartitionedMoveList {
    move_list: arrayvec::ArrayVec<ScoredMove, 218>,
    partitioned: usize,
}

/// A closed range of the list and how many of its moves were handed out.
#[derive(Debug, Clone, Copy)]
pub struct Partition {
    pub start: usize,
    pub yielded: usize,
    pub end: usize,
}

impl Partition {
    pub open spec fn wf(&self) -> bool {
        self.start + self.yielded <= self.end
    }
}

impl PartitionedMoveList {
    pub closed spec fn view(&self) -> Seq<ScoredMove> {
        spec_move_list(self.move_list)
    }

    /// Where the open (not yet partitioned) part of the list starts.
    pub closed spec fn spec_partitioned(&self) -> nat {
        self.partitioned as nat
    }

    pub open spec fn wf(&self) -> bool {
        self.spec_partitioned() <= self.view().len() <= MAX_MOVES
    }

    pub fn new() -> (r: Self)
        ensures
            r.wf(),
            r.view() == Seq::<ScoredMove>::empty(),
            r.spec_partitioned() == 0,
    {
        PartitionedMoveList { move_list: move_list_new(), partitioned: 0 }
    }

    /// Adds a move to the open partition (what `PartitionBuilder::push` does).
    pub fn push(&mut self, mv: ScoredMove)
        requires
            old(self).wf(),
            old(self).view().len() < MAX_MOVES,
        ensures
            final(self).wf(),
            final(self).view() == old(self).view().push(mv),
            final(self).spec_partitioned() == old(self).spec_partitioned(),
    {
        move_list_push(&mut self.move_list, mv);
    }

    /// Closes the open partition: sorts it best first and returns it.
    pub fn new_partition(&mut self) -> (r: Partition)
        requires
            old(self).wf(),
        ensures
            final(self).wf(),
            r.wf(),
            r.start == old(self).spec_partitioned(),
            r.end == old(self).view().len(),
            r.yielded == 0,
            final(self).spec_partitioned() == r.end,
            final(self).view().len() == old(self).view().len(),
            final(self).view().subrange(0, r.start as int) == old(self).view().subrange(0, r.start as int),
            final(self).view().subrange(r.start as int, r.end as int).to_multiset()
                == old(self).view().subrange(r.start as int, r.end as int).to_multiset(),
            sorted_desc(final(self).view().subrange(r.start as int, r.end as int)),
    {
        self.build_partition()
    }

    /// Appends the moves of `slice` as a new partition.
    pub fn new_partition_from_slice(&mut self, slice: &[ScoredMove]) -> (r: Partition)
        requires
            old(self).wf(),
            old(self).view().len() + slice@.len() <= MAX_MOVES,
        ensures
            final(self).wf(),
            r.wf(),
            r.start == old(self).spec_partitioned(),
            r.end == old(self).view().len() + slice@.len(),
            r.yielded == 0,
            final(self).spec_partitioned() == r.end,
            final(self).view().subrange(0, r.start as int) == old(self).view().subrange(0, r.start as int),
            final(self).view().subrange(r.start as int, r.end as int).to_multiset()
                == (old(self).view() + slice@).subrange(r.start as int, r.end as int).to_multiset(),
            sorted_desc(final(self).view().subrange(r.start as int, r.end as int)),
    {
        move_list_extend(&mut self.move_list, slice);
        proof {
            assert(self.view().subrange(0, self.partitioned as int) =~= old(self).view().subrange(0, self.partitioned as int));
        }
        self.build_partition()
    }

    fn build_partition(&mut self) -> (r: Partition)
        requires
            old(self).wf(),
        ensures
            final(self).wf(),
            r.wf(),
            r.start == old(self).spec_partitioned(),
            r.end == old(self).view().len(),
            r.yielded == 0,
            final(self).spec_partitioned() == r.end,
            final(self).view().len() == old(self).view().len(),
            final(self).view().subrange(0, r.start as int) == old(self).view().subrange(0, r.start as int),
            final(self).view().subrange(r.start as int, r.end as int).to_multiset()
                == old(self).view().subrange(r.start as int, r.end as int).to_multiset(),
            sorted_desc(final(self).view().subrange(r.start as int, r.end as int)),
    {
        let start = self.partitioned;
        let end = move_list_len(&self.move_list);
        move_list_sort_desc(&mut self.move_list, start, end);
        self.partitioned = end;
        Partition { start, yielded: 0, end }
    }

    /// Hands out the best move of the partition not yet handed out, if any.
    pub fn yield_from_partition(&mut self, partition: &mut Partition) -> (r: Option<ScoredMove>)
        requires
            old(self).wf(),
            old(partition).wf(),
            old(partition).end <= old(self).view().len(),
        ensures
            *final(self) == *old(self),
            final(partition).start == old(partition).start,
            final(partition).end == old(partition).end,
            final(partition).wf(),
            old(partition).start + old(partition).yielded < old(partition).end ==> r == Some(
                old(self).view()[old(partition).start + old(partition).yielded],
            ) && final(partition).yielded == old(partition).yielded + 1,
            old(partition).start + old(partition).yielded == old(partition).end ==> r is None
                && final(partition).yielded == old(partition).yielded,
    {
        let i = partition.start + partition.yielded;
        if i < partition.end {
            let mv = move_list_get(&self.move_list, i);
            partition.yielded = partition.yielded + 1;
            Some(mv)
        } else {
            None
        }
    }

    /// The moves of the partition handed out so far, in order.
    pub fn yielded_from_partition(&self, partition: &Partition) -> (r: &[ScoredMove])
        requires
            self.wf(),
            partition.wf(),
            partition.end <= self.view().len(),
        ensures
            r@ == self.view().subrange(partition.start as int, partition.start + partition.yielded),
    {
        move_list_slice(&self.move_list, partition.start, partition.start + partition.yielded)
    }
}

/// Moves come out of a closed partition best first: in a sorted range, a move handed
/// out earlier never scores below one handed out later.
pub proof fn lemma_yields_descend(list: Seq<ScoredMove>, p: Partition, i: int, j: int)
    requires
        p.start <= p.end <= list.len(),
        sorted_desc(list.subrange(p.start as int, p.end as int)),
        p.start <= i <= j < p.end,
    ensures
        list[i].1 >= list[j].1,
{
    let s = list.subrange(p.start as int, p.end as int);
    assert(s[i - p.start] == list[i]);
    assert(s[j - p.start] == list[j]);
}

} // verus!
