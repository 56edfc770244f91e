//! History tables that persist between searches of one engine: the main history
//! (side, piece, target square) and the continuation histories, which add the move that
//! led to the position as context.
use vstd::prelude::*;
use crate::chess::{PieceKind, Side};
use crate::ordering::{history_dec, history_inc, spec_history_dec, spec_history_inc};

verus! {

/// Entries of one history table: 2 sides, 6 pieces, 64 target squares.
pub const HISTORY_SIZE: usize = 768;

/// Plies of context kept for the continuation histories.
pub const MAX_PLY: usize = 512;

/// Index of (side, piece, square) in a flat history table.
pub open spec fn spec_hist_index(side: Side, piece: PieceKind, sq: int) -> int {
    side.spec_index() * 384 + piece.spec_index() * 64 + sq
}

pub fn hist_index(side: Side, piece: PieceKind, sq: u8) -> (r: usize)
    requires
        sq < 64,
    ensures
        r == spec_hist_index(side, piece, sq as int),
        r < HISTORY_SIZE,
{
    side.index() * 384 + piece.index() * 64 + sq as usize
}

/// Which table holds the context of a continuation history, and where it starts.
#[derive(Clone, Copy, Debug, PartialEq, Eq, Structural)]
pub enum ContTable {
    /// The table of a move (`cont_hist`), at the given offset.
    Move(usize),
    /// The table used after a null move (`null_move_conthist`), at the given offset.
    Null(usize),
}

/// One history update: a reward (`true`) or a penalty at a table index.
pub type HistoryUpdate = (bool, int);

/// A sequence of history updates applied in order.
pub open spec fn spec_apply_history(h: Seq<i16>, ups: Seq<HistoryUpdate>, change: i32) -> Seq<i16>
    decreases ups.len(),
{
    if ups.len() == 0 {
        h
    } else {
        let prev = spec_apply_history(h, ups.drop_last(), change);
        let (inc, i) = ups.last();
        if 0 <= i < prev.len() {
            prev.update(i, if inc { spec_history_inc(prev[i], change) } else { spec_history_dec(prev[i], change) })
        } else {
            prev
        }
    }
}

pub proof fn lemma_apply_history_len(h: Seq<i16>, ups: Seq<HistoryUpdate>, change: i32)
    ensures
        spec_apply_history(h, ups, change).len() == h.len(),
    decreases ups.len(),
{
    if ups.len() > 0 {
        lemma_apply_history_len(h, ups.drop_last(), change);
    }
}

/// A recorded move names a square of the board.
pub open spec fn square_ok(m: Option<(PieceKind, u8)>) -> bool {
    m matches Some((_, s)) ==> s < 64
}

/// Applying two sequences of updates one after the other is applying their
/// concatenation.
pub proof fn lemma_apply_history_concat(h: Seq<i16>, a: Seq<HistoryUpdate>, b: Seq<HistoryUpdate>, change: i32)
    ensures
        spec_apply_history(h, a + b, change) == spec_apply_history(spec_apply_history(h, a, change), b, change),
    decreases b.len(),
{
    if b.len() == 0 {
        assert(a + b =~= a);
    } else {
        assert((a + b).drop_last() =~= a + b.drop_last());
        lemma_apply_history_concat(h, a, b.drop_last(), change);
    }
}

/// The history state of the search, kept across iterations.
pub struct PrivateState {
    pub history: Vec<i16>,
    pub cont_hist: Vec<i16>,
    pub null_move_conthist: Vec<i16>,
    /// The move played to reach each ply (piece and target square), `None` for a null
    /// move or an unrecorded ply.
    pub move_stack: Vec<Option<(PieceKind, u8)>>,
}

impl PrivateState {
    /// Every table has its full size and every recorded square is on the board.
    pub open spec fn wf(&self) -> bool {
        &&& self.history.len() == HISTORY_SIZE
        &&& self.cont_hist.len() == HISTORY_SIZE * HISTORY_SIZE
        &&& self.null_move_conthist.len() == 2 * HISTORY_SIZE
        &&& self.move_stack.len() == MAX_PLY
        &&& forall|i: int| 0 <= i < MAX_PLY ==> square_ok(#[trigger] self.move_stack[i])
    }

    /// All tables zero and no moves recorded.
    pub fn new() -> (r: Self)
        ensures
            r.wf(),
            r.history@ == Seq::new(HISTORY_SIZE as nat, |_i: int| 0i16),
            r.cont_hist@ == Seq::new((HISTORY_SIZE * HISTORY_SIZE) as nat, |_i: int| 0i16),
            r.null_move_conthist@ == Seq::new((2 * HISTORY_SIZE) as nat, |_i: int| 0i16),
            forall|i: int| 0 <= i < MAX_PLY ==> #[trigger] r.move_stack[i] is None,
    {
        let history = zeros(HISTORY_SIZE);
        let cont_hist = zeros(HISTORY_SIZE * HISTORY_SIZE);
        let null_move_conthist = zeros(2 * HISTORY_SIZE);
        let mut move_stack: Vec<Option<(PieceKind, u8)>> = Vec::new();
        while move_stack.len() < MAX_PLY
            invariant
                move_stack.len() <= MAX_PLY,
                forall|i: int| 0 <= i < move_stack.len() ==> #[trigger] move_stack[i] is None,
            decreases MAX_PLY - move_stack.len(),
        {
            move_stack.push(None);
        }
        PrivateState { history, cont_hist, null_move_conthist, move_stack }
    }

    /// The continuation table of the move `back` plies before `ply`, seen by `side`
    /// (`None` when the search has not gone that deep).
    pub open spec fn spec_cont_table(&self, ply: u16, back: int, side: Side) -> Option<ContTable> {
        if ply < back {
            None
        } else {
            match self.move_stack[ply - back] {
                Some((p, s)) => Some(ContTable::Move((spec_hist_index(side, p, s as int) * HISTORY_SIZE) as usize)),
                None => Some(ContTable::Null((side.spec_index() * HISTORY_SIZE) as usize)),
            }
        }
    }

    pub fn cont_table(&self, ply: u16, back: u16, side: Side) -> (r: Option<ContTable>)
        requires
            self.wf(),
            1 <= back <= 2,
            ply <= MAX_PLY,
        ensures
            r == self.spec_cont_table(ply, back as int, side),
            r matches Some(ContTable::Move(o)) ==> o + HISTORY_SIZE <= HISTORY_SIZE * HISTORY_SIZE,
            r matches Some(ContTable::Null(o)) ==> o + HISTORY_SIZE <= 2 * HISTORY_SIZE,
    {
        if ply < back {
            None
        } else {
            match self.move_stack[(ply - back) as usize] {
                Some((p, s)) => {
                    assert(square_ok(self.move_stack[ply - back]));
                    Some(ContTable::Move(hist_index(side, p, s) * HISTORY_SIZE))
                },
                None => Some(ContTable::Null(side.index() * HISTORY_SIZE)),
            }
        }
    }

    /// The counter-move table at `ply` for the side to move `stm` (context: the
    /// opponent's last move).
    pub open spec fn spec_counter_table(&self, ply: u16, stm: Side) -> Option<ContTable> {
        self.spec_cont_table(ply, 1, stm.spec_flip())
    }

    /// The follow-up table at `ply` for `stm` (context: its own previous move).
    pub open spec fn spec_followup_table(&self, ply: u16, stm: Side) -> Option<ContTable> {
        self.spec_cont_table(ply, 2, stm)
    }

    /// What a continuation table holds at an index.
    pub open spec fn spec_cont_value(&self, t: ContTable, i: int) -> i16 {
        match t {
            ContTable::Move(o) => self.cont_hist[o + i],
            ContTable::Null(o) => self.null_move_conthist[o + i],
        }
    }

    pub fn cont_value(&self, t: ContTable, i: usize) -> (r: i16)
        requires
            self.wf(),
            i < HISTORY_SIZE,
            t matches ContTable::Move(o) ==> o + HISTORY_SIZE <= HISTORY_SIZE * HISTORY_SIZE,
            t matches ContTable::Null(o) ==> o + HISTORY_SIZE <= 2 * HISTORY_SIZE,
        ensures
            r == self.spec_cont_value(t, i as int),
    {
        match t {
            ContTable::Move(o) => self.cont_hist[o + i],
            ContTable::Null(o) => self.null_move_conthist[o + i],
        }
    }

    /// Rewards or penalises one entry of a continuation table.
    pub fn update_cont(&mut self, t: ContTable, i: usize, inc: bool, change: i32)
        requires
            old(self).wf(),
            i < HISTORY_SIZE,
            t matches ContTable::Move(o) ==> o + HISTORY_SIZE <= HISTORY_SIZE * HISTORY_SIZE,
            t matches ContTable::Null(o) ==> o + HISTORY_SIZE <= 2 * HISTORY_SIZE,
        ensures
            final(self).wf(),
            final(self).history@ == old(self).history@,
            final(self).move_stack@ == old(self).move_stack@,
            t matches ContTable::Move(o) ==> final(self).null_move_conthist@ == old(self).null_move_conthist@
                && final(self).cont_hist@ == spec_apply_history(old(self).cont_hist@, seq![(inc, o + i)], change),
            t matches ContTable::Null(o) ==> final(self).cont_hist@ == old(self).cont_hist@
                && final(self).null_move_conthist@ == spec_apply_history(old(self).null_move_conthist@, seq![(inc, o + i)], change),
    {
        match t {
            ContTable::Move(o) => {
                update_entry(&mut self.cont_hist, o + i, inc, change);
                proof { lemma_apply_history_len(old(self).cont_hist@, seq![(inc, (o + i) as int)], change); }
            },
            ContTable::Null(o) => {
                update_entry(&mut self.null_move_conthist, o + i, inc, change);
                proof { lemma_apply_history_len(old(self).null_move_conthist@, seq![(inc, (o + i) as int)], change); }
            },
        }
    }
}

/// Applies one history update to a table.
pub fn update_entry(table: &mut Vec<i16>, i: usize, inc: bool, change: i32)
    requires
        i < old(table).len(),
    ensures
        final(table)@ == spec_apply_history(old(table)@, seq![(inc, i as int)], change),
{
    let mut v = table[i];
    if inc {
        history_inc(&mut v, change);
    } else {
        history_dec(&mut v, change);
    }
    table.set(i, v);
    proof {
        let ups = seq![(inc, i as int)];
        assert(ups.drop_last() =~= Seq::<HistoryUpdate>::empty());
        reveal_with_fuel(spec_apply_history, 2);
        assert(table@ =~= spec_apply_history(old(table)@, ups, change));
    }
}

/// A table of `n` zeros.
fn zeros(n: usize) -> (r: Vec<i16>)
    ensures
        r@ == Seq::new(n as nat, |_i: int| 0i16),
{
    let mut v: Vec<i16> = Vec::new();
    while v.len() < n
        invariant
            v.len() <= n,
            forall|i: int| 0 <= i < v.len() ==> v[i] == 0,
        decreases n - v.len(),
    {
        v.push(0);
    }
    assert(v@ =~= Seq::new(n as nat, |_i: int| 0i16));
    v
}

} // verus!
