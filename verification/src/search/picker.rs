//! Move ordering for the main search: the hash move first, then all other legal moves
//! scored (captures by exchange value and victim, quiet moves by history) and handed out
//! best first; after a cutoff, the history tables learn from the moves tried.
use vstd::prelude::*;
use crate::nnue::move_allowed;
use crate::chess::{
    ChessMove, PieceKind, Side, bb_has, board_colors, board_has_kings, board_legal_moves,
    board_piece_on, board_side_to_move, has_kings, spec_board_colors, spec_board_is_legal,
    spec_board_legal_moves, spec_board_side_to_move, spec_has, spec_piece_on,
};
use crate::ordering::MoveScore;
use crate::position::Position;
use crate::see::{spec_static_exchange_eval, static_exchange_eval};
use crate::tt::promotion_storable;
use super::state::{
    ContTable, HISTORY_SIZE, HistoryUpdate, MAX_PLY, PrivateState, hist_index, spec_apply_history,
    spec_hist_index, update_entry, lemma_apply_history_len, lemma_apply_history_concat,
};

verus! {

/// A move the search may play and store: on the board, legal, and with a promotion the
/// transposition table can encode.
pub open spec fn move_ok(board: cozy_chess::Board, mv: ChessMove) -> bool {
    mv.valid() && spec_board_is_legal(board, mv) && promotion_storable(mv.promotion)
}

/// `a` does not rank below `b`.
pub open spec fn not_worse(a: MoveScore, b: MoveScore) -> bool {
    !a.spec_lt(b)
}

/// Best first: no move ranks below a later one.
pub open spec fn sorted_best_first(s: Seq<(ChessMove, MoveScore)>) -> bool {
    forall|i: int, j: int| 0 <= i <= j < s.len() ==> not_worse(#[trigger] s[i].1, #[trigger] s[j].1)
}

/// The sort key that puts better moves first: variant rank, then payload, both
/// descending.
fn best_first_key(m: &(ChessMove, MoveScore)) -> (r: (u8, i32))
    ensures
        r.0 == 3 - m.1.spec_rank(),
        r.1 == -m.1.spec_payload(),
{
    (3 - m.1.rank(), -(m.1.payload() as i32))
}

/// Calls `slice::sort_unstable_by_key` with `best_first_key`: the list becomes a
/// rearrangement of itself whose keys ascend in the tuple order, that is, best first.
/// The sort is unstable, so the order of moves with equal scores is left open.
#[verifier::external_body]
fn sort_best_first(v: &mut Vec<(ChessMove, MoveScore)>)
    ensures
        final(v)@.to_multiset() == old(v)@.to_multiset(),
        sorted_best_first(final(v)@),
{
    v.sort_unstable_by_key(best_first_key)
}

/// The entry of one legal move (moving `piece`) in the generated list, scored against
/// the history tables `state` at distance `ply` from the root: captures by victim and
/// attacker, good or bad by exchange value, quiet moves by the sum of their main,
/// counter-move and follow-up history (added with wrapping). The hash move is listed
/// separately, and a board without both kings lists no capture.
pub open spec fn spec_pick_entry(
    board: cozy_chess::Board,
    piece: PieceKind,
    mv: ChessMove,
    hashmv: Option<ChessMove>,
    state: PrivateState,
    ply: u16,
) -> Option<(ChessMove, MoveScore)> {
    let stm = spec_board_side_to_move(board);
    if hashmv == Some(mv) {
        None
    } else if spec_has(spec_board_colors(board, stm.spec_flip()), mv.to) {
        match spec_piece_on(board, mv.to) {
            Some(victim) => if !has_kings(board) {
                None
            } else {
                let value = (victim.spec_index() * 8 - piece.spec_index()) as i16;
                Some((mv, if spec_static_exchange_eval(board, mv) >= 0 {
                    MoveScore::GoodCapture(value)
                } else {
                    MoveScore::BadCapture(value)
                }))
            },
            None => None,
        }
    } else {
        let idx = spec_hist_index(stm, piece, mv.to as int);
        let s0 = state.history@[idx];
        let s1 = match state.spec_counter_table(ply, stm) {
            Some(t) => vstd::wrapping::i16_specs::wrapping_add(s0, state.spec_cont_value(t, idx)),
            None => s0,
        };
        let s2 = match state.spec_followup_table(ply, stm) {
            Some(t) => vstd::wrapping::i16_specs::wrapping_add(s1, state.spec_cont_value(t, idx)),
            None => s1,
        };
        Some((mv, MoveScore::Quiet(s2)))
    }
}

/// The scored entries of the legal moves `legal`, in generation order.
pub open spec fn spec_pick_entries(
    board: cozy_chess::Board,
    legal: Seq<(PieceKind, ChessMove)>,
    hashmv: Option<ChessMove>,
    state: PrivateState,
    ply: u16,
) -> Seq<(ChessMove, MoveScore)>
    decreases legal.len(),
{
    if legal.len() == 0 {
        seq![]
    } else {
        let prev = spec_pick_entries(board, legal.drop_last(), hashmv, state, ply);
        match spec_pick_entry(board, legal.last().0, legal.last().1, hashmv, state, ply) {
            Some(e) => prev.push(e),
            None => prev,
        }
    }
}

/// The full move list before sorting: the hash move, then every other legal move.
pub open spec fn spec_generated(
    board: cozy_chess::Board,
    hashmv: Option<ChessMove>,
    state: PrivateState,
    ply: u16,
) -> Seq<(ChessMove, MoveScore)> {
    let head = match hashmv {
        Some(h) => seq![(h, MoveScore::Hash)],
        None => seq![],
    };
    head + spec_pick_entries(board, spec_board_legal_moves(board), hashmv, state, ply)
}

/// Every legal move of `board` can be searched: both kings stand, and each legal move
/// has a piece to move and, when it captures, a victim other than the king (as in
/// every valid position).
pub open spec fn spec_all_playable(board: cozy_chess::Board) -> bool {
    &&& has_kings(board)
    &&& forall|j: int|
        0 <= j < spec_board_legal_moves(board).len() ==> move_allowed(
            board,
            (#[trigger] spec_board_legal_moves(board)[j]).1,
        )
}

/// The entry of a legal move that gets one is in the list of entries.
proof fn lemma_entry_listed(
    board: cozy_chess::Board,
    legal: Seq<(PieceKind, ChessMove)>,
    hashmv: Option<ChessMove>,
    state: PrivateState,
    ply: u16,
    j: int,
)
    requires
        0 <= j < legal.len(),
        spec_pick_entry(board, legal[j].0, legal[j].1, hashmv, state, ply) is Some,
    ensures
        spec_pick_entries(board, legal, hashmv, state, ply).contains(
            spec_pick_entry(board, legal[j].0, legal[j].1, hashmv, state, ply)->0,
        ),
    decreases legal.len(),
{
    let prev = spec_pick_entries(board, legal.drop_last(), hashmv, state, ply);
    let e = spec_pick_entry(board, legal[j].0, legal[j].1, hashmv, state, ply)->0;
    if j < legal.len() - 1 {
        lemma_entry_listed(board, legal.drop_last(), hashmv, state, ply, j);
        let w = choose|x: int| 0 <= x < prev.len() && prev[x] == e;
        let cur = spec_pick_entries(board, legal, hashmv, state, ply);
        assert(cur[w] == e);
    } else {
        let cur = spec_pick_entries(board, legal, hashmv, state, ply);
        assert(cur == prev.push(e));
        assert(cur[prev.len() as int] == e);
    }
}

/// When every legal move can be searched and there is one, the full move list holds a
/// move the search plays.
pub proof fn lemma_generated_has_playable(
    board: cozy_chess::Board,
    hashmv: Option<ChessMove>,
    state: PrivateState,
    ply: u16,
)
    requires
        spec_all_playable(board),
        spec_board_legal_moves(board).len() > 0,
    ensures
        exists|i: int|
            0 <= i < spec_generated(board, hashmv, state, ply).len() && move_allowed(
                board,
                (#[trigger] spec_generated(board, hashmv, state, ply)[i]).0,
            ),
{
    let legal = spec_board_legal_moves(board);
    let g = spec_generated(board, hashmv, state, ply);
    let mv = legal[0].1;
    assert(move_allowed(board, legal[0].1));
    if hashmv == Some(mv) {
        assert(g[0] == (mv, MoveScore::Hash));
    } else {
        let e = spec_pick_entry(board, legal[0].0, mv, hashmv, state, ply);
        assert(e is Some);
        lemma_entry_listed(board, legal, hashmv, state, ply, 0);
        let entries = spec_pick_entries(board, legal, hashmv, state, ply);
        let w = choose|x: int| 0 <= x < entries.len() && entries[x] == e->0;
        let head: Seq<(ChessMove, MoveScore)> = match hashmv {
            Some(h) => seq![(h, MoveScore::Hash)],
            None => seq![],
        };
        assert(g[head.len() + w] == e->0);
    }
}

/// When every legal move can be searched, each of them is in the full move list.
pub proof fn lemma_generated_lists(
    board: cozy_chess::Board,
    hashmv: Option<ChessMove>,
    state: PrivateState,
    ply: u16,
    j: int,
)
    requires
        spec_all_playable(board),
        0 <= j < spec_board_legal_moves(board).len(),
    ensures
        exists|i: int|
            0 <= i < spec_generated(board, hashmv, state, ply).len() && (#[trigger] spec_generated(
                board,
                hashmv,
                state,
                ply,
            )[i]).0 == spec_board_legal_moves(board)[j].1,
{
    let legal = spec_board_legal_moves(board);
    let g = spec_generated(board, hashmv, state, ply);
    let mv = legal[j].1;
    assert(move_allowed(board, legal[j].1));
    if hashmv == Some(mv) {
        assert(g[0] == (mv, MoveScore::Hash));
    } else {
        let e = spec_pick_entry(board, legal[j].0, mv, hashmv, state, ply);
        assert(e is Some);
        lemma_entry_listed(board, legal, hashmv, state, ply, j);
        let entries = spec_pick_entries(board, legal, hashmv, state, ply);
        let w = choose|x: int| 0 <= x < entries.len() && entries[x] == e->0;
        let head: Seq<(ChessMove, MoveScore)> = match hashmv {
            Some(h) => seq![(h, MoveScore::Hash)],
            None => seq![],
        };
        assert(g[head.len() + w] == e->0);
    }
}

/// `m` is the move of one of the entries of `legal`.
pub open spec fn listed(legal: Seq<(PieceKind, ChessMove)>, m: ChessMove) -> bool {
    exists|j: int| 0 <= j < legal.len() && (#[trigger] legal[j]).1 == m
}

/// `m` is the move of one of the entries of the move list `moves`.
pub open spec fn listed_in(moves: Seq<(ChessMove, MoveScore)>, m: ChessMove) -> bool {
    exists|i: int| 0 <= i < moves.len() && (#[trigger] moves[i]).0 == m
}

/// The entries of a list of distinct, searchable legal moves: each move but the hash
/// move once, and nothing else.
proof fn lemma_entries_exact(
    board: cozy_chess::Board,
    legal: Seq<(PieceKind, ChessMove)>,
    hashmv: Option<ChessMove>,
    state: PrivateState,
    ply: u16,
)
    requires
        has_kings(board),
        forall|j: int| 0 <= j < legal.len() ==> move_allowed(board, (#[trigger] legal[j]).1),
        forall|i: int, j: int| 0 <= i < j < legal.len() ==> (#[trigger] legal[i]).1 != (#[trigger] legal[j]).1,
    ensures
        ({
            let e = spec_pick_entries(board, legal, hashmv, state, ply);
            &&& forall|i: int| 0 <= i < e.len() ==> listed(legal, (#[trigger] e[i]).0) && Some(e[i].0) != hashmv
            &&& forall|i: int, k: int| 0 <= i < k < e.len() ==> (#[trigger] e[i]).0 != (#[trigger] e[k]).0
            &&& e.len() == legal.len() - (if hashmv matches Some(h) && listed(legal, h) { 1int } else { 0int })
        }),
    decreases legal.len(),
{
    if legal.len() > 0 {
        let l2 = legal.drop_last();
        assert forall|j: int| 0 <= j < l2.len() implies move_allowed(board, (#[trigger] l2[j]).1) by {
            assert(l2[j] == legal[j]);
        }
        assert forall|i: int, j: int| 0 <= i < j < l2.len() implies (#[trigger] l2[i]).1 != (#[trigger] l2[j]).1 by {
            assert(l2[i] == legal[i] && l2[j] == legal[j]);
        }
        lemma_entries_exact(board, l2, hashmv, state, ply);
        let prev = spec_pick_entries(board, l2, hashmv, state, ply);
        let e = spec_pick_entries(board, legal, hashmv, state, ply);
        let last = legal.last();
        assert(move_allowed(board, legal[legal.len() - 1].1));
        assert forall|m: ChessMove| listed(l2, m) implies listed(legal, m) by {
            let j = choose|j: int| 0 <= j < l2.len() && (#[trigger] l2[j]).1 == m;
            assert(legal[j] == l2[j]);
        }
        assert forall|m: ChessMove| listed(l2, m) implies m != last.1 by {
            let j = choose|j: int| 0 <= j < l2.len() && (#[trigger] l2[j]).1 == m;
            assert(legal[j] == l2[j]);
        }
        assert(listed(legal, last.1)) by {
            assert(legal[legal.len() - 1] == last);
        }
        if let Some(h) = hashmv {
            if listed(legal, h) && h != last.1 {
                let j = choose|j: int| 0 <= j < legal.len() && (#[trigger] legal[j]).1 == h;
                assert(j < legal.len() - 1);
                assert(l2[j] == legal[j]);
                assert(listed(l2, h));
            }
            if listed(l2, h) {
                let j = choose|j: int| 0 <= j < l2.len() && (#[trigger] l2[j]).1 == h;
                assert(legal[j] == l2[j]);
            }
        }
        if hashmv == Some(last.1) {
            assert(e == prev);
        } else {
            let entry = spec_pick_entry(board, last.0, last.1, hashmv, state, ply);
            assert(entry is Some);
            assert(e == prev.push(entry->0));
            assert forall|i: int| 0 <= i < prev.len() implies (#[trigger] e[i]) == prev[i] by {}
        }
    }
}

/// The full move list of a position with distinct, searchable legal moves, and a hash
/// move among them (if any), holds each legal move exactly once: as many entries as
/// legal moves, every legal move among them, and no move twice. The picker hands out
/// each entry of this list once, in order.
pub proof fn lemma_generated_each_once(
    board: cozy_chess::Board,
    hashmv: Option<ChessMove>,
    state: PrivateState,
    ply: u16,
)
    requires
        spec_all_playable(board),
        forall|i: int, j: int|
            0 <= i < j < spec_board_legal_moves(board).len() ==> (#[trigger] spec_board_legal_moves(board)[i]).1
                != (#[trigger] spec_board_legal_moves(board)[j]).1,
        hashmv matches Some(h) ==> listed(spec_board_legal_moves(board), h),
    ensures
        spec_generated(board, hashmv, state, ply).len() == spec_board_legal_moves(board).len(),
        forall|j: int|
            0 <= j < spec_board_legal_moves(board).len() ==> listed_in(
                spec_generated(board, hashmv, state, ply),
                (#[trigger] spec_board_legal_moves(board)[j]).1,
            ),
        forall|i: int, k: int|
            0 <= i < k < spec_generated(board, hashmv, state, ply).len() ==> (#[trigger] spec_generated(
                board,
                hashmv,
                state,
                ply,
            )[i]).0 != (#[trigger] spec_generated(board, hashmv, state, ply)[k]).0,
{
    let legal = spec_board_legal_moves(board);
    let g = spec_generated(board, hashmv, state, ply);
    let e = spec_pick_entries(board, legal, hashmv, state, ply);
    lemma_entries_exact(board, legal, hashmv, state, ply);
    assert forall|j: int| 0 <= j < legal.len() implies listed_in(g, (#[trigger] legal[j]).1) by {
        lemma_generated_lists(board, hashmv, state, ply, j);
    }
    let head: Seq<(ChessMove, MoveScore)> = match hashmv {
        Some(h) => seq![(h, MoveScore::Hash)],
        None => seq![],
    };
    assert(g == head + e);
    assert forall|i: int, k: int| 0 <= i < k < g.len() implies (#[trigger] g[i]).0 != (#[trigger] g[k]).0 by {
        if head.len() == 1 && i == 0 {
            assert(g[k] == e[k - 1]);
        } else {
            assert(g[i] == e[i - head.len()] && g[k] == e[k - head.len()]);
        }
    }
}

/// Hands out the moves of a position, the hash move first.
pub struct MovePicker<'a> {
    pub pos: &'a Position,
    pub hashmv: Option<ChessMove>,
    pub moves: Vec<(ChessMove, MoveScore)>,
    pub next: usize,
    /// Whether the full move list has been built.
    pub generated: bool,
}

impl<'a> MovePicker<'a> {
    /// Every move the picker holds is playable, the list is best first once built,
    /// and `next` counts the moves handed out.
    pub open spec fn wf(&self) -> bool {
        &&& (self.hashmv matches Some(m) ==> move_ok(self.pos.board, m))
        &&& forall|i: int| 0 <= i < self.moves.len() ==> move_ok(self.pos.board, #[trigger] self.moves@[i].0)
        &&& if self.generated {
            &&& sorted_best_first(self.moves@)
            &&& self.next <= self.moves.len()
            &&& (self.hashmv is Some ==> self.next >= 1)
        } else {
            &&& self.moves.len() == 0
            &&& self.next <= 1
            &&& (self.next == 1 ==> self.hashmv is Some)
        }
    }

    /// What is left to hand out, as a measure that every handed-out move decreases:
    /// building the list counts as progress.
    pub open spec fn stage(&self) -> int {
        if self.generated { 0 } else { 1 }
    }

    pub open spec fn left(&self) -> int {
        if self.generated { self.moves.len() - self.next } else { 1 - self.next }
    }

    pub fn new(pos: &'a Position, hashmv: Option<ChessMove>) -> (r: Self)
        requires
            hashmv matches Some(m) ==> move_ok(pos.board, m),
        ensures
            r.wf(),
            r.pos == pos,
            r.hashmv == hashmv,
            r.next == 0,
            !r.generated,
    {
        MovePicker { pos, hashmv, moves: Vec::new(), next: 0, generated: false }
    }

    /// The next move with its index and score, or `None` when all were handed out.
    pub fn pick_move(&mut self, state: &PrivateState) -> (r: Option<(usize, ChessMove, MoveScore)>)
        requires
            old(self).wf(),
            state.wf(),
            old(self).pos.ply <= MAX_PLY,
        ensures
            final(self).wf(),
            final(self).pos == old(self).pos,
            final(self).hashmv == old(self).hashmv,
            final(self).generated || !old(self).generated,
            old(self).generated ==> final(self).moves@ == old(self).moves@,
            r matches Some((i, mv, score)) ==> {
                &&& i == old(self).next
                &&& final(self).next == old(self).next + 1
                &&& move_ok(old(self).pos.board, mv)
                &&& (final(self).stage() < old(self).stage() || (final(self).stage() == old(self).stage()
                    && final(self).left() < old(self).left()))
                &&& if final(self).generated {
                    final(self).moves@[i as int] == (mv, score)
                } else {
                    i == 0 && old(self).hashmv == Some(mv) && score == MoveScore::Hash
                }
            },
            r is None ==> final(self).generated && final(self).next == old(self).next
                && final(self).next == final(self).moves.len(),
            !old(self).generated && final(self).generated ==> (old(self).hashmv matches Some(h)
                ==> final(self).moves@[0] == (h, MoveScore::Hash)),
            !old(self).generated && final(self).generated ==> final(self).moves@.to_multiset() == spec_generated(
                old(self).pos.board,
                old(self).hashmv,
                *state,
                old(self).pos.ply,
            ).to_multiset(),
    {
        let i = self.next;
        if i == 0 && self.hashmv.is_some() {
            self.next = 1;
            return Some((0, self.hashmv.unwrap(), MoveScore::Hash));
        }
        if !self.generated {
            self.generate(state);
        }
        if i < self.moves.len() {
            let (mv, score) = self.moves[i];
            self.next = i + 1;
            Some((i, mv, score))
        } else {
            None
        }
    }

    /// Builds the full list: the hash move, then every other legal move with its score,
    /// sorted best first.
    fn generate(&mut self, state: &PrivateState)
        requires
            old(self).wf(),
            !old(self).generated,
            old(self).moves.len() == 0,
            old(self).next <= 1,
            old(self).next == 1 ==> old(self).hashmv is Some,
            old(self).hashmv is Some ==> old(self).next == 1,
            state.wf(),
            old(self).pos.ply <= MAX_PLY,
        ensures
            final(self).wf(),
            final(self).generated,
            final(self).pos == old(self).pos,
            final(self).hashmv == old(self).hashmv,
            final(self).next == old(self).next,
            old(self).hashmv is Some ==> final(self).moves.len() >= 1,
            old(self).hashmv matches Some(h) ==> final(self).moves@[0] == (h, MoveScore::Hash),
            final(self).moves@.to_multiset() == spec_generated(old(self).pos.board, old(self).hashmv, *state, old(self).pos.ply).to_multiset(),
    {
        let board = &self.pos.board;
        let mut moves: Vec<(ChessMove, MoveScore)> = Vec::new();
        if let Some(mv) = self.hashmv {
            moves.push((mv, MoveScore::Hash));
        }
        let stm = board_side_to_move(board);
        let capture_targets = board_colors(board, stm.flip());
        let kings = board_has_kings(board);
        let counter = state.cont_table(self.pos.ply, 1, stm.flip());
        let followup = state.cont_table(self.pos.ply, 2, stm);
        let legal = board_legal_moves(board);
        let ghost head = moves@;
        let mut k: usize = 0;
        while k < legal.len()
            invariant
                k <= legal.len(),
                legal@ == spec_board_legal_moves(*board),
                head == (match self.hashmv {
                    Some(h) => seq![(h, MoveScore::Hash)],
                    None => Seq::<(ChessMove, MoveScore)>::empty(),
                }),
                moves@ == head + spec_pick_entries(*board, legal@.take(k as int), self.hashmv, *state, self.pos.ply),
                stm == spec_board_side_to_move(*board),
                capture_targets == spec_board_colors(*board, stm.spec_flip()),
                counter == state.spec_counter_table(self.pos.ply, stm),
                followup == state.spec_followup_table(self.pos.ply, stm),
                forall|j: int| 0 <= j < legal@.len() ==> (#[trigger] legal@[j]).1.valid() && spec_board_is_legal(*board, legal@[j].1)
                    && legal@[j].1.promotion != Some(PieceKind::Pawn) && legal@[j].1.promotion != Some(PieceKind::King)
                    && spec_has(crate::chess::spec_board_pieces(*board, legal@[j].0), legal@[j].1.from),
                forall|j: int| 0 <= j < moves.len() ==> move_ok(*board, #[trigger] moves@[j].0),
                kings == has_kings(*board),
                state.wf(),
                counter matches Some(ContTable::Move(o)) ==> o + HISTORY_SIZE <= HISTORY_SIZE * HISTORY_SIZE,
                counter matches Some(ContTable::Null(o)) ==> o + HISTORY_SIZE <= 2 * HISTORY_SIZE,
                followup matches Some(ContTable::Move(o)) ==> o + HISTORY_SIZE <= HISTORY_SIZE * HISTORY_SIZE,
                followup matches Some(ContTable::Null(o)) ==> o + HISTORY_SIZE <= 2 * HISTORY_SIZE,
                self.hashmv is Some ==> moves.len() >= 1,
                self.hashmv matches Some(h) ==> moves@[0] == (h, MoveScore::Hash),
                forall|j: int| head.len() <= j < moves.len() ==> (#[trigger] moves@[j]).1 != MoveScore::Hash,
            decreases legal.len() - k,
        {
            let (piece, mv) = legal[k];
            proof {
                assert(legal@.take(k + 1).drop_last() =~= legal@.take(k as int));
                assert(legal@.take(k + 1).last() == (piece, mv));
            }
            k = k + 1;
            if self.hashmv == Some(mv) {
                continue;
            }
            let score = if bb_has(capture_targets, mv.to) {
                let victim = board_piece_on(board, mv.to);
                let attacker = board_piece_on(board, mv.from);
                if victim.is_none() || attacker.is_none() || !kings {
                    // a valid board has a piece on every occupied square and both kings
                    continue;
                }
                let see = static_exchange_eval(board, mv);
                let value = victim.unwrap().index() as i16 * 8 - piece.index() as i16;
                if see >= 0 {
                    MoveScore::GoodCapture(value)
                } else {
                    MoveScore::BadCapture(value)
                }
            } else {
                let idx = hist_index(stm, piece, mv.to);
                let mut score = state.history[idx];
                if let Some(t) = counter {
                    score = score.wrapping_add(state.cont_value(t, idx));
                }
                if let Some(t) = followup {
                    score = score.wrapping_add(state.cont_value(t, idx));
                }
                MoveScore::Quiet(score)
            };
            moves.push((mv, score));
            proof {
                assert(moves@ =~= head + spec_pick_entries(*board, legal@.take(k as int), self.hashmv, *state, self.pos.ply));
            }
        }
        proof {
            assert(legal@.take(k as int) =~= legal@);
        }
        let ghost before = moves@;
        sort_best_first(&mut moves);
        proof {
            broadcast use vstd::seq_lib::group_to_multiset_ensures;
            assert forall|j: int| 0 <= j < moves.len() implies move_ok(*board, #[trigger] moves@[j].0) by {
                assert(moves@.contains(moves@[j]));
                assert(moves@.to_multiset().count(moves@[j]) > 0);
                assert(before.to_multiset().count(moves@[j]) > 0);
                assert(before.contains(moves@[j]));
                let w = choose|x: int| 0 <= x < before.len() && before[x] == moves@[j];
                assert(move_ok(*board, before[w].0));
            }
            assert(moves@.len() == moves@.to_multiset().len());
            assert(before.len() == before.to_multiset().len());
            if let Some(h) = self.hashmv {
                // the hash entry is the only one scored `Hash`, and the best score sorts first
                assert(before.contains(before[0]));
                assert(moves@.to_multiset().count(before[0]) > 0);
                assert(moves@.contains(before[0]));
                let k0 = choose|x: int| 0 <= x < moves@.len() && moves@[x] == before[0];
                assert(not_worse(moves@[0].1, moves@[k0].1));
                assert(moves@[0].1 == MoveScore::Hash);
                assert(moves@.contains(moves@[0]));
                assert(before.to_multiset().count(moves@[0]) > 0);
                assert(before.contains(moves@[0]));
                let w = choose|x: int| 0 <= x < before.len() && before[x] == moves@[0];
                assert(w == 0);
            }
        }
        self.moves = moves;
        self.generated = true;
    }
}

/// The tables a history update writes to.
#[derive(Clone, Copy, Debug, PartialEq, Eq, Structural)]
pub enum HistoryVec {
    /// `history`
    Main,
    /// `cont_hist`
    Cont,
    /// `null_move_conthist`
    Null,
}

/// The move lands on an enemy piece.
pub open spec fn spec_is_capture(board: cozy_chess::Board, mv: ChessMove) -> bool {
    spec_has(spec_board_colors(board, spec_board_side_to_move(board).spec_flip()), mv.to)
}

/// The update of a continuation table, if `t` lives in the table `which`.
pub open spec fn cont_part(t: Option<ContTable>, which: HistoryVec, inc: bool, idx: int) -> Seq<HistoryUpdate> {
    match t {
        Some(ContTable::Move(o)) => if which == HistoryVec::Cont { seq![(inc, o + idx)] } else { seq![] },
        Some(ContTable::Null(o)) => if which == HistoryVec::Null { seq![(inc, o + idx)] } else { seq![] },
        None => seq![],
    }
}

/// The updates one move causes in the table `which`: its (side, piece, target) entry
/// in the main table, and in the counter-move and follow-up tables `c` and `f`.
pub open spec fn spec_entry_ups(
    board: cozy_chess::Board,
    mv: ChessMove,
    inc: bool,
    c: Option<ContTable>,
    f: Option<ContTable>,
    which: HistoryVec,
) -> Seq<HistoryUpdate> {
    match spec_piece_on(board, mv.from) {
        None => seq![],
        Some(p) => {
            let idx = spec_hist_index(spec_board_side_to_move(board), p, mv.to as int);
            if which == HistoryVec::Main {
                seq![(inc, idx)]
            } else {
                cont_part(c, which, inc, idx) + cont_part(f, which, inc, idx)
            }
        },
    }
}

/// The penalties for the quiet moves among `moves`, in order.
pub open spec fn spec_penalty_ups(
    board: cozy_chess::Board,
    moves: Seq<(ChessMove, MoveScore)>,
    c: Option<ContTable>,
    f: Option<ContTable>,
    which: HistoryVec,
) -> Seq<HistoryUpdate>
    decreases moves.len(),
{
    if moves.len() == 0 {
        seq![]
    } else {
        spec_penalty_ups(board, moves.drop_last(), c, f, which) + if spec_is_capture(board, moves.last().0) {
            seq![]
        } else {
            spec_entry_ups(board, moves.last().0, false, c, f, which)
        }
    }
}

/// What a cutoff by a quiet move teaches the table `which`: the quiet moves tried
/// before it are penalised, then the cutoff move is rewarded. A capture teaches nothing.
pub open spec fn spec_history_ups(
    board: cozy_chess::Board,
    tried: Seq<(ChessMove, MoveScore)>,
    cutoff: ChessMove,
    c: Option<ContTable>,
    f: Option<ContTable>,
    which: HistoryVec,
) -> Seq<HistoryUpdate> {
    if spec_is_capture(board, cutoff) {
        seq![]
    } else {
        spec_penalty_ups(board, tried, c, f, which) + spec_entry_ups(board, cutoff, true, c, f, which)
    }
}

/// The state after applying a move's updates to all three tables.
pub open spec fn tables_after(
    old: PrivateState,
    new: PrivateState,
    board: cozy_chess::Board,
    ups: spec_fn(HistoryVec) -> Seq<HistoryUpdate>,
    change: i32,
) -> bool {
    &&& new.history@ == spec_apply_history(old.history@, ups(HistoryVec::Main), change)
    &&& new.cont_hist@ == spec_apply_history(old.cont_hist@, ups(HistoryVec::Cont), change)
    &&& new.null_move_conthist@ == spec_apply_history(old.null_move_conthist@, ups(HistoryVec::Null), change)
    &&& new.move_stack@ == old.move_stack@
}

/// Rewards or penalises one move in all three tables.
fn update_move(
    state: &mut PrivateState,
    board: &cozy_chess::Board,
    mv: ChessMove,
    inc: bool,
    c: Option<ContTable>,
    f: Option<ContTable>,
    change: i32,
)
    requires
        old(state).wf(),
        mv.valid(),
        c matches Some(ContTable::Move(o)) ==> o + HISTORY_SIZE <= HISTORY_SIZE * HISTORY_SIZE,
        c matches Some(ContTable::Null(o)) ==> o + HISTORY_SIZE <= 2 * HISTORY_SIZE,
        f matches Some(ContTable::Move(o)) ==> o + HISTORY_SIZE <= HISTORY_SIZE * HISTORY_SIZE,
        f matches Some(ContTable::Null(o)) ==> o + HISTORY_SIZE <= 2 * HISTORY_SIZE,
    ensures
        final(state).wf(),
        tables_after(*old(state), *final(state), *board, |w: HistoryVec| spec_entry_ups(*board, mv, inc, c, f, w), change),
{
    let piece = match board_piece_on(board, mv.from) {
        Some(p) => p,
        None => {
            proof { reveal_with_fuel(spec_apply_history, 1); }
            return;
        },
    };
    let stm = board_side_to_move(board);
    let idx = hist_index(stm, piece, mv.to);
    let ghost s0 = *state;
    update_entry(&mut state.history, idx, inc, change);
    proof { lemma_apply_history_len(s0.history@, seq![(inc, idx as int)], change); }
    let ghost s1 = *state;
    if let Some(t) = c {
        state.update_cont(t, idx, inc, change);
    }
    let ghost s2 = *state;
    if let Some(t) = f {
        state.update_cont(t, idx, inc, change);
    }
    proof {
        let ci = idx as int;
        let cc = cont_part(c, HistoryVec::Cont, inc, ci);
        let cn = cont_part(c, HistoryVec::Null, inc, ci);
        let fc = cont_part(f, HistoryVec::Cont, inc, ci);
        let fn_ = cont_part(f, HistoryVec::Null, inc, ci);
        lemma_apply_history_concat(s0.cont_hist@, cc, fc, change);
        lemma_apply_history_concat(s0.null_move_conthist@, cn, fn_, change);
        assert(s1.cont_hist@ == s0.cont_hist@);
        assert(s1.null_move_conthist@ == s0.null_move_conthist@);
        assert(s2.cont_hist@ == spec_apply_history(s0.cont_hist@, cc, change));
        assert(s2.null_move_conthist@ == spec_apply_history(s0.null_move_conthist@, cn, change));
    }
}

/// Teaches the history tables from a cutoff: `picker` handed out `cutoff_move` last.
pub fn update_history(state: &mut PrivateState, picker: &MovePicker, cutoff_move: ChessMove, depth: i16)
    requires
        old(state).wf(),
        picker.wf(),
        picker.next >= 1,
        picker.pos.ply <= MAX_PLY,
        cutoff_move.valid(),
    ensures
        final(state).wf(),
        ({
            let board = picker.pos.board;
            let stm = spec_board_side_to_move(board);
            let c = old(state).spec_counter_table(picker.pos.ply, stm);
            let f = old(state).spec_followup_table(picker.pos.ply, stm);
            let tried = picker.moves@.take(picker.next - 1);
            tables_after(*old(state), *final(state), board,
                |w: HistoryVec| spec_history_ups(board, tried, cutoff_move, c, f, w), (depth * depth) as i32)
        }),
{
    let d = depth as i32;
    assert(d * d <= 32768 * 32768) by (nonlinear_arith)
        requires -32768 <= d <= 32767;
    assert(d * d >= 0) by (nonlinear_arith);
    let change: i32 = d * d;
    let board = &picker.pos.board;
    let stm = board_side_to_move(board);
    let c = state.cont_table(picker.pos.ply, 1, stm.flip());
    let f = state.cont_table(picker.pos.ply, 2, stm);
    let ghost s0 = *state;
    let captures = board_colors(board, stm.flip());
    if bb_has(captures, cutoff_move.to) {
        proof { reveal_with_fuel(spec_apply_history, 1); }
        return;
    }
    let n = picker.next - 1;
    let mut k: usize = 0;
    while k < n
        invariant
            k <= n,
            n == picker.next - 1,
            picker.wf(),
            n <= picker.moves.len(),
            state.wf(),
            captures == spec_board_colors(*board, stm.spec_flip()),
            stm == spec_board_side_to_move(*board),
            c matches Some(ContTable::Move(o)) ==> o + HISTORY_SIZE <= HISTORY_SIZE * HISTORY_SIZE,
            c matches Some(ContTable::Null(o)) ==> o + HISTORY_SIZE <= 2 * HISTORY_SIZE,
            f matches Some(ContTable::Move(o)) ==> o + HISTORY_SIZE <= HISTORY_SIZE * HISTORY_SIZE,
            f matches Some(ContTable::Null(o)) ==> o + HISTORY_SIZE <= 2 * HISTORY_SIZE,
            tables_after(s0, *state, *board,
                |w: HistoryVec| spec_penalty_ups(*board, picker.moves@.take(k as int), c, f, w), change),
        decreases n - k,
    {
        let mv = picker.moves[k].0;
        let ghost sk = *state;
        let ghost prefix = picker.moves@.take(k as int);
        assert(picker.moves@.take(k + 1).drop_last() =~= prefix);
        if !bb_has(captures, mv.to) {
            update_move(state, board, mv, false, c, f, change);
            proof {
                let e = |w: HistoryVec| spec_entry_ups(*board, mv, false, c, f, w);
                lemma_apply_history_concat(s0.history@, spec_penalty_ups(*board, prefix, c, f, HistoryVec::Main), e(HistoryVec::Main), change);
                lemma_apply_history_concat(s0.cont_hist@, spec_penalty_ups(*board, prefix, c, f, HistoryVec::Cont), e(HistoryVec::Cont), change);
                lemma_apply_history_concat(s0.null_move_conthist@, spec_penalty_ups(*board, prefix, c, f, HistoryVec::Null), e(HistoryVec::Null), change);
            }
        } else {
            proof {
                assert(spec_penalty_ups(*board, prefix, c, f, HistoryVec::Main) + seq![] =~= spec_penalty_ups(*board, prefix, c, f, HistoryVec::Main));
                assert(spec_penalty_ups(*board, prefix, c, f, HistoryVec::Cont) + seq![] =~= spec_penalty_ups(*board, prefix, c, f, HistoryVec::Cont));
                assert(spec_penalty_ups(*board, prefix, c, f, HistoryVec::Null) + seq![] =~= spec_penalty_ups(*board, prefix, c, f, HistoryVec::Null));
            }
        }
        k = k + 1;
    }
    let ghost sn = *state;
    update_move(state, board, cutoff_move, true, c, f, change);
    proof {
        let tried = picker.moves@.take(n as int);
        let e = |w: HistoryVec| spec_entry_ups(*board, cutoff_move, true, c, f, w);
        lemma_apply_history_concat(s0.history@, spec_penalty_ups(*board, tried, c, f, HistoryVec::Main), e(HistoryVec::Main), change);
        lemma_apply_history_concat(s0.cont_hist@, spec_penalty_ups(*board, tried, c, f, HistoryVec::Cont), e(HistoryVec::Cont), change);
        lemma_apply_history_concat(s0.null_move_conthist@, spec_penalty_ups(*board, tried, c, f, HistoryVec::Null), e(HistoryVec::Null), change);
    }
}

} // verus!
