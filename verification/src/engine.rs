//! The NNUE engine's front end: the position to search, the game so far for
//! repetition detection, and iterative deepening under a time constraint.
use vstd::prelude::*;
use core::ops::ControlFlow;
use crate::chess::{
    ChessMove, board_clone, board_halfmove_clock, board_hash, board_play_unchecked,
    board_same_position, invalid_move, spec_board_halfmove_clock, spec_board_hash,
    spec_board_is_legal, spec_board_legal_moves, spec_board_play, spec_board_same_position,
};
use crate::eval::Eval;
use crate::nnue::Nnue;
use crate::search::state::{MAX_PLY, PrivateState};
use crate::search::{Searcher, Statistics, elapsed_nanos, score_ok};
use crate::search::picker::spec_all_playable;
use crate::time::{SearchInfo, TimeConstraint, TimeManager, time_fits};
use crate::tt::{ENTRIES_PER_MB, TranspositionTable};

verus! {

/// The boards of a game line: `start`, then the board after each move in turn.
pub open spec fn spec_line(start: cozy_chess::Board, moves: Seq<ChessMove>) -> Seq<cozy_chess::Board>
    decreases moves.len(),
{
    if moves.len() == 0 {
        seq![start]
    } else {
        let l = spec_line(start, moves.drop_last());
        l.push(spec_board_play(l.last(), moves.last()))
    }
}

/// Every move of the line is legal where it is played.
pub open spec fn line_legal(start: cozy_chess::Board, moves: Seq<ChessMove>) -> bool {
    forall|k: int| 0 <= k < moves.len() ==> (#[trigger] moves[k]).valid() && spec_board_is_legal(spec_line(start, moves)[k], moves[k])
}

/// The last board at or before index `n` whose halfmove clock is zero (an irreversible
/// move was just played), or the start.
pub open spec fn last_reset(line: Seq<cozy_chess::Board>, n: int) -> int
    decreases n,
{
    if n <= 0 {
        0
    } else if spec_board_halfmove_clock(line[n]) == 0 {
        n
    } else {
        last_reset(line, n - 1)
    }
}

/// The hashes of the boards `line[s..k]`.
pub open spec fn hashes(line: Seq<cozy_chess::Board>, s: int, k: int) -> Seq<u64> {
    line.subrange(s, k).map_values(|b: cozy_chess::Board| spec_board_hash(b))
}

/// How often `h` occurs in `w`.
pub open spec fn occurrences(w: Seq<u64>, h: u64) -> nat
    decreases w.len(),
{
    if w.len() == 0 {
        0
    } else {
        occurrences(w.drop_last(), h) + if w.last() == h { 1nat } else { 0nat }
    }
}

/// The distinct values of `w`, in the order of their first occurrence.
pub open spec fn distinct_firsts(w: Seq<u64>) -> Seq<u64>
    decreases w.len(),
{
    if w.len() == 0 {
        seq![]
    } else {
        let d = distinct_firsts(w.drop_last());
        if d.contains(w.last()) { d } else { d.push(w.last()) }
    }
}

/// The game history the search checks repetitions against: the positions since the
/// last irreversible move that occurred more than once before the final position
/// (first occurrence first), then the final position.
pub open spec fn spec_prehistory(line: Seq<cozy_chess::Board>) -> Seq<u64> {
    let n = line.len() - 1;
    let w = hashes(line, last_reset(line, n), n);
    distinct_firsts(w).filter(repeated_in(w)).push(spec_board_hash(line[n]))
}

/// Moves played since the line last passed through `old`, counting 3 when it never
/// did, and capped at 3.
pub open spec fn spec_since(line: Seq<cozy_chess::Board>, old: cozy_chess::Board, n: int) -> int
    decreases n,
{
    if spec_board_same_position(line[n], old) {
        0
    } else if n <= 0 {
        3
    } else {
        let s = spec_since(line, old, n - 1) + 1;
        if s < 3 { s } else { 3 }
    }
}

/// How far to age the transposition table: not at all when the new position is the
/// old one, one step when it is one or two moves on, two steps otherwise.
pub open spec fn spec_age_inc(since: int) -> u8 {
    if since == 0 { 0 } else if since <= 2 { 1 } else { 2 }
}

/// The hash of a counted entry.
pub open spec fn entry_hash() -> spec_fn((u64, usize)) -> u64 {
    |e: (u64, usize)| e.0
}

/// What the engine keeps per hash: occurrence counts in first-occurrence order.
pub open spec fn counts_match(occ: Seq<(u64, usize)>, w: Seq<u64>) -> bool {
    &&& occ.map_values(entry_hash()) == distinct_firsts(w)
    &&& forall|i: int| 0 <= i < occ.len() ==> (#[trigger] occ[i]).1 == occurrences(w, occ[i].0)
}

proof fn lemma_push_contains(s: Seq<u64>, x: u64, h: u64)
    ensures
        s.push(x).contains(h) <==> (s.contains(h) || x == h),
{
    if s.contains(h) {
        let i = choose|i: int| 0 <= i < s.len() && s[i] == h;
        assert(s.push(x)[i] == h);
    }
    if x == h {
        assert(s.push(x)[s.len() as int] == h);
    }
    if s.push(x).contains(h) {
        let i = choose|i: int| 0 <= i < s.push(x).len() && s.push(x)[i] == h;
        if i < s.len() {
            assert(s[i] == h);
        }
    }
}

proof fn lemma_distinct_contains(w: Seq<u64>, h: u64)
    ensures
        distinct_firsts(w).contains(h) <==> w.contains(h),
    decreases w.len(),
{
    if w.len() > 0 {
        let p = w.drop_last();
        let x = w.last();
        lemma_distinct_contains(p, h);
        lemma_distinct_contains(p, x);
        assert(w =~= p.push(x));
        lemma_push_contains(p, x, h);
        lemma_push_contains(distinct_firsts(p), x, h);
    }
}

proof fn lemma_distinct_unique(w: Seq<u64>)
    ensures
        distinct_firsts(w).no_duplicates(),
    decreases w.len(),
{
    if w.len() > 0 {
        let p = w.drop_last();
        let d = distinct_firsts(p);
        lemma_distinct_unique(p);
        if !d.contains(w.last()) {
            assert forall|i: int, j: int| 0 <= i < j < d.push(w.last()).len() implies d.push(w.last())[i] != d.push(w.last())[j] by {
                if j == d.len() {
                    if d[i] == w.last() {
                        assert(d.contains(w.last()));
                    }
                }
            }
        }
    }
}

/// The hashes that occur more than once in `w`.
pub open spec fn repeated_in(w: Seq<u64>) -> spec_fn(u64) -> bool {
    |h: u64| occurrences(w, h) > 1
}

proof fn lemma_occurrences_bound(w: Seq<u64>, h: u64)
    ensures
        occurrences(w, h) <= w.len(),
    decreases w.len(),
{
    if w.len() > 0 {
        lemma_occurrences_bound(w.drop_last(), h);
    }
}

/// Counts one more occurrence of `h`.
fn record(occ: &mut Vec<(u64, usize)>, h: u64, Ghost(w): Ghost<Seq<u64>>)
    requires
        counts_match(old(occ)@, w),
        w.len() < usize::MAX,
    ensures
        counts_match(final(occ)@, w.push(h)),
{
    proof {
        assert(w.push(h).drop_last() =~= w);
        lemma_distinct_contains(w, h);
    }
    let mut i: usize = 0;
    while i < occ.len()
        invariant
            i <= occ.len(),
            occ@ == old(occ)@,
            counts_match(occ@, w),
            w.len() < usize::MAX,
            forall|j: int| 0 <= j < i ==> occ@[j].0 != h,
            w.push(h).drop_last() == w,
        decreases occ.len() - i,
    {
        if occ[i].0 == h {
            let c = occ[i].1;
            proof {
                lemma_occurrences_bound(w, h);
                lemma_distinct_contains(w, h);
                lemma_distinct_unique(w);
            }
            occ.set(i, (h, c + 1));
            proof {
                let m = entry_hash();
                assert(old(occ)@.map_values(m)[i as int] == h);
                assert(distinct_firsts(w).contains(h));
                assert(w.contains(h));
                assert(occ@.map_values(m) =~= old(occ)@.map_values(m));
                assert(distinct_firsts(w.push(h)) == distinct_firsts(w));
                assert forall|j: int| 0 <= j < occ@.len() implies (#[trigger] occ@[j]).1 == occurrences(w.push(h), occ@[j].0) by {
                    if j != i {
                        assert(occ@[j] == old(occ)@[j]);
                        assert(old(occ)@.map_values(m)[j] == distinct_firsts(w)[j]);
                        assert(distinct_firsts(w)[j] != distinct_firsts(w)[i as int]);
                    }
                }
            }
            return;
        }
        i = i + 1;
    }
    occ.push((h, 1));
    proof {
        let m = entry_hash();
        assert(!old(occ)@.map_values(m).contains(h)) by {
            if old(occ)@.map_values(m).contains(h) {
                let j = choose|j: int| 0 <= j < old(occ)@.map_values(m).len() && old(occ)@.map_values(m)[j] == h;
                assert(old(occ)@[j].0 == h);
            }
        }
        assert(occ@.map_values(m) =~= old(occ)@.map_values(m).push(h));
        assert(!w.contains(h));
        assert forall|j: int| 0 <= j < occ@.len() implies (#[trigger] occ@[j]).1 == occurrences(w.push(h), occ@[j].0) by {
            if j < old(occ)@.len() {
                assert(occ@[j] == old(occ)@[j]);
            } else {
                assert(occurrences(w, h) == 0) by {
                    lemma_occurrences_zero(w, h);
                }
            }
        }
    }
}

proof fn lemma_occurrences_zero(w: Seq<u64>, h: u64)
    requires
        !w.contains(h),
    ensures
        occurrences(w, h) == 0,
    decreases w.len(),
{
    if w.len() > 0 {
        assert(!w.drop_last().contains(h)) by {
            if w.drop_last().contains(h) {
                let i = choose|i: int| 0 <= i < w.drop_last().len() && w.drop_last()[i] == h;
                assert(w[i] == h);
            }
        }
        lemma_occurrences_zero(w.drop_last(), h);
        assert(w[w.len() - 1] != h);
    }
}

pub proof fn lemma_line_step(start: cozy_chess::Board, moves: Seq<ChessMove>, k: int)
    requires
        0 <= k < moves.len(),
    ensures
        spec_line(start, moves).len() == moves.len() + 1,
        spec_line(start, moves)[k + 1] == spec_board_play(spec_line(start, moves)[k], moves[k]),
        spec_line(start, moves)[0] == start,
    decreases moves.len(),
{
    lemma_line_len(start, moves);
    if k < moves.len() - 1 {
        lemma_line_step(start, moves.drop_last(), k);
        lemma_line_len(start, moves.drop_last());
    } else {
        lemma_line_len(start, moves.drop_last());
    }
    if moves.len() > 1 {
        lemma_line_step(start, moves.drop_last(), 0);
    }
}

pub proof fn lemma_line_len(start: cozy_chess::Board, moves: Seq<ChessMove>)
    ensures
        spec_line(start, moves).len() == moves.len() + 1,
        spec_line(start, moves)[0] == start,
    decreases moves.len(),
{
    if moves.len() > 0 {
        lemma_line_len(start, moves.drop_last());
    }
}

/// Extending a legal line by a legal move keeps it legal and ends where the move
/// leads.
pub proof fn lemma_line_extend(start: cozy_chess::Board, moves: Seq<ChessMove>, mv: ChessMove)
    requires
        line_legal(start, moves),
        mv.valid(),
        spec_board_is_legal(spec_line(start, moves).last(), mv),
    ensures
        line_legal(start, moves.push(mv)),
        spec_line(start, moves.push(mv)).last() == spec_board_play(spec_line(start, moves).last(), mv),
{
    let m2 = moves.push(mv);
    assert(m2.drop_last() =~= moves);
    lemma_line_len(start, moves);
    assert forall|k: int| 0 <= k < m2.len() implies (#[trigger] m2[k]).valid() && spec_board_is_legal(spec_line(start, m2)[k], m2[k]) by {
        if k < moves.len() {
            assert(m2[k] == moves[k]);
            assert(spec_line(start, m2)[k] == spec_line(start, moves)[k]);
        }
    }
}

/// Plays `moves` on `board` and works out the repetition history and how far to age
/// the table, relative to the previously searched position `previous`.
fn update_position(board: &mut cozy_chess::Board, prehistory: &mut Vec<u64>, previous: &cozy_chess::Board, moves: &Vec<ChessMove>) -> (r: u8)
    requires
        line_legal(*old(board), moves@),
    ensures
        *final(board) == spec_line(*old(board), moves@).last(),
        final(prehistory)@ == spec_prehistory(spec_line(*old(board), moves@)),
        r == spec_age_inc(spec_since(spec_line(*old(board), moves@), *previous, moves@.len() as int)),
{
    let ghost line = spec_line(*board, moves@);
    proof {
        lemma_line_len(*board, moves@);
    }
    let mut since: u8 = 3;
    if board_same_position(board, previous) {
        since = 0;
    }
    let mut occ: Vec<(u64, usize)> = Vec::new();
    let mut k: usize = 0;
    proof {
        assert(hashes(line, 0, 0) =~= Seq::<u64>::empty());
        assert(occ@.map_values(entry_hash()) =~= Seq::<u64>::empty());
    }
    while k < moves.len()
        invariant
            k <= moves.len(),
            line == spec_line(*old(board), moves@),
            line.len() == moves.len() + 1,
            line_legal(*old(board), moves@),
            *board == line[k as int],
            since == spec_since(line, *previous, k as int),
            counts_match(occ@, hashes(line, last_reset(line, k as int), k as int)),
        decreases moves.len() - k,
    {
        let ghost s = last_reset(line, k as int);
        since = if since < 3 { since + 1 } else { 3 };
        proof {
            lemma_reset_le(line, k as int);
            assert(hashes(line, s, k + 1) =~= hashes(line, s, k as int).push(spec_board_hash(line[k as int])));
        }
        record(&mut occ, board_hash(board), Ghost(hashes(line, s, k as int)));
        let mv = moves[k];
        proof {
            lemma_line_step(*old(board), moves@, k as int);
        }
        board_play_unchecked(board, mv);
        if board_halfmove_clock(board) == 0 {
            occ.clear();
            proof {
                assert(hashes(line, k + 1, k + 1) =~= Seq::<u64>::empty());
                assert(occ@.map_values(entry_hash()) =~= Seq::<u64>::empty());
            }
        }
        if board_same_position(board, previous) {
            since = 0;
        }
        k = k + 1;
    }
    prehistory.clear();
    let ghost w = hashes(line, last_reset(line, k as int), k as int);
    let mut i: usize = 0;
    while i < occ.len()
        invariant
            i <= occ.len(),
            counts_match(occ@, w),
            prehistory@ == occ@.take(i as int).map_values(entry_hash()).filter(repeated_in(w)),
        decreases occ.len() - i,
    {
        let (h, c) = occ[i];
        if c > 1 {
            prehistory.push(h);
        }
        proof {
            let m = entry_hash();
            let t = occ@.take(i + 1).map_values(m);
            assert(t.drop_last() =~= occ@.take(i as int).map_values(m));
            assert(t.last() == h);
            assert(repeated_in(w)(h) == (c > 1));
            reveal(Seq::filter);
            assert(t.filter(repeated_in(w)) == (if repeated_in(w)(t.last()) {
                t.drop_last().filter(repeated_in(w)).push(t.last())
            } else {
                t.drop_last().filter(repeated_in(w))
            }));
            assert(prehistory@ == t.filter(repeated_in(w)));
        }
        i = i + 1;
    }
    proof {
        assert(occ@.take(i as int) =~= occ@);
    }
    prehistory.push(board_hash(board));
    if since == 0 {
        0
    } else if since <= 2 {
        1
    } else {
        2
    }
}

proof fn lemma_reset_le(line: Seq<cozy_chess::Board>, n: int)
    requires
        n >= 0,
    ensures
        0 <= last_reset(line, n) <= n,
    decreases n,
{
    if n > 0 {
        lemma_reset_le(line, n - 1);
    }
}

/// The NNUE engine: the position to search, the game that led to it, and the tables
/// that persist between searches.
pub struct Frozenight {
    board: cozy_chess::Board,
    prehistory: Vec<u64>,
    tt: TranspositionTable,
    stats: Statistics,
    state: PrivateState,
    net: Nnue,
    /// What the latest search reported, in order.
    reports: Ghost<Seq<SearchInfo>>,
}

impl Frozenight {
    /// The reports the latest search handed to its `info` callback, in order.
    pub closed spec fn spec_reports(&self) -> Seq<SearchInfo> {
        self.reports@
    }

    /// The position searched next.
    pub closed spec fn spec_board(&self) -> cozy_chess::Board {
        self.board
    }

    /// The repetition history of that position.
    pub closed spec fn spec_prehistory(&self) -> Seq<u64> {
        self.prehistory@
    }

    /// The transposition table's slots.
    pub closed spec fn table(&self) -> Seq<crate::tt::TtEntry> {
        self.tt.view()
    }

    /// The transposition table's age stamp.
    pub closed spec fn table_age(&self) -> u8 {
        self.tt.age()
    }

    /// The history tables.
    pub closed spec fn history_state(&self) -> PrivateState {
        self.state
    }

    /// The tables are usable and the network well formed.
    pub closed spec fn wf(&self) -> bool {
        &&& self.net.wf()
        &&& self.tt.view().len() > 0
        &&& self.tt.wf()
        &&& self.state.wf()
    }

    /// An engine with network `net` and a table of `hash_mb` megabytes, at the
    /// starting position.
    pub fn new(net: Nnue, hash_mb: usize) -> (r: Self)
        requires
            net.wf(),
            1 <= hash_mb,
            hash_mb * ENTRIES_PER_MB <= usize::MAX,
        ensures
            r.wf(),
            r.spec_prehistory().len() == 0,
            r.table().len() == hash_mb * ENTRIES_PER_MB,
            r.table_age() == 0,
    {
        let tt = TranspositionTable::new(hash_mb);
        proof {
            assert(tt.view().len() == hash_mb * ENTRIES_PER_MB);
            vstd::arithmetic::mul::lemma_mul_increases(ENTRIES_PER_MB as int, hash_mb as int);
        }
        Frozenight {
            board: crate::chess::board_startpos(),
            prehistory: Vec::new(),
            tt,
            stats: Statistics { selective_depth: 0, nodes: 0 },
            state: PrivateState::new(),
            net,
            reports: Ghost(Seq::empty()),
        }
    }

    pub fn board(&self) -> (r: &cozy_chess::Board)
        ensures
            *r == self.spec_board(),
    {
        &self.board
    }

    /// Forgets what was learned in the last game: fresh history tables, and the table
    /// aged two steps so its entries give way.
    pub fn new_game(&mut self)
        requires
            old(self).wf(),
        ensures
            final(self).wf(),
            final(self).spec_board() == old(self).spec_board(),
            final(self).spec_prehistory() == old(self).spec_prehistory(),
            final(self).table() == old(self).table(),
            final(self).table_age() == crate::tt::wrapping_add_u8(old(self).table_age(), 2),
            final(self).history_state().history@ == Seq::new(crate::search::state::HISTORY_SIZE as nat, |_i: int| 0i16),
    {
        self.state = PrivateState::new();
        self.tt.increment_age(2);
    }

    /// Sets the position to `position` with `moves` played from it, remembering the
    /// repeated positions of the game and aging the table by how far the game moved on
    /// from the previous position.
    pub fn set_position(&mut self, position: cozy_chess::Board, moves: &Vec<ChessMove>)
        requires
            old(self).wf(),
            line_legal(position, moves@),
        ensures
            final(self).wf(),
            final(self).spec_board() == spec_line(position, moves@).last(),
            final(self).spec_prehistory() == spec_prehistory(spec_line(position, moves@)),
            final(self).table() == old(self).table(),
            final(self).table_age() == crate::tt::wrapping_add_u8(
                old(self).table_age(),
                spec_age_inc(spec_since(spec_line(position, moves@), old(self).spec_board(), moves@.len() as int)),
            ),
    {
        let mut new = position;
        let age_inc = update_position(&mut new, &mut self.prehistory, &self.board, moves);
        self.board = new;
        self.tt.increment_age(age_inc);
    }

    /// Replaces the table by an empty one of `hash_mb` megabytes.
    pub fn set_hash(&mut self, hash_mb: usize)
        requires
            old(self).wf(),
            1 <= hash_mb,
            hash_mb * ENTRIES_PER_MB <= usize::MAX,
        ensures
            final(self).wf(),
            final(self).spec_board() == old(self).spec_board(),
            final(self).spec_prehistory() == old(self).spec_prehistory(),
            final(self).table().len() == hash_mb * ENTRIES_PER_MB,
            final(self).table_age() == 0,
    {
        self.tt = TranspositionTable::new(1);
        self.tt = TranspositionTable::new(hash_mb);
        proof {
            vstd::arithmetic::mul::lemma_mul_increases(ENTRIES_PER_MB as int, hash_mb as int);
        }
    }

    /// Iterative deepening under `time`: searches depth 1, 2, ... (up to the depth
    /// limit, and at most `MAX_PLY`: the search keeps one stack entry per ply, and a
    /// deeper iteration would run past the stack's 512 entries), reports each completed
    /// iteration to `info`, and
    /// stops when the node limit or hard deadline cuts an iteration short or the time
    /// manager says so. Returns the last completed iteration (depth 0, no move, when
    /// none completed); the first iteration never aborts, so a root whose legal moves
    /// can all be searched always completes it.
    pub fn search<F: Fn(&SearchInfo)>(&mut self, time: TimeConstraint, info: F) -> (r: SearchInfo)
        requires
            old(self).wf(),
            time_fits(time),
            time.depth >= 1 ==> spec_board_legal_moves(old(self).spec_board()).len() > 0,
            forall|i: SearchInfo| call_requires(info, (&i,)),
        ensures
            final(self).wf(),
            final(self).spec_board() == old(self).spec_board(),
            final(self).spec_prehistory() == old(self).spec_prehistory(),
            r.depth == 0 ==> r.eval.0 == 0 && r.nodes == 0 && r.selective_depth == 0
                && r.best_move == crate::chess::spec_invalid_move() && r.pv@.len() == 0,
            r.depth != 0 ==> {
                &&& 1 <= r.depth <= time.depth
                &&& r.depth <= MAX_PLY
                &&& spec_board_is_legal(old(self).spec_board(), r.best_move)
                &&& r.best_move.valid()
                &&& score_ok(r.eval, 0)
                &&& r.pv@.len() <= r.depth + 1
            },
            time.depth >= 1 && spec_all_playable(old(self).spec_board()) ==> r.depth >= 1,
            final(self).spec_reports().len() == r.depth,
            forall|i: int| 0 <= i < final(self).spec_reports().len() ==> (#[trigger] final(self).spec_reports()[i]).depth == i + 1,
            r.depth >= 1 ==> r == final(self).spec_reports().last(),
    {
        let start = crate::search::instant_now();
        let mut recent = SearchInfo {
            eval: Eval::draw(),
            nodes: 0,
            depth: 0,
            selective_depth: 0,
            best_move: invalid_move(),
            pv: Vec::new(),
        };
        let mut tm = TimeManager::new(&self.board, time);
        self.stats.clear();
        let mut tt = TranspositionTable::new(0);
        core::mem::swap(&mut tt, &mut self.tt);
        let mut state = PrivateState {
            history: Vec::new(),
            cont_hist: Vec::new(),
            null_move_conthist: Vec::new(),
            move_stack: Vec::new(),
        };
        core::mem::swap(&mut state, &mut self.state);
        let mut searcher = Searcher::new(
            &self.board,
            &self.net,
            tt,
            state,
            self.stats,
            &self.prehistory,
            time.nodes,
            start,
            tm.deadline(),
        );
        let max_depth: i16 = if time.depth < 512 { time.depth } else { 512 };
        let mut prev_eval = Eval::draw();
        let mut depth: i16 = 1;
        let ghost mut log: Seq<SearchInfo> = Seq::empty();
        while depth <= max_depth
            invariant_except_break
                searcher.is_valid(),
                recent.depth == depth - 1,
            invariant
                searcher.wf(),
                searcher.root == &self.board,
                max_depth <= time.depth,
                max_depth <= MAX_PLY,
                1 <= depth,
                max_depth >= 1 ==> depth <= max_depth + 1,
                max_depth >= 1 ==> spec_board_legal_moves(self.board).len() > 0,
                recent.depth == 0 ==> recent.eval.0 == 0 && recent.nodes == 0 && recent.selective_depth == 0
                    && recent.best_move == crate::chess::spec_invalid_move() && recent.pv@.len() == 0,
                recent.depth != 0 ==> {
                    &&& 1 <= recent.depth <= depth
                    &&& recent.depth <= max_depth
                    &&& spec_board_is_legal(self.board, recent.best_move)
                    &&& recent.best_move.valid()
                    &&& score_ok(recent.eval, 0)
                    &&& recent.pv@.len() <= recent.depth + 1
                },
                forall|i: SearchInfo| call_requires(info, (&i,)),
                log.len() == recent.depth,
                forall|i: int| 0 <= i < log.len() ==> (#[trigger] log[i]).depth == i + 1,
                recent.depth >= 1 ==> recent == log.last(),
            ensures
                max_depth >= 1 && spec_all_playable(self.board) ==> recent.depth >= 1,
            decreases max_depth + 1 - depth,
        {
            let (eval, mv) = match searcher.search(depth, prev_eval) {
                Some(v) => v,
                None => break,
            };
            let pv = searcher.extract_pv(depth);
            proof {
                crate::search::lemma_pv_len(searcher.tt.view(), self.board, (depth + 1) as nat);
            }
            recent = SearchInfo {
                eval,
                depth,
                selective_depth: searcher.stats.selective_depth,
                nodes: searcher.stats.nodes,
                best_move: mv,
                pv,
            };
            info(&recent);
            proof {
                log = log.push(recent);
            }
            let now = elapsed_nanos(&searcher.start);
            match tm.update(&recent, now) {
                ControlFlow::Break(()) => break,
                ControlFlow::Continue(()) => {},
            }
            prev_eval = eval;
            depth = depth + 1;
        }
        let Searcher { tt, state, stats, .. } = searcher;
        self.tt = tt;
        self.state = state;
        self.stats = stats;
        self.reports = Ghost(log);
        recent
    }
}

} // verus!
