//! The first, minimal engine: a plain alpha-beta search to a fixed depth whose leaves
//! score randomly, with the positions repeated in the game treated as draws.
use vstd::prelude::*;
use crate::chess::{
    ChessMove, GameStatus, board_clone, board_hash, board_legal_moves, board_play_unchecked,
    board_status, spec_board_hash, spec_board_is_legal, spec_board_legal_moves, spec_board_play,
    spec_board_status,
};
use crate::engine::{line_legal, spec_line};
use crate::eval::{Eval, MATE, MAX_INCONCLUSIVE};
use crate::search::Statistics;
use crate::random::random_below;

verus! {

#[verifier::external_type_specification]
#[verifier::external_body]
#[verifier::reject_recursive_types(H)]
pub struct ExBuildHasherDefault<H>(core::hash::BuildHasherDefault<H>);

#[verifier::external_type_specification]
#[verifier::external_body]
#[verifier::reject_recursive_types(T)]
pub struct ExNoHashHasher<T>(nohash::NoHashHasher<T>);

/// Calls `IntSet::default`: an empty set.
#[verifier::external_body]
fn int_set_new() -> (r: nohash::IntSet<u64>)
    ensures
        r@ == Set::<u64>::empty(),
{
    nohash::IntSet::default()
}

/// Calls `HashSet::insert` on an `IntSet`: adds `h`, answering whether it was new.
#[verifier::external_body]
fn int_set_insert(s: &mut nohash::IntSet<u64>, h: u64) -> (r: bool)
    ensures
        final(s)@ == old(s)@.insert(h),
        r == !old(s)@.contains(h),
{
    s.insert(h)
}

/// Calls `HashSet::remove` on an `IntSet`.
#[verifier::external_body]
fn int_set_remove(s: &mut nohash::IntSet<u64>, h: u64)
    ensures
        final(s)@ == old(s)@.remove(h),
{
    s.remove(&h);
}

/// Calls `HashSet::clone` on an `IntSet`: an equal set.
#[verifier::external_body]
fn int_set_clone(s: &nohash::IntSet<u64>) -> (r: nohash::IntSet<u64>)
    ensures
        r@ == s@,
{
    s.clone()
}

/// How often each position occurred.
pub type PositionCounts = nohash::IntMap<u64, usize>;

/// Calls `IntMap::default`: an empty map.
#[verifier::external_body]
fn int_map_new() -> (r: PositionCounts)
    ensures
        r@.dom() == Set::<u64>::empty(),
{
    nohash::IntMap::default()
}

/// Calls `HashMap::get` on an `IntMap`.
#[verifier::external_body]
fn int_map_get(m: &PositionCounts, k: u64) -> (r: Option<usize>)
    ensures
        r == (if m@.contains_key(k) { Some(m@[k]) } else { None }),
{
    m.get(&k).copied()
}

/// Calls `HashMap::insert` on an `IntMap`.
#[verifier::external_body]
fn int_map_insert(m: &mut PositionCounts, k: u64, v: usize)
    ensures
        final(m)@ == old(m)@.insert(k, v),
{
    m.insert(k, v);
}

/// Calls `HashMap::iter` on an `IntMap` and lists its entries, each key once, in the
/// map's iteration order (which the contract leaves open).
#[verifier::external_body]
fn int_map_entries(m: &PositionCounts) -> (r: Vec<(u64, usize)>)
    ensures
        forall|i: int| 0 <= i < r@.len() ==> m@.contains_key((#[trigger] r@[i]).0) && m@[r@[i].0] == r@[i].1,
        forall|k: u64| m@.contains_key(k) ==> exists|i: int| 0 <= i < r@.len() && (#[trigger] r@[i]).0 == k,
{
    m.iter().map(|(&k, &v)| (k, v)).collect()
}

/// Calls `AtomicBool::load` (relaxed): whether the flag is set. Another thread may
/// set it at any time, so nothing is promised.
#[verifier::external_body]
fn flag_is_set(flag: &std::sync::atomic::AtomicBool) -> bool {
    flag.load(std::sync::atomic::Ordering::Relaxed)
}

/// How often `h` occurs in `s`.
pub open spec fn count_of(s: Seq<u64>, h: u64) -> nat
    decreases s.len(),
{
    if s.len() == 0 {
        0
    } else {
        count_of(s.drop_last(), h) + if s.last() == h { 1nat } else { 0nat }
    }
}

/// The hashes of a line of boards.
pub open spec fn line_hashes(line: Seq<cozy_chess::Board>) -> Seq<u64> {
    line.map_values(|b: cozy_chess::Board| spec_board_hash(b))
}

/// The positions that occurred more than once in a game.
pub open spec fn spec_repeated(hashes: Seq<u64>) -> Set<u64> {
    Set::new(|h: u64| count_of(hashes, h) > 1)
}

/// The leaf evaluation: a random inconclusive score.
pub fn static_eval(_board: &cozy_chess::Board) -> (r: Eval)
    ensures
        -MAX_INCONCLUSIVE <= r.0 <= MAX_INCONCLUSIVE,
{
    let offset = random_below(2 * (MAX_INCONCLUSIVE as usize) + 1);
    Eval::new((offset as i32 - MAX_INCONCLUSIVE as i32) as i16)
}

/// The minimal engine: the position to search and the positions the game repeated.
pub struct Frozenight {
    board: cozy_chess::Board,
    history: nohash::IntSet<u64>,
}

impl Frozenight {
    pub closed spec fn spec_board(&self) -> cozy_chess::Board {
        self.board
    }

    pub closed spec fn spec_history(&self) -> Set<u64> {
        self.history@
    }

    /// At the starting position, with no game history.
    pub fn new() -> (r: Self)
        ensures
            r.spec_history() == Set::<u64>::empty(),
    {
        Frozenight { board: crate::chess::board_startpos(), history: int_set_new() }
    }

    pub fn board(&self) -> (r: &cozy_chess::Board)
        ensures
            *r == self.spec_board(),
    {
        &self.board
    }

    /// The positions the game repeated, for a searcher.
    pub fn history(&self) -> (r: &nohash::IntSet<u64>)
        ensures
            r@ == self.spec_history(),
    {
        &self.history
    }

    /// Sets the position to `start` with `moves` played from it; the positions that
    /// occurred more than once on the way (the start and each position reached)
    /// become the history.
    pub fn set_position(&mut self, start: cozy_chess::Board, moves: &Vec<ChessMove>)
        requires
            line_legal(start, moves@),
            moves@.len() < usize::MAX,
        ensures
            final(self).spec_board() == spec_line(start, moves@).last(),
            final(self).spec_history() == spec_repeated(line_hashes(spec_line(start, moves@))),
    {
        let ghost line = spec_line(start, moves@);
        proof {
            crate::engine::lemma_line_len(start, moves@);
        }
        self.board = start;
        let mut occurrences = int_map_new();
        count_position(&mut occurrences, board_hash(&self.board), Ghost(Seq::empty()));
        proof {
            assert(line_hashes(line).take(1) =~= seq![spec_board_hash(line[0])]);
            assert(Seq::<u64>::empty().push(spec_board_hash(line[0])) =~= line_hashes(line).take(1));
        }
        let mut k: usize = 0;
        while k < moves.len()
            invariant
                k <= moves.len(),
                moves@.len() < usize::MAX,
                line == spec_line(start, moves@),
                line.len() == moves.len() + 1,
                line_legal(start, moves@),
                self.board == line[k as int],
                counts_of(occurrences@, line_hashes(line).take(k + 1)),
            decreases moves.len() - k,
        {
            proof {
                crate::engine::lemma_line_step(start, moves@, k as int);
            }
            board_play_unchecked(&mut self.board, moves[k]);
            proof {
                assert(line_hashes(line).take(k + 2) =~= line_hashes(line).take(k + 1).push(spec_board_hash(line[k + 1])));
                assert(k + 1 < usize::MAX);
            }
            count_position(&mut occurrences, board_hash(&self.board), Ghost(line_hashes(line).take(k + 1)));
            k = k + 1;
        }
        proof {
            assert(line_hashes(line).take(k + 1) =~= line_hashes(line));
        }
        let entries = int_map_entries(&occurrences);
        let mut history = int_set_new();
        let ghost all = line_hashes(line);
        let mut i: usize = 0;
        while i < entries.len()
            invariant
                i <= entries.len(),
                counts_of(occurrences@, all),
                forall|j: int| 0 <= j < entries@.len() ==> occurrences@.contains_key((#[trigger] entries@[j]).0)
                    && occurrences@[entries@[j].0] == entries@[j].1,
                forall|h: u64| history@.contains(h) <==> (count_of(all, h) > 1 && exists|j: int| 0 <= j < i && (#[trigger] entries@[j]).0 == h),
            decreases entries.len() - i,
        {
            let (h, c) = entries[i];
            if c > 1 {
                int_set_insert(&mut history, h);
            }
            proof {
                assert forall|x: u64| history@.contains(x) <==> (count_of(all, x) > 1 && exists|j: int| 0 <= j < i + 1 && (#[trigger] entries@[j]).0 == x) by {
                    if x == h {
                        assert(entries@[i as int].0 == x);
                    }
                    if exists|j: int| 0 <= j < i + 1 && (#[trigger] entries@[j]).0 == x {
                        let j = choose|j: int| 0 <= j < i + 1 && (#[trigger] entries@[j]).0 == x;
                        if j < i {
                        } else {
                            assert(x == h);
                        }
                    }
                }
            }
            i = i + 1;
        }
        proof {
            assert forall|h: u64| history@.contains(h) <==> spec_repeated(all).contains(h) by {
                if count_of(all, h) > 1 {
                    lemma_count_key(all, h);
                    assert(occurrences@.contains_key(h));
                    let j = choose|j: int| 0 <= j < entries@.len() && (#[trigger] entries@[j]).0 == h;
                }
            }
            assert(history@ =~= spec_repeated(all));
        }
        self.history = history;
    }
}

/// `m` holds, for each hash of `s`, how often it occurs there.
pub open spec fn counts_of(m: Map<u64, usize>, s: Seq<u64>) -> bool {
    &&& forall|h: u64| m.contains_key(h) <==> count_of(s, h) > 0
    &&& forall|h: u64| #[trigger] m.contains_key(h) ==> m[h] == count_of(s, h)
}

proof fn lemma_count_key(s: Seq<u64>, h: u64)
    ensures
        count_of(s, h) <= s.len(),
    decreases s.len(),
{
    if s.len() > 0 {
        lemma_count_key(s.drop_last(), h);
    }
}

/// Counts one more occurrence of `h`.
fn count_position(m: &mut PositionCounts, h: u64, Ghost(s): Ghost<Seq<u64>>)
    requires
        counts_of(old(m)@, s),
        s.len() < usize::MAX,
    ensures
        counts_of(final(m)@, s.push(h)),
{
    proof {
        assert(s.push(h).drop_last() =~= s);
        lemma_count_key(s, h);
    }
    let c = match int_map_get(m, h) {
        Some(c) => c,
        None => 0,
    };
    int_map_insert(m, h, c + 1);
}

/// One search of the minimal engine.
pub struct Searcher {
    pub stats: Statistics,
    pub abort: std::sync::Arc<std::sync::atomic::AtomicBool>,
    pub history: nohash::IntSet<u64>,
    pub target_depth: u16,
    pub valid: bool,
}

/// A score within the mate range.
pub open spec fn in_range(v: Eval) -> bool {
    -MATE <= v.0 <= MATE
}

/// Whether the score of `board` needs no search: the game is over there, or the
/// position repeats one of `history`.
pub open spec fn spec_settled(history: Set<u64>, board: cozy_chess::Board) -> bool {
    spec_board_status(board) != GameStatus::Ongoing || history.contains(spec_board_hash(board))
}

/// The score of such a position reached at `depth`: mated there when the game is won
/// by the side that just moved, drawn otherwise.
pub open spec fn spec_settled_score(board: cozy_chess::Board, depth: u16) -> int {
    if spec_board_status(board) == GameStatus::Won {
        -(MATE - depth)
    } else {
        0
    }
}

/// Whether searching `board` at `depth` (of `target`) with the positions `history` on
/// the line can read the stop flag: the position is not settled, and either it lies
/// beyond the target depth (where the flag is read), or some move leads to a position
/// where the flag can be read.
pub open spec fn spec_may_stop(history: Set<u64>, board: cozy_chess::Board, depth: int, target: int) -> bool
    decreases target + 1 - depth,
{
    if spec_settled(history, board) {
        false
    } else if depth > target {
        true
    } else {
        exists|j: int|
            0 <= j < spec_board_legal_moves(board).len() && spec_may_stop(
                history.insert(spec_board_hash(board)),
                spec_board_play(board, #[trigger] spec_board_legal_moves(board)[j].1),
                depth + 1,
                target,
            )
    }
}

impl Searcher {
    pub open spec fn spec_history(&self) -> Set<u64> {
        self.history@
    }

    pub open spec fn is_valid(&self) -> bool {
        self.valid
    }

    pub open spec fn spec_target_depth(&self) -> u16 {
        self.target_depth
    }

    /// A searcher that stops when `abort` is set, treating the positions of `history`
    /// as drawn.
    pub fn new(abort: std::sync::Arc<std::sync::atomic::AtomicBool>, history: &nohash::IntSet<u64>) -> (r: Self)
        ensures
            r.spec_history() == history@,
            r.is_valid(),
            r.stats.nodes == 0,
            r.stats.selective_depth == 0,
            r.abort == abort,
    {
        Searcher {
            stats: Statistics { selective_depth: 0, nodes: 0 },
            abort,
            history: int_set_clone(history),
            target_depth: 0,
            valid: true,
        }
    }

    /// Searches `root` to `depth` plies (the engine never asks for more than 5000);
    /// `None` when the search was stopped, after which the searcher must not search
    /// again. The stop flag is only read at
    /// unsettled positions beyond the target depth, so a search that cannot reach one
    /// always succeeds.
    pub fn search(&mut self, root: &cozy_chess::Board, depth: u16) -> (r: Option<(Eval, ChessMove)>)
        requires
            old(self).is_valid(),
            depth < 5001,
            spec_board_legal_moves(*root).len() > 0,
        ensures
            final(self).is_valid() == r is Some,
            r matches Some((v, mv)) ==> {
                &&& in_range(v)
                &&& mv.valid()
                &&& spec_board_is_legal(*root, mv)
                &&& final(self).spec_history() == old(self).spec_history()
            },
            r is None ==> exists|j: int|
                0 <= j < spec_board_legal_moves(*root).len() && spec_may_stop(
                    old(self).spec_history(),
                    spec_board_play(*root, #[trigger] spec_board_legal_moves(*root)[j].1),
                    1,
                    depth as int,
                ),
    {
        self.target_depth = depth;
        let result = self.alpha_beta(root, Eval(-MATE), Eval(MATE), 0);
        self.valid = result.is_some();
        result
    }

    /// The score of `board` reached at `current_depth`: drawn or lost when the game is
    /// over there, drawn when it repeats a position of the game or of the current line,
    /// random beyond the target depth, and searched otherwise.
    fn visit_node(&mut self, board: &cozy_chess::Board, alpha: Eval, beta: Eval, current_depth: u16) -> (r: Option<Eval>)
        requires
            old(self).spec_target_depth() < 5001,
            current_depth <= old(self).spec_target_depth() + 1,
            in_range(alpha),
            in_range(beta),
        ensures
            final(self).spec_target_depth() == old(self).spec_target_depth(),
            final(self).valid == old(self).valid,
            final(self).abort == old(self).abort,
            final(self).stats.selective_depth >= old(self).stats.selective_depth,
            final(self).stats.selective_depth <= (if old(self).stats.selective_depth > old(self).spec_target_depth() + 1 {
                old(self).stats.selective_depth as int
            } else {
                old(self).spec_target_depth() + 1
            }),
            r matches Some(v) ==> in_range(v) && final(self).spec_history() == old(self).spec_history(),
            r is Some ==> *final(self) == (Searcher { stats: final(self).stats, history: final(self).history, ..*old(self) }),
            spec_settled(old(self).spec_history(), *board) ==> (r matches Some(v) && v.0
                == spec_settled_score(*board, current_depth)),
            r is None ==> spec_may_stop(
                old(self).spec_history(),
                *board,
                current_depth as int,
                old(self).spec_target_depth() as int,
            ),
        decreases old(self).spec_target_depth() + 1 - current_depth, 1nat,
    {
        match board_status(board) {
            GameStatus::Drawn => return Some(Eval::draw()),
            GameStatus::Won => return Some(Eval::mate().add_time(current_depth).neg()),
            GameStatus::Ongoing => {},
        }
        let h = board_hash(board);
        if !int_set_insert(&mut self.history, h) {
            return Some(Eval::draw());
        }
        let result = if current_depth > self.target_depth {
            if (current_depth as i16) > self.stats.selective_depth {
                self.stats.selective_depth = current_depth as i16;
            }
            self.stats.nodes = self.stats.nodes.wrapping_add(1);
            if !flag_is_set(&self.abort) {
                Some(static_eval(board))
            } else {
                None
            }
        } else {
            match self.alpha_beta(board, alpha, beta, current_depth) {
                Some((e, _)) => Some(e),
                None => None,
            }
        };
        let ghost before = self.history@;
        int_set_remove(&mut self.history, h);
        proof {
            if result is Some {
                assert(self.history@ =~= old(self).history@);
            }
        }
        result
    }

    /// Searches the moves of `board` (which has some) in generation order, failing
    /// hard on `beta`; returns the best score and its move. On success the searcher is
    /// as before but for its statistics: the node count grows by the leaves visited, and
    /// the selective depth rises at most to one ply beyond the target depth.
    fn alpha_beta(&mut self, board: &cozy_chess::Board, alpha: Eval, beta: Eval, current_depth: u16) -> (r: Option<(Eval, ChessMove)>)
        requires
            old(self).spec_target_depth() < 5001,
            current_depth <= old(self).spec_target_depth(),
            spec_board_legal_moves(*board).len() > 0,
            in_range(alpha),
            in_range(beta),
        ensures
            final(self).spec_target_depth() == old(self).spec_target_depth(),
            final(self).valid == old(self).valid,
            final(self).abort == old(self).abort,
            final(self).stats.selective_depth >= old(self).stats.selective_depth,
            final(self).stats.selective_depth <= (if old(self).stats.selective_depth > old(self).spec_target_depth() + 1 {
                old(self).stats.selective_depth as int
            } else {
                old(self).spec_target_depth() + 1
            }),
            r matches Some((v, mv)) ==> in_range(v) && mv.valid() && spec_board_is_legal(*board, mv)
                && final(self).spec_history() == old(self).spec_history(),
            r is Some ==> *final(self) == (Searcher { stats: final(self).stats, history: final(self).history, ..*old(self) }),
            r is None ==> exists|j: int|
                0 <= j < spec_board_legal_moves(*board).len() && spec_may_stop(
                    old(self).spec_history(),
                    spec_board_play(*board, #[trigger] spec_board_legal_moves(*board)[j].1),
                    current_depth + 1,
                    old(self).spec_target_depth() as int,
                ),
        decreases old(self).spec_target_depth() + 1 - current_depth, 0nat,
    {
        let mut alpha = alpha;
        let moves = board_legal_moves(board);
        let mut best = (Eval(-MATE), moves[0].1);
        let mut k: usize = 0;
        while k < moves.len()
            invariant
                moves@ == spec_board_legal_moves(*board),
                moves@.len() > 0,
                forall|j: int| 0 <= j < moves@.len() ==> (#[trigger] moves@[j]).1.valid() && spec_board_is_legal(*board, moves@[j].1),
                self.spec_target_depth() == old(self).spec_target_depth(),
                self.valid == old(self).valid,
                self.abort == old(self).abort,
                self.stats.selective_depth >= old(self).stats.selective_depth,
                self.stats.selective_depth <= (if old(self).stats.selective_depth > old(self).spec_target_depth() + 1 {
                    old(self).stats.selective_depth as int
                } else {
                    old(self).spec_target_depth() + 1
                }),
                self.spec_history() == old(self).spec_history(),
                current_depth <= self.spec_target_depth(),
                self.spec_target_depth() < 5001,
                in_range(alpha),
                in_range(beta),
                in_range(best.0),
                best.1.valid() && spec_board_is_legal(*board, best.1),
            decreases moves.len() - k,
        {
            let mv = moves[k].1;
            let mut new_board = board_clone(board);
            board_play_unchecked(&mut new_board, mv);
            let v = match self.visit_node(&new_board, beta.neg(), alpha.neg(), current_depth + 1) {
                Some(e) => e.neg(),
                None => {
                    proof {
                        assert(spec_may_stop(
                            old(self).spec_history(),
                            spec_board_play(*board, spec_board_legal_moves(*board)[k as int].1),
                            current_depth + 1,
                            old(self).spec_target_depth() as int,
                        ));
                    }
                    return None;
                },
            };
            if v.0 >= beta.0 {
                return Some((v, mv));
            }
            if v.0 > alpha.0 {
                alpha = v;
            }
            if v.0 > best.0.0 {
                best = (v, mv);
            }
            k = k + 1;
        }
        Some(best)
    }
}

/// Receives the result of each completed search depth.
pub trait Listener {
    fn info(&mut self, depth: i16, seldepth: i16, nodes: u64, eval: Eval, board: &cozy_chess::Board, pv: &[ChessMove]);
}

impl Listener for () {
    fn info(&mut self, _depth: i16, _seldepth: i16, _nodes: u64, _eval: Eval, _board: &cozy_chess::Board, _pv: &[ChessMove]) {
    }
}

impl Searcher {
    /// Iterative deepening: searches depth 1, 2, ... up to `depth_limit` (at most
    /// 5000), reporting each completed depth to `listener`, until a search is stopped.
    /// Returns the result of the deepest completed search, if any completed.
    pub fn iterate<L: Listener>(&mut self, board: &cozy_chess::Board, depth_limit: i16, listener: &mut L) -> (r: Option<(Eval, ChessMove)>)
        requires
            old(self).is_valid(),
            spec_board_legal_moves(*board).len() > 0,
        ensures
            r matches Some((v, mv)) ==> in_range(v) && mv.valid() && spec_board_is_legal(*board, mv),
            depth_limit >= 1 && old(self).is_valid() && r is None ==> !final(self).is_valid(),
    {
        let limit: i16 = if depth_limit < 5000 { depth_limit } else { 5000 };
        let mut best: Option<(Eval, ChessMove)> = None;
        let mut depth: i16 = 1;
        while depth <= limit
            invariant_except_break
                self.is_valid(),
            invariant
                1 <= depth,
                limit < 5001,
                limit >= 1 ==> depth <= limit + 1,
                spec_board_legal_moves(*board).len() > 0,
                best matches Some((v, mv)) ==> in_range(v) && mv.valid() && spec_board_is_legal(*board, mv),
                depth > 1 ==> best is Some,
            ensures
                best is None ==> !self.is_valid() || limit < 1,
            decreases limit + 1 - depth,
        {
            match self.search(board, depth as u16) {
                Some(result) => {
                    let pv = vec![result.1];
                    listener.info(depth, self.stats.selective_depth, self.stats.nodes, result.0, board, pv.as_slice());
                    best = Some(result);
                },
                None => break,
            }
            depth = depth + 1;
        }
        best
    }
}

} // verus!
