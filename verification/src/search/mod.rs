//! The NNUE engine's alpha-beta search: principal variation search with a
//! quiescence search at the leaves, a transposition table, repetition detection and
//! history-based move ordering.
use vstd::prelude::*;
use crate::chess::{
    ChessMove, board_clone, board_play_unchecked, spec_board_is_legal, spec_board_legal_moves,
    spec_board_play,
};
use crate::eval::{Eval, MATE};
use crate::nnue::Nnue;
use crate::position::Position;
use crate::tt::{TranspositionTable, TtEntry, lemma_get_move_sound, spec_get_move};
use crate::window::Window;
use self::repetition::Repetitions;
use self::state::{MAX_PLY, PrivateState};
use self::picker::spec_all_playable;

pub mod state;
pub mod repetition;
pub mod picker;
pub mod negamax;

verus! {

/// Counters of a search.
#[derive(Clone, Copy, Debug, PartialEq, Eq, Structural)]
pub struct Statistics {
    pub selective_depth: i16,
    pub nodes: u64,
}

impl Statistics {
    /// Resets both counters.
    pub fn clear(&mut self)
        ensures
            final(self).selective_depth == 0,
            final(self).nodes == 0,
    {
        self.selective_depth = 0;
        self.nodes = 0;
    }
}

impl Default for Statistics {
    fn default() -> (r: Self)
        ensures
            r.selective_depth == 0,
            r.nodes == 0,
    {
        Statistics { selective_depth: 0, nodes: 0 }
    }
}

/// How many more nodes may be searched before the clock is read again, for a deadline
/// `remaining_ns` nanoseconds away: 1000 per whole millisecond left, assuming the
/// search visits at least a million nodes per second.
pub fn estimate_nodes_to_deadline(remaining_ns: u64) -> (r: u64)
    ensures
        r == 1000 * (remaining_ns / 1_000_000),
{
    1000 * (remaining_ns / 1_000_000)
}

/// Whether a search window should be searched with full width.
pub trait SearchType: Copy {
    fn pv(&self) -> bool;
}

/// A node on the principal variation.
#[derive(Copy, Clone, Debug, Hash, PartialEq, Eq, PartialOrd, Ord)]
pub struct Pv;

impl SearchType for Pv {
    fn pv(&self) -> (r: bool)
        ensures
            r,
    {
        true
    }
}

/// A node searched with a zero-width window.
#[derive(Copy, Clone, Debug, Hash, PartialEq, Eq, PartialOrd, Ord)]
pub struct ZeroWidth;

impl SearchType for ZeroWidth {
    fn pv(&self) -> (r: bool)
        ensures
            !r,
    {
        false
    }
}

#[verifier::external_type_specification]
#[verifier::external_body]
pub struct ExInstant(std::time::Instant);

/// Calls `Instant::elapsed`: the nanoseconds since `start`, read from the system
/// clock (taken modulo 2^64, which no search comes near). Nothing is promised of the
/// value: it depends on the time.
#[verifier::external_body]
pub(crate) fn elapsed_nanos(start: &std::time::Instant) -> u64 {
    start.elapsed().as_nanos() as u64
}

/// Calls `Instant::now`: the current time of the monotonic clock.
#[verifier::external_body]
pub(crate) fn instant_now() -> std::time::Instant {
    std::time::Instant::now()
}

/// A search score at distance `ply` from the root: no better than mating at once
/// and no worse than being mated here.
pub open spec fn score_ok(v: Eval, ply: u16) -> bool {
    -MATE + ply <= v.0 <= MATE - ply - 1
}

/// A window whose bounds can be negated.
pub open spec fn window_ok(w: Window) -> bool {
    -MATE <= w.lb.0 <= MATE && -MATE <= w.ub.0 <= MATE
}

/// The principal variation stored in the table: follow the stored move of each
/// position for at most `n` moves.
pub open spec fn spec_pv(entries: Seq<TtEntry>, board: cozy_chess::Board, n: nat) -> Seq<ChessMove>
    decreases n,
{
    if n == 0 {
        seq![]
    } else {
        match spec_get_move(entries, board) {
            Some(mv) => seq![mv] + spec_pv(entries, spec_board_play(board, mv), (n - 1) as nat),
            None => seq![],
        }
    }
}

/// A principal variation has at most `n` moves.
pub proof fn lemma_pv_len(entries: Seq<TtEntry>, board: cozy_chess::Board, n: nat)
    ensures
        spec_pv(entries, board, n).len() <= n,
    decreases n,
{
    if n > 0 {
        if let Some(mv) = spec_get_move(entries, board) {
            lemma_pv_len(entries, spec_board_play(board, mv), (n - 1) as nat);
        }
    }
}

/// One search of the root position: the tables it reads and fills, its limits and the
/// path it is on.
pub struct Searcher<'a> {
    pub root: &'a cozy_chess::Board,
    pub net: &'a Nnue,
    pub stats: Statistics,
    pub tt: TranspositionTable,
    pub state: PrivateState,
    pub node_limit: u64,
    pub start: std::time::Instant,
    /// No search of this searcher has been cut short.
    pub valid: bool,
    /// Whether the node limit and the deadline may stop the current search.
    pub allow_abort: bool,
    /// The hard deadline, in nanoseconds after `start`.
    pub deadline: Option<u64>,
    /// The node count at which the clock is read next.
    pub next_deadline_check: u64,
    /// The positions on the path.
    pub reps: Repetitions,
}

impl<'a> Searcher<'a> {
    /// The tables are usable and the network well formed.
    pub open spec fn wf(&self) -> bool {
        &&& self.net.wf()
        &&& self.tt.view().len() > 0
        &&& self.tt.wf()
        &&& self.state.wf()
        &&& self.reps_wf()
    }

    pub open spec fn reps_wf(&self) -> bool {
        self.reps.wf()
    }

    /// The hashes of the positions on the current path, oldest first.
    pub open spec fn path(&self) -> Seq<u64> {
        self.reps.view()
    }

    /// No search of this searcher has been cut short.
    pub open spec fn is_valid(&self) -> bool {
        self.valid
    }

    pub open spec fn spec_deadline(&self) -> Option<u64> {
        self.deadline
    }

    /// What stays fixed while searching: the root, the network, the limits.
    pub open spec fn same_setup(&self, other: &Self) -> bool {
        &&& self.root == other.root
        &&& self.net == other.net
        &&& self.node_limit == other.node_limit
        &&& self.spec_deadline() == other.spec_deadline()
    }

    /// A searcher for `root`, on the path `prehistory` (the game so far, the root's
    /// own hash last), searching at most about `node_limit` nodes and stopping at
    /// `deadline` nanoseconds after `start`.
    pub fn new(
        root: &'a cozy_chess::Board,
        net: &'a Nnue,
        tt: TranspositionTable,
        state: PrivateState,
        stats: Statistics,
        prehistory: &Vec<u64>,
        node_limit: u64,
        start: std::time::Instant,
        deadline: Option<u64>,
    ) -> (r: Self)
        ensures
            r.root == root,
            r.net == net,
            r.tt == tt,
            r.state == state,
            r.stats == stats,
            r.node_limit == node_limit,
            r.start == start,
            r.spec_deadline() == deadline,
            r.reps_wf(),
            r.path() == prehistory@,
            r.is_valid(),
    {
        let next_deadline_check = match deadline {
            Some(d) => {
                let elapsed = elapsed_nanos(&start);
                if elapsed <= d {
                    estimate_nodes_to_deadline(d - elapsed)
                } else {
                    0
                }
            },
            None => u64::MAX,
        };
        Searcher {
            root,
            net,
            tt,
            state,
            stats,
            node_limit,
            start,
            valid: true,
            allow_abort: false,
            deadline,
            next_deadline_check,
            reps: Repetitions::new(prehistory),
        }
    }

    /// Searches the root to `depth`, returning its score and best move, or `None` when
    /// the node limit or the deadline cut the search short (never at depth 1). After
    /// `None` the searcher must not search again; after `Some` the path is as before.
    /// `None` also comes when no root move could be searched, which a valid board with
    /// legal moves never gives: at depth 1, where nothing aborts, a root whose legal
    /// moves can all be searched always gets a result.
    pub fn search(&mut self, depth: i16, around: Eval) -> (r: Option<(Eval, ChessMove)>)
        requires
            old(self).wf(),
            old(self).is_valid(),
            0 < depth <= MAX_PLY,
            spec_board_legal_moves(*old(self).root).len() > 0,
        ensures
            final(self).wf(),
            final(self).same_setup(&*old(self)),
            r matches Some((v, mv)) ==> {
                &&& score_ok(v, 0)
                &&& spec_board_is_legal(*old(self).root, mv)
                &&& mv.valid()
                &&& final(self).path() == old(self).path()
                &&& final(self).is_valid()
            },
            r is None ==> !final(self).is_valid(),
            depth == 1 && spec_all_playable(*old(self).root) ==> r is Some,
    {
        self.allow_abort = depth > 1;
        let position = Position::from_root(self.net, board_clone(self.root));
        let result = self.negamax(Pv, &position, Window::full(), depth);
        match result {
            Some((eval, Some(mv))) => Some((eval, mv)),
            _ => {
                self.valid = false;
                None
            },
        }
    }

    /// The principal variation: the moves the table stores from the root on, at most
    /// `depth + 1` of them.
    pub fn extract_pv(&self, depth: i16) -> (r: Vec<ChessMove>)
        requires
            self.tt.view().len() > 0,
            depth >= 0,
        ensures
            r@ == spec_pv(self.tt.view(), *self.root, (depth + 1) as nat),
    {
        let mut board = board_clone(self.root);
        let mut pv: Vec<ChessMove> = Vec::new();
        let limit = depth as usize + 1;
        loop
            invariant
                self.tt.view().len() > 0,
                limit == depth + 1,
                pv.len() < limit,
                pv@ + spec_pv(self.tt.view(), board, (limit - pv.len()) as nat) == spec_pv(
                    self.tt.view(),
                    *self.root,
                    limit as nat,
                ),
            decreases limit - pv.len(),
        {
            let ghost n = (limit - pv.len()) as nat;
            let ghost before = board;
            match self.tt.get_move(&board) {
                Some(mv) => {
                    proof {
                        lemma_get_move_sound(self.tt.view(), board);
                    }
                    pv.push(mv);
                    board_play_unchecked(&mut board, mv);
                    proof {
                        assert(spec_pv(self.tt.view(), before, n) == seq![mv] + spec_pv(
                            self.tt.view(),
                            board,
                            (n - 1) as nat,
                        ));
                        assert(pv@ + spec_pv(self.tt.view(), board, (n - 1) as nat) =~= pv@.drop_last() + (seq![mv] + spec_pv(self.tt.view(), board, (n - 1) as nat)));
                    }
                    if pv.len() >= limit {
                        proof {
                            assert(spec_pv(self.tt.view(), board, 0) =~= Seq::<ChessMove>::empty());
                            assert(pv@ + Seq::<ChessMove>::empty() =~= pv@);
                        }
                        return pv;
                    }
                },
                None => {
                    proof {
                        assert(spec_pv(self.tt.view(), before, n) =~= Seq::<ChessMove>::empty());
                        assert(pv@ + Seq::<ChessMove>::empty() =~= pv@);
                    }
                    return pv;
                },
            }
        }
    }

    /// Enters a position: its hash joins the path.
    pub fn push_repetition(&mut self, board: &cozy_chess::Board)
        requires
            old(self).reps_wf(),
        ensures
            final(self).reps_wf(),
            final(self).path() == old(self).path().push(crate::chess::spec_board_hash(*board)),
            *final(self) == (Searcher { reps: final(self).reps, ..*old(self) }),
    {
        self.reps.push(crate::chess::board_hash(board));
    }

    /// Leaves the most recent position of the path.
    pub fn pop_repetition(&mut self)
        requires
            old(self).reps_wf(),
            old(self).path().len() > 0,
        ensures
            final(self).reps_wf(),
            final(self).path() == old(self).path().drop_last(),
            *final(self) == (Searcher { reps: final(self).reps, ..*old(self) }),
    {
        self.reps.pop();
    }

    /// Whether `board` repeats a position of the path since the last irreversible move
    /// (see `Repetitions::is_repetition`).
    pub fn is_repetition(&self, board: &cozy_chess::Board) -> (r: bool)
        requires
            self.reps_wf(),
        ensures
            r == self.spec_is_repetition(*board),
    {
        self.reps.is_repetition(crate::chess::board_hash(board), crate::chess::board_halfmove_clock(board))
    }

    pub open spec fn spec_is_repetition(&self, board: cozy_chess::Board) -> bool {
        let h = crate::chess::spec_board_hash(board);
        self.reps.counter(repetition::bucket(h)) != 0 && repetition::spec_seen(
            self.reps.view(),
            h,
            crate::chess::spec_board_halfmove_clock(board),
        )
    }
}

} // verus!
