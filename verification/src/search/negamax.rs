//! The recursive search: negamax with principal variation search, and the quiescence
//! search that resolves captures at the leaves.
use vstd::prelude::*;
use crate::chess::{
    ChessMove, PieceKind, bb_has, board_checkers, board_colors, board_has_kings,
    board_legal_moves, board_occupied, board_piece_on, board_side_to_move, has_kings, popcnt,
    spec_board_colors, spec_board_is_legal, spec_board_legal_moves, spec_board_pieces,
    spec_board_side_to_move, spec_has, spec_piece_on, spec_board_play, spec_board_checkers,
    spec_board_hash, spec_board_halfmove_clock, popcount, spec_board_occupied, Side,
};
use crate::oracle::spec_draw_oracle;
use crate::eval::{Eval, MATE, MAX_INCONCLUSIVE};
use crate::nnue::{
    Nnue, move_allowed, move_playable, spec_apply_updates, spec_eval_of, spec_material_after, spec_move_updates,
};
use crate::oracle::draw_oracle;
use crate::position::Position;
use crate::see::{spec_static_exchange_eval, static_exchange_eval};
use crate::tt::{NodeKind, TableEntry, TtEntry, lemma_get_sound, spec_get, spec_store};
use crate::window::Window;
use super::picker::{
    MovePicker, lemma_generated_has_playable, lemma_generated_lists, move_ok, spec_all_playable,
    spec_generated, update_history,
};
use super::repetition::spec_seen;
use super::state::MAX_PLY;
use super::{SearchType, Searcher, ZeroWidth, elapsed_nanos, estimate_nodes_to_deadline, score_ok, window_ok};

verus! {


/// Whether a stored bound settles the node for this window.
fn bound_allows_cutoff(kind: NodeKind, window: &Window, eval: Eval) -> (r: bool)
    ensures
        r == match kind {
            NodeKind::Exact => true,
            NodeKind::LowerBound => eval.0 >= window.ub.0,
            NodeKind::UpperBound => eval.0 <= window.lb.0,
        },
{
    match kind {
        NodeKind::Exact => true,
        NodeKind::LowerBound => window.fail_high(eval),
        NodeKind::UpperBound => window.fail_low(eval),
    }
}

/// The bound a node's result stands for.
fn node_kind(window: &Window, best: Eval, raised_alpha: bool) -> (r: NodeKind)
    ensures
        r == if best.0 >= window.ub.0 {
            NodeKind::LowerBound
        } else if raised_alpha {
            NodeKind::Exact
        } else {
            NodeKind::UpperBound
        },
{
    if window.fail_high(best) {
        NodeKind::LowerBound
    } else if raised_alpha {
        NodeKind::Exact
    } else {
        NodeKind::UpperBound
    }
}

/// The entry of one legal move (moving `piece`) in the quiescence search's list: a
/// capture of a non-king piece that does not lose material by exchange, scored with
/// the table's move first, then the most valuable victim taken by the least valuable
/// piece. A board without both kings lists nothing.
pub open spec fn spec_qsearch_entry(
    board: cozy_chess::Board,
    piece: PieceKind,
    mv: ChessMove,
    tt_move: Option<ChessMove>,
) -> Option<(ChessMove, i16)> {
    let stm = spec_board_side_to_move(board);
    if !spec_has(spec_board_colors(board, stm.spec_flip()), mv.to) {
        None
    } else {
        match spec_piece_on(board, mv.to) {
            Some(victim) => if victim == PieceKind::King || !has_kings(board) || spec_static_exchange_eval(board, mv) < 0 {
                None
            } else {
                Some((mv, ((if tt_move == Some(mv) { 1000int } else { 0int }) + victim.spec_index() * 8 - piece.spec_index()) as i16))
            },
            None => None,
        }
    }
}

/// A capture of an enemy piece that loses no material by exchange.
pub open spec fn spec_winning_capture(board: cozy_chess::Board, mv: ChessMove) -> bool {
    &&& spec_has(spec_board_colors(board, spec_board_side_to_move(board).spec_flip()), mv.to)
    &&& spec_static_exchange_eval(board, mv) >= 0
}

/// The quiescence search's list for the legal moves `legal`, in generation order.
pub open spec fn spec_qsearch_moves(
    board: cozy_chess::Board,
    legal: Seq<(PieceKind, ChessMove)>,
    tt_move: Option<ChessMove>,
) -> Seq<(ChessMove, i16)>
    decreases legal.len(),
{
    if legal.len() == 0 {
        seq![]
    } else {
        let prev = spec_qsearch_moves(board, legal.drop_last(), tt_move);
        match spec_qsearch_entry(board, legal.last().0, legal.last().1, tt_move) {
            Some(e) => prev.push(e),
            None => prev,
        }
    }
}

/// The captures the quiescence search tries (`spec_qsearch_moves` of the legal moves).
fn qsearch_moves(board: &cozy_chess::Board, tt_move: Option<ChessMove>) -> (r: Vec<(ChessMove, i16)>)
    ensures
        r@ == spec_qsearch_moves(*board, spec_board_legal_moves(*board), tt_move),
        forall|j: int| 0 <= j < r.len() ==> move_ok(*board, (#[trigger] r@[j]).0) && move_allowed(*board, r@[j].0)
            && spec_winning_capture(*board, r@[j].0),
{
    let stm = board_side_to_move(board);
    let targets = board_colors(board, stm.flip());
    let kings = board_has_kings(board);
    let legal = board_legal_moves(board);
    let mut moves: Vec<(ChessMove, i16)> = Vec::new();
    let mut k: usize = 0;
    while k < legal.len()
        invariant
            k <= legal.len(),
            legal@ == spec_board_legal_moves(*board),
            forall|j: int| 0 <= j < legal@.len() ==> (#[trigger] legal@[j]).1.valid() && spec_board_is_legal(*board, legal@[j].1)
                && legal@[j].1.promotion != Some(PieceKind::Pawn) && legal@[j].1.promotion != Some(PieceKind::King)
                && spec_has(spec_board_pieces(*board, legal@[j].0), legal@[j].1.from),
            moves@ == spec_qsearch_moves(*board, legal@.take(k as int), tt_move),
            forall|j: int| 0 <= j < moves.len() ==> move_ok(*board, (#[trigger] moves@[j]).0) && move_allowed(*board, moves@[j].0)
                && spec_winning_capture(*board, moves@[j].0),
            targets == spec_board_colors(*board, stm.spec_flip()),
            stm == spec_board_side_to_move(*board),
            kings == has_kings(*board),
        decreases legal.len() - k,
    {
        let (piece, mv) = legal[k];
        proof {
            assert(legal@.take(k + 1).drop_last() =~= legal@.take(k as int));
            assert(legal@.take(k + 1).last() == (piece, mv));
        }
        k = k + 1;
        if !bb_has(targets, mv.to) {
            continue;
        }
        let victim = match board_piece_on(board, mv.to) {
            Some(PieceKind::King) => continue,
            Some(p) => p,
            // a valid board has a piece on every occupied square
            None => continue,
        };
        if !kings {
            continue;
        }
        let see = static_exchange_eval(board, mv);
        if see >= 0 {
            let hash_bonus: i16 = if tt_move == Some(mv) { 1000 } else { 0 };
            moves.push((mv, hash_bonus + victim.index() as i16 * 8 - piece.index() as i16));
        }
    }
    proof {
        assert(legal@.take(k as int) =~= legal@);
    }
    moves
}

/// The index of the best-scored move, the last of equals.
fn best_index(moves: &Vec<(ChessMove, i16)>) -> (r: usize)
    requires
        moves.len() > 0,
    ensures
        r < moves.len(),
        forall|j: int| 0 <= j < moves.len() ==> moves@[j].1 <= moves@[r as int].1,
        forall|j: int| r < j < moves.len() ==> moves@[j].1 < moves@[r as int].1,
{
    let mut best: usize = 0;
    let mut k: usize = 1;
    while k < moves.len()
        invariant
            1 <= k <= moves.len(),
            best < k,
            forall|j: int| 0 <= j < k ==> moves@[j].1 <= moves@[best as int].1,
            forall|j: int| best < j < k ==> moves@[j].1 < moves@[best as int].1,
        decreases moves.len() - k,
    {
        if moves[k].1 >= moves[best].1 {
            best = k;
        }
        k = k + 1;
    }
    best
}

/// The draw oracle recognises the position as drawn (it is consulted on boards with at
/// least two pieces).
pub open spec fn spec_oracle_draw(board: cozy_chess::Board) -> bool {
    &&& popcount(spec_board_occupied(board)) >= 2
    &&& spec_draw_oracle(
        spec_board_occupied(board),
        spec_board_colors(board, Side::White),
        spec_board_colors(board, Side::Black),
        spec_board_pieces(board, PieceKind::Bishop),
        spec_board_pieces(board, PieceKind::Knight),
        spec_board_pieces(board, PieceKind::King),
    )
}

/// One of the listed captures leads to a position the draw oracle calls drawn.
pub open spec fn spec_drawing_capture(board: cozy_chess::Board, list: Seq<(ChessMove, i16)>) -> bool {
    exists|j: int| 0 <= j < list.len() && spec_oracle_draw(spec_board_play(board, (#[trigger] list[j]).0))
}

/// What the quiescence search reads of a node: the board, the accumulator's two
/// perspectives and material, and the distance from the root.
pub struct NodeView {
    pub board: cozy_chess::Board,
    pub white: Seq<i16>,
    pub black: Seq<i16>,
    pub material: usize,
    pub ply: u16,
}

pub open spec fn spec_node(pos: &Position) -> NodeView {
    NodeView {
        board: pos.board,
        white: pos.nnue.white@,
        black: pos.nnue.black@,
        material: pos.nnue.material,
        ply: pos.ply,
    }
}

/// The node after `mv`: the board after the move, the accumulator updated by the move's
/// feature changes, one ply further from the root.
pub open spec fn spec_child(n: NodeView, net: Nnue, mv: ChessMove) -> NodeView {
    let ups = spec_move_updates(n.board, mv);
    NodeView {
        board: spec_board_play(n.board, mv),
        white: spec_apply_updates(n.white, net.rows(), ups.map_values(|u: (bool, usize, usize)| (u.0, u.1))),
        black: spec_apply_updates(n.black, net.rows(), ups.map_values(|u: (bool, usize, usize)| (u.0, u.2))),
        material: spec_material_after(n.board, mv, n.material),
        ply: (n.ply + 1) as u16,
    }
}

/// The static evaluation of a node, for its side to move.
pub open spec fn spec_stand_pat(n: NodeView, net: Nnue) -> Eval {
    Eval(spec_eval_of(n.white, n.black, n.material, &net, spec_board_side_to_move(n.board)) as i16)
}

/// A stored bound of this kind and score settles the window.
pub open spec fn spec_bound_cuts(kind: NodeKind, window: Window, eval: Eval) -> bool {
    match kind {
        NodeKind::Exact => true,
        NodeKind::LowerBound => eval.0 >= window.ub.0,
        NodeKind::UpperBound => eval.0 <= window.lb.0,
    }
}

/// The bound a node's result stands for.
pub open spec fn spec_node_kind(window: Window, best: Eval, raised: bool) -> NodeKind {
    if best.0 >= window.ub.0 {
        NodeKind::LowerBound
    } else if raised {
        NodeKind::Exact
    } else {
        NodeKind::UpperBound
    }
}

/// `r` is the index of the best-scored entry, the last of equals.
pub open spec fn is_best_index(moves: Seq<(ChessMove, i16)>, r: int) -> bool {
    &&& 0 <= r < moves.len()
    &&& forall|j: int| 0 <= j < moves.len() ==> moves[j].1 <= #[trigger] moves[r].1
    &&& forall|j: int| r < j < moves.len() ==> (#[trigger] moves[j]).1 < moves[r].1
}

pub open spec fn spec_best_index(moves: Seq<(ChessMove, i16)>) -> int {
    choose|r: int| is_best_index(moves, r)
}

proof fn lemma_best_index_unique(moves: Seq<(ChessMove, i16)>, r: int)
    requires
        is_best_index(moves, r),
    ensures
        spec_best_index(moves) == r,
{
    let c = spec_best_index(moves);
    assert(is_best_index(moves, c));
    if c < r {
        assert(moves[r].1 < moves[c].1);
        assert(moves[c].1 <= moves[r].1);
    } else if r < c {
        assert(moves[c].1 < moves[r].1);
        assert(moves[r].1 <= moves[c].1);
    }
}

/// The end of a quiescence node: the score and best capture, and the table with the
/// result stored when a capture beat standing pat.
pub open spec fn spec_qsearch_finish(
    tt: Seq<TtEntry>,
    age: u8,
    n: NodeView,
    window: Window,
    best: Eval,
    best_mv: Option<ChessMove>,
    raised: bool,
) -> (Eval, Option<ChessMove>, Seq<TtEntry>) {
    match best_mv {
        Some(m) => (best, best_mv, spec_store(
            tt,
            spec_board_hash(n.board),
            n.ply,
            TableEntry { mv: m, eval: best, depth: 0, kind: spec_node_kind(window, best, raised) },
            age,
        )),
        None => (best, None, tt),
    }
}

/// The quiescence search of node `n` in `window`, with the table `tt` (of age `age`):
/// its score, its best capture, and the table it leaves. A table entry whose bound
/// settles the window is the answer; else standing pat on the static evaluation fails
/// high, or the captures of `spec_qsearch_moves` are tried best first.
pub open spec fn spec_qsearch(tt: Seq<TtEntry>, age: u8, net: Nnue, n: NodeView, window: Window) -> (
    Eval,
    Option<ChessMove>,
    Seq<TtEntry>,
)
    decreases popcount(spec_board_occupied(n.board)), 1nat, 0nat,
{
    let e = spec_get(tt, n.board, n.ply);
    if e is Some && spec_bound_cuts(e->0.kind, window, e->0.eval) {
        (e->0.eval, Some(e->0.mv), tt)
    } else {
        let sp = spec_stand_pat(n, net);
        if sp.0 >= window.ub.0 {
            (sp, None, tt)
        } else {
            let w2 = if sp.0 > window.lb.0 { Window { lb: sp, ub: window.ub } } else { window };
            let tt_move = match e {
                Some(x) => Some(x.mv),
                None => None,
            };
            spec_qsearch_loop(
                tt,
                age,
                net,
                n,
                w2,
                sp,
                None,
                false,
                spec_qsearch_moves(n.board, spec_board_legal_moves(n.board), tt_move),
            )
        }
    }
}

/// The capture loop of a quiescence node: take the best-scored capture left, score it
/// (a draw when the oracle says so, else the negated search of the child in the
/// negated window), keep the best, stop on a fail-high, raise the lower bound.
pub open spec fn spec_qsearch_loop(
    tt: Seq<TtEntry>,
    age: u8,
    net: Nnue,
    n: NodeView,
    window: Window,
    best: Eval,
    best_mv: Option<ChessMove>,
    raised: bool,
    moves: Seq<(ChessMove, i16)>,
) -> (Eval, Option<ChessMove>, Seq<TtEntry>)
    decreases popcount(spec_board_occupied(n.board)), 0nat, moves.len(),
{
    if moves.len() == 0 {
        spec_qsearch_finish(tt, age, n, window, best, best_mv, raised)
    } else {
        let i = spec_best_index(moves);
        let mv = moves[i].0;
        let rest = moves.update(i, moves.last()).drop_last();
        let c = spec_child(n, net, mv);
        if !(0 <= i < moves.len()) || popcount(spec_board_occupied(c.board)) >= popcount(
            spec_board_occupied(n.board),
        ) {
            // a best index always exists, and a capture always removes a piece
            (best, best_mv, tt)
        } else {
            let child = spec_qsearch(
                tt,
                age,
                net,
                c,
                Window { lb: Eval((-window.ub.0) as i16), ub: Eval((-window.lb.0) as i16) },
            );
            let v = if spec_oracle_draw(c.board) { Eval(0) } else { Eval((-child.0.0) as i16) };
            let tt2 = if spec_oracle_draw(c.board) { tt } else { child.2 };
            let best2 = if v.0 > best.0 { v } else { best };
            let bm2 = if v.0 > best.0 { Some(mv) } else { best_mv };
            if v.0 >= window.ub.0 {
                spec_qsearch_finish(tt2, age, n, window, best2, bm2, raised)
            } else {
                let raised_now = v.0 > window.lb.0;
                let w2 = if raised_now { Window { lb: v, ub: window.ub } } else { window };
                spec_qsearch_loop(tt2, age, net, n, w2, best2, bm2, raised || raised_now, rest)
            }
        }
    }
}

/// A table entry settles the node: it was searched at least as deep and its bound
/// decides the window.
pub open spec fn spec_tt_cuts(entry: Option<TableEntry>, window: Window, depth: i16) -> bool {
    entry matches Some(e) && e.depth >= depth && match e.kind {
        NodeKind::Exact => true,
        NodeKind::LowerBound => e.eval.0 >= window.ub.0,
        NodeKind::UpperBound => e.eval.0 <= window.lb.0,
    }
}

/// The position after `mv` has no legal move and its side to move is in check.
pub open spec fn spec_mates(board: cozy_chess::Board, mv: ChessMove) -> bool {
    let after = spec_board_play(board, mv);
    &&& spec_board_legal_moves(after).len() == 0
    &&& spec_board_checkers(after) != 0
}

/// Some legal move of `board` mates, into a position that does not repeat one of `path`.
pub open spec fn spec_mate_in_one(board: cozy_chess::Board, path: Seq<u64>) -> bool {
    exists|j: int|
        0 <= j < spec_board_legal_moves(board).len() && spec_mates(board, (#[trigger] spec_board_legal_moves(board)[j]).1)
            && !spec_seen(
            path,
            spec_board_hash(spec_board_play(board, spec_board_legal_moves(board)[j].1)),
            spec_board_halfmove_clock(spec_board_play(board, spec_board_legal_moves(board)[j].1)),
        )
}

impl<'a> Searcher<'a> {
    /// Searches only captures that do not lose material, standing pat on the static
    /// evaluation. Returns the score and the best capture (if one beat standing pat). It
    /// ends because every capture removes a piece from the board.
    pub fn qsearch<S: SearchType>(&mut self, st: S, pos: &Position, window: Window) -> (r: Option<(Eval, Option<ChessMove>)>)
        requires
            old(self).wf(),
            pos.wf(),
            window_ok(window),
            pos.ply + popcount(spec_board_occupied(pos.board)) <= MAX_PLY + 64,
        ensures
            final(self).wf(),
            final(self).same_setup(&*old(self)),
            final(self).path() == old(self).path(),
            final(self).is_valid() == old(self).is_valid(),
            final(self).allow_abort == old(self).allow_abort,
            r is Some,
            r matches Some((v, m)) ==> score_ok(v, pos.ply) && (m matches Some(mv) ==> move_ok(pos.board, mv)),
            r matches Some((v, None)) ==> v.0 == pos.nnue.spec_eval(old(self).net, spec_board_side_to_move(pos.board)),
            spec_get(old(self).tt.view(), pos.board, pos.ply) is None ==> (r matches Some((v, m)) ==> {
                let stand_pat = pos.nnue.spec_eval(old(self).net, spec_board_side_to_move(pos.board));
                &&& v.0 >= stand_pat
                &&& (stand_pat >= window.ub.0 ==> v.0 == stand_pat && m is None)
                &&& (m matches Some(mv) ==> spec_winning_capture(pos.board, mv))
            }),
            spec_get(old(self).tt.view(), pos.board, pos.ply) is None ==> (r matches Some(
                (v, m),
            ) ==> {
                let stand_pat = pos.nnue.spec_eval(old(self).net, spec_board_side_to_move(pos.board));
                let captures = spec_qsearch_moves(pos.board, spec_board_legal_moves(pos.board), None);
                &&& (captures.len() == 0 ==> v.0 == stand_pat && m is None)
                &&& (spec_drawing_capture(pos.board, captures) ==> v.0 >= 0 || v.0 >= window.ub.0)
            }),
            final(self).tt.age() == old(self).tt.age(),
            ({
                let s = spec_qsearch(old(self).tt.view(), old(self).tt.age(), *old(self).net, spec_node(pos), window);
                &&& r == Some((s.0, s.1))
                &&& final(self).tt.view() == s.2
            }),
        decreases popcount(spec_board_occupied(pos.board)),
    {
        let ghost target = spec_qsearch(self.tt.view(), self.tt.age(), *self.net, spec_node(pos), window);
        let ghost node = spec_node(pos);
        let ghost netv = *self.net;
        let ghost age0 = self.tt.age();
        let mut window = window;
        self.stats.nodes = self.stats.nodes.wrapping_add(1);
        let tt = self.tt.get(&pos.board, pos.ply);
        proof {
            lemma_get_sound(self.tt.view(), pos.board, pos.ply);
        }
        if let Some(e) = tt {
            if bound_allows_cutoff(e.kind, &window, e.eval) {
                return Some((e.eval, Some(e.mv)));
            }
        }
        let mut best = pos.static_eval(self.net);
        let mut best_mv: Option<ChessMove> = None;
        let mut raised_alpha = false;
        if window.fail_high(best) {
            return Some((best, None));
        }
        window.raise_lb(best);
        let tt_move = match tt {
            Some(e) => Some(e.mv),
            None => None,
        };
        let mut moves = qsearch_moves(&pos.board, tt_move);
        let ghost list0 = moves@;
        let ghost ub0 = window.ub;
        let ghost dcond = tt_move is None && spec_drawing_capture(pos.board, list0);
        let ghost dj = choose|j: int| 0 <= j < list0.len() && spec_oracle_draw(spec_board_play(pos.board, (#[trigger] list0[j]).0));
        let ghost dm = list0[dj].0;
        proof {
            if dcond {
                assert(list0[dj].0 == dm);
            }
            assert(spec_qsearch_loop(self.tt.view(), age0, netv, node, window, best, best_mv, raised_alpha, moves@)
                == target);
        }
        while moves.len() > 0
            invariant_except_break
                spec_qsearch_loop(self.tt.view(), age0, netv, node, window, best, best_mv, raised_alpha, moves@)
                    == target,
            invariant
                self.tt.age() == age0,
                netv == *self.net,
                node == spec_node(pos),
                window.ub == ub0,
                moves.len() <= list0.len(),
                list0.len() == 0 ==> best_mv is None,
                dcond ==> spec_oracle_draw(spec_board_play(pos.board, dm)),
                dcond && best.0 < 0 ==> exists|x: int| 0 <= x < moves.len() && (#[trigger] moves@[x]).0 == dm,
                self.wf(),
                self.same_setup(&*old(self)),
                self.path() == old(self).path(),
                self.is_valid() == old(self).is_valid(),
                self.allow_abort == old(self).allow_abort,
                pos.wf(),
                pos.ply + popcount(spec_board_occupied(pos.board)) <= MAX_PLY + 64,
                window_ok(window),
                forall|j: int| 0 <= j < moves.len() ==> move_ok(pos.board, (#[trigger] moves@[j]).0) && move_allowed(pos.board, moves@[j].0),
                score_ok(best, pos.ply),
                best_mv matches Some(m) ==> move_ok(pos.board, m) && -MATE + pos.ply + 2 <= best.0,
                best_mv is None ==> best.0 == pos.nnue.spec_eval(old(self).net, spec_board_side_to_move(pos.board)),
                best.0 >= pos.nnue.spec_eval(old(self).net, spec_board_side_to_move(pos.board)),
                best_mv matches Some(m) ==> spec_winning_capture(pos.board, m),
                forall|j: int| 0 <= j < moves.len() ==> spec_winning_capture(pos.board, (#[trigger] moves@[j]).0),
            ensures
                best.0 < ub0.0 ==> moves.len() == 0,
                spec_qsearch_finish(self.tt.view(), age0, node, window, best, best_mv, raised_alpha) == target,
                self.tt.age() == age0,
            decreases moves.len(),
        {
            let i = best_index(&moves);
            let ghost before = moves@;
            proof {
                lemma_best_index_unique(moves@, i as int);
            }
            let (mv, _) = moves.swap_remove(i);
            proof {
                if dcond && best.0 < 0 && mv != dm {
                    let x = choose|x: int| 0 <= x < before.len() && (#[trigger] before[x]).0 == dm;
                    if x == before.len() - 1 {
                        assert(moves@[i as int].0 == dm);
                    } else {
                        assert(moves@[x].0 == dm);
                    }
                }
            }
            assert(move_ok(pos.board, mv) && move_allowed(pos.board, mv));
            let new_pos = pos.play_move(self.net, mv);
            let occupied = board_occupied(&new_pos.board);
            let v = if popcnt(occupied) >= 2 && draw_oracle(&new_pos.board) {
                Eval::draw()
            } else {
                match self.qsearch(st, &new_pos, window.neg()) {
                    Some((child, _)) => child.neg(),
                    None => return None,
                }
            };
            if v.0 > best.0 {
                best = v;
                best_mv = Some(mv);
            }
            if window.fail_high(v) {
                break;
            }
            let raised = window.raise_lb(v);
            raised_alpha = raised_alpha || raised;
        }
        if let Some(m) = best_mv {
            let kind = node_kind(&window, best, raised_alpha);
            self.tt.store(&pos.board, pos.ply, TableEntry { mv: m, eval: best, depth: 0, kind });
        }
        Some((best, best_mv))
    }

    /// Searches `pos` to `depth` plies (then resolves captures), returning its score
    /// and best move. `None` means the node limit or the deadline stopped the search
    /// (only when aborting is allowed). A position without moves scores as a draw
    /// (stalemate) or as mated here.
    pub fn negamax<S: SearchType>(&mut self, st: S, pos: &Position, window: Window, depth: i16) -> (r: Option<(Eval, Option<ChessMove>)>)
        requires
            old(self).wf(),
            pos.wf(),
            window_ok(window),
            0 <= depth,
            pos.ply + depth <= MAX_PLY,
        ensures
            final(self).wf(),
            final(self).same_setup(&*old(self)),
            final(self).is_valid() == old(self).is_valid(),
            final(self).allow_abort == old(self).allow_abort,
            r is None ==> old(self).allow_abort && (old(self).spec_deadline() is Some
                || final(self).stats.nodes == 0 || final(self).stats.nodes > old(self).node_limit),
            r matches Some((v, m)) ==> {
                &&& score_ok(v, pos.ply)
                &&& (m matches Some(mv) ==> move_ok(pos.board, mv))
                &&& final(self).path() == old(self).path()
            },
            depth > 0 ==> (r matches Some((v, None)) ==> v.0 == (if crate::chess::spec_board_checkers(pos.board) == 0 {
                0
            } else {
                -MATE + pos.ply
            })),
            depth > 0 && spec_board_legal_moves(pos.board).len() == 0 ==> (r matches Some((_, m)) ==> m is None
                && final(self).tt == old(self).tt),
            depth > 0 && spec_board_legal_moves(pos.board).len() > 0 && spec_all_playable(pos.board) ==> (r matches Some(
                (_, m),
            ) ==> m is Some),
            depth == 0 ==> ({
                let s = spec_qsearch(old(self).tt.view(), old(self).tt.age(), *old(self).net, spec_node(pos), window);
                &&& r == Some((s.0, s.1))
                &&& final(self).tt.view() == s.2
            }),
            depth > 0 && spec_tt_cuts(spec_get(old(self).tt.view(), pos.board, pos.ply), window, depth) ==> (r is None
                || r == Some((spec_get(old(self).tt.view(), pos.board, pos.ply)->0.eval, Some(spec_get(old(self).tt.view(), pos.board, pos.ply)->0.mv)))),
            depth >= 2 && spec_all_playable(pos.board) && !spec_tt_cuts(spec_get(old(self).tt.view(), pos.board, pos.ply), window, depth)
                && spec_mate_in_one(pos.board, old(self).path()) ==> (r matches Some((v, _)) ==> v.0 >= MATE - pos.ply - 1
                || v.0 >= window.ub.0),
        decreases depth,
    {
        if depth == 0 {
            proof {
                vstd::arithmetic::power2::lemma2_to64_rest();
                crate::chess::lemma_popcount_le(spec_board_occupied(pos.board), 64);
            }
            return self.qsearch(st, pos, window);
        }
        let mut window = window;
        let n = self.stats.nodes;
        self.stats.nodes = n.wrapping_add(1);
        if self.allow_abort {
            if n >= self.node_limit {
                return None;
            }
            if let Some(deadline) = self.deadline {
                if n >= self.next_deadline_check {
                    let elapsed = elapsed_nanos(&self.start);
                    if elapsed > deadline {
                        return None;
                    }
                    self.next_deadline_check = n.wrapping_add(estimate_nodes_to_deadline(deadline - elapsed));
                }
            }
        }
        let tt = self.tt.get(&pos.board, pos.ply);
        proof {
            lemma_get_sound(self.tt.view(), pos.board, pos.ply);
        }
        if let Some(e) = tt {
            if e.depth >= depth && bound_allows_cutoff(e.kind, &window, e.eval) {
                return Some((e.eval, Some(e.mv)));
            }
        }
        let hash_move = match tt {
            Some(e) => Some(e.mv),
            None => None,
        };
        let mut picker = MovePicker::new(pos, hash_move);
        let mut best = Eval::mate().add_time(pos.ply).neg();
        let mut best_mv: Option<ChessMove> = None;
        let mut raised_alpha = false;
        let ghost state0 = self.state;
        let ghost mut exhausted = false;
        let ghost ub0 = window.ub;
        let ghost cond = depth >= 2 && spec_all_playable(pos.board) && !spec_tt_cuts(
            spec_get(old(self).tt.view(), pos.board, pos.ply),
            window,
            depth,
        ) && spec_mate_in_one(pos.board, old(self).path());
        let ghost mut gen_state = state0;
        let ghost mj = choose|j: int|
            0 <= j < spec_board_legal_moves(pos.board).len() && spec_mates(
                pos.board,
                (#[trigger] spec_board_legal_moves(pos.board)[j]).1,
            ) && !spec_seen(
                old(self).path(),
                spec_board_hash(spec_board_play(pos.board, spec_board_legal_moves(pos.board)[j].1)),
                spec_board_halfmove_clock(spec_board_play(pos.board, spec_board_legal_moves(pos.board)[j].1)),
            );
        let ghost mm = spec_board_legal_moves(pos.board)[mj].1;
        loop
            invariant
                exhausted ==> picker.generated && picker.next == picker.moves.len(),
                window.ub == ub0,
                cond ==> 0 <= mj < spec_board_legal_moves(pos.board).len() && spec_mates(pos.board, mm)
                    && !spec_seen(
                    old(self).path(),
                    spec_board_hash(spec_board_play(pos.board, mm)),
                    spec_board_halfmove_clock(spec_board_play(pos.board, mm)),
                ) && mm == spec_board_legal_moves(pos.board)[mj].1 && depth >= 2
                    && spec_all_playable(pos.board),
                hash_move matches Some(h) ==> exists|j: int|
                    0 <= j < spec_board_legal_moves(pos.board).len() && (#[trigger] spec_board_legal_moves(pos.board)[j]).1 == h,
                picker.generated ==> picker.moves@.to_multiset() == spec_generated(
                    pos.board,
                    hash_move,
                    gen_state,
                    pos.ply,
                ).to_multiset(),
                cond && best.0 < MATE - pos.ply - 1 ==> (forall|i: int|
                    0 <= i < picker.next && picker.generated ==> (#[trigger] picker.moves@[i]).0 != mm)
                    && (!picker.generated && picker.next == 1 ==> hash_move != Some(mm)),
                self.wf(),
                self.same_setup(&*old(self)),
                self.path() == old(self).path(),
                self.is_valid() == old(self).is_valid(),
                self.allow_abort == old(self).allow_abort,
                pos.wf(),
                1 <= depth,
                pos.ply + depth <= MAX_PLY,
                window_ok(window),
                picker.wf(),
                picker.pos == pos,
                score_ok(best, pos.ply),
                best_mv matches Some(m) ==> move_ok(pos.board, m) && -MATE + pos.ply + 2 <= best.0,
                best_mv is None ==> best.0 == -MATE + pos.ply,
                picker.hashmv == hash_move,
                hash_move is None <==> spec_get(old(self).tt.view(), pos.board, pos.ply) is None,
                spec_board_legal_moves(pos.board).len() == 0 && hash_move is None ==> best_mv is None
                    && (picker.generated ==> picker.moves.len() == 0) && (!picker.generated ==> picker.next == 0),
                best_mv is None ==> {
                    &&& self.state == state0
                    &&& self.tt == old(self).tt
                    &&& picker.generated ==> picker.moves@.to_multiset() == spec_generated(
                        pos.board,
                        hash_move,
                        state0,
                        pos.ply,
                    ).to_multiset()
                    &&& forall|i: int|
                        0 <= i < picker.next && picker.generated ==> !move_allowed(
                            pos.board,
                            (#[trigger] picker.moves@[i]).0,
                        )
                    &&& (!picker.generated && picker.next == 1 ==> (hash_move matches Some(h) && !move_allowed(
                        pos.board,
                        h,
                    )))
                },
            ensures
                best_mv is None ==> exhausted,
                best.0 < ub0.0 ==> exhausted,
            decreases picker.stage(), picker.left(),
        {
            let ghost was_generated = picker.generated;
            let ghost state_now = self.state;
            let picked = picker.pick_move(&self.state);
            proof {
                if !was_generated && picker.generated {
                    gen_state = state_now;
                }
                if spec_board_legal_moves(pos.board).len() == 0 && hash_move is None && !was_generated
                    && picker.generated {
                    broadcast use vstd::seq_lib::group_to_multiset_ensures;
                    assert(spec_generated(pos.board, hash_move, self.state, pos.ply) =~= Seq::empty());
                    assert(picker.moves@.to_multiset().len() == 0);
                }
            }
            let (i, mv) = match picked {
                Some((i, mv, _)) => (i, mv),
                None => {
                    proof {
                        exhausted = true;
                    }
                    break;
                },
            };
            if !move_playable(&pos.board, mv) {
                // a legal move of a valid board always is
                continue;
            }
            let new_pos = pos.play_move(self.net, mv);
            let v;
            if self.is_repetition(&new_pos.board) {
                v = Eval::draw();
            } else {
                self.push_repetition(&new_pos.board);
                if i == 0 {
                    v = match self.negamax(st, &new_pos, window.neg(), depth - 1) {
                        Some((c, _)) => c.neg(),
                        None => return None,
                    };
                } else {
                    let zw = Window::null(window.lb());
                    let first = match self.negamax(ZeroWidth, &new_pos, zw.neg(), depth - 1) {
                        Some((c, _)) => c.neg(),
                        None => return None,
                    };
                    if window.inside(first) {
                        v = match self.negamax(st, &new_pos, window.neg(), depth - 1) {
                            Some((c, _)) => c.neg(),
                            None => return None,
                        };
                    } else {
                        v = first;
                    }
                }
                self.pop_repetition();
            }
            if v.0 > best.0 {
                best = v;
                best_mv = Some(mv);
            }
            if window.fail_high(v) {
                update_history(&mut self.state, &picker, mv, depth);
                break;
            }
            let raised = window.raise_lb(v);
            raised_alpha = raised_alpha || raised;
        }
        proof {
            if best_mv is None && spec_board_legal_moves(pos.board).len() > 0 && spec_all_playable(pos.board) {
                assert(exhausted);
                broadcast use vstd::seq_lib::group_to_multiset_ensures;
                lemma_generated_has_playable(pos.board, hash_move, state0, pos.ply);
                let g = spec_generated(pos.board, hash_move, state0, pos.ply);
                let i = choose|i: int| 0 <= i < g.len() && move_allowed(pos.board, (#[trigger] g[i]).0);
                assert(g.contains(g[i]));
                assert(g.to_multiset().count(g[i]) > 0);
                assert(picker.moves@.contains(g[i]));
                let x = choose|x: int| 0 <= x < picker.moves@.len() && picker.moves@[x] == g[i];
                assert(!move_allowed(pos.board, picker.moves@[x].0));
            }
        }
        proof {
            if cond && best.0 < MATE - pos.ply - 1 && best.0 < ub0.0 {
                assert(exhausted);
                broadcast use vstd::seq_lib::group_to_multiset_ensures;
                lemma_generated_lists(pos.board, hash_move, gen_state, pos.ply, mj);
                let g = spec_generated(pos.board, hash_move, gen_state, pos.ply);
                let i = choose|i: int| 0 <= i < g.len() && (#[trigger] g[i]).0 == mm;
                assert(g.contains(g[i]));
                assert(g.to_multiset().count(g[i]) > 0);
                assert(picker.moves@.contains(g[i]));
                let x = choose|x: int| 0 <= x < picker.moves@.len() && picker.moves@[x] == g[i];
                assert(picker.moves@[x].0 == mm);
            }
        }
        if best_mv.is_none() && board_checkers(&pos.board) == 0 {
            return Some((Eval::draw(), None));
        }
        if let Some(m) = best_mv {
            let kind = node_kind(&window, best, raised_alpha);
            self.tt.store(&pos.board, pos.ply, TableEntry { mv: m, eval: best, depth, kind });
        }
        Some((best, best_mv))
    }
}

} // verus!
