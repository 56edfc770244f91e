//! A node of the NNUE engine's search: the board, its distance from the root, and the
//! accumulator kept in step with it.
use vstd::prelude::*;
use crate::chess::{
    ChessMove, board_clone, board_colors, board_null_move, board_play_unchecked,
    board_side_to_move, bb_has, spec_board_colors, spec_board_is_legal, spec_board_null_move,
    spec_board_play, spec_board_side_to_move, spec_has,
};
use crate::eval::Eval;
use crate::nnue::{
    L1_SIZE, Nnue, NnueAccumulator, move_allowed, spec_apply_updates, spec_material_after, spec_move_updates,
};

verus! {

pub struct Position {
    pub board: cozy_chess::Board,
    pub ply: u16,
    pub nnue: NnueAccumulator,
}

impl Position {
    /// The accumulator has both perspectives.
    pub open spec fn wf(&self) -> bool {
        self.nnue.white.len() == L1_SIZE && self.nnue.black.len() == L1_SIZE
    }

    pub fn from_root(net: &Nnue, board: cozy_chess::Board) -> (r: Position)
        requires
            net.wf(),
        ensures
            r.board == board,
            r.ply == 0,
            r.wf(),
    {
        let nnue = NnueAccumulator::new(net, &board);
        Position { nnue, board, ply: 0 }
    }

    /// The child position after a legal move.
    pub fn play_move(&self, net: &Nnue, mv: ChessMove) -> (r: Position)
        requires
            net.wf(),
            self.wf(),
            mv.valid(),
            spec_board_is_legal(self.board, mv),
            move_allowed(self.board, mv),
            self.ply < u16::MAX,
        ensures
            r.board == spec_board_play(self.board, mv),
            r.ply == self.ply + 1,
            r.nnue.material == spec_material_after(self.board, mv, self.nnue.material),
            r.nnue.white@ == spec_apply_updates(self.nnue.white@, net.rows(), spec_move_updates(self.board, mv).map_values(
                |u: (bool, usize, usize)| (u.0, u.1),
            )),
            r.nnue.black@ == spec_apply_updates(self.nnue.black@, net.rows(), spec_move_updates(self.board, mv).map_values(
                |u: (bool, usize, usize)| (u.0, u.2),
            )),
            r.wf(),
            crate::chess::spec_has(crate::chess::spec_board_colors(self.board, spec_board_side_to_move(self.board).spec_flip()), mv.to)
                ==> crate::chess::popcount(crate::chess::spec_board_occupied(r.board)) + 1 == crate::chess::popcount(
                crate::chess::spec_board_occupied(self.board),
            ),
    {
        let mut board = board_clone(&self.board);
        board_play_unchecked(&mut board, mv);
        Position { board, nnue: self.nnue.play_move(net, &self.board, mv), ply: self.ply + 1 }
    }

    /// The position after passing the turn, unless the side to move is in check.
    pub fn null_move(&self) -> (r: Option<Position>)
        requires
            self.ply < u16::MAX,
        ensures
            r is Some <==> spec_board_null_move(self.board) is Some,
            r matches Some(p) ==> p.board == spec_board_null_move(self.board)->0 && p.ply == self.ply + 1
                && p.nnue.white@ == self.nnue.white@ && p.nnue.black@ == self.nnue.black@
                && p.nnue.material == self.nnue.material,
    {
        match board_null_move(&self.board) {
            Some(board) => Some(Position { board, nnue: self.nnue.copy(), ply: self.ply + 1 }),
            None => None,
        }
    }

    /// The network's evaluation for the side to move.
    pub fn static_eval(&self, net: &Nnue) -> (r: Eval)
        requires
            net.wf(),
            self.wf(),
        ensures
            r.0 == self.nnue.spec_eval(net, spec_board_side_to_move(self.board)),
            -crate::eval::MAX_INCONCLUSIVE <= r.0 <= crate::eval::MAX_INCONCLUSIVE,
    {
        self.nnue.calculate(net, board_side_to_move(&self.board))
    }

    /// The move lands on a piece of the opponent.
    pub fn is_capture(&self, mv: ChessMove) -> (r: bool)
        requires
            mv.valid(),
        ensures
            r == spec_has(spec_board_colors(self.board, spec_board_side_to_move(self.board).spec_flip()), mv.to),
    {
        bb_has(board_colors(&self.board, board_side_to_move(&self.board).flip()), mv.to)
    }
}

} // verus!
