//! History heuristic of the classical engine: a score per side, moving piece and
//! destination square, kept within `[-512, 512]`.
use vstd::prelude::*;
use crate::arith::trunc_div;
use crate::chess::{
    ChessMove, PieceKind, Side, board_piece_on, board_side_to_move, spec_board_side_to_move,
    spec_piece_on,
};

verus! {

/// Bound of history scores.
pub const HISTORY_BOUND: i32 = 512;

/// Position of a (side, piece, square) score in the flat table.
pub open spec fn spec_history_index(color: Side, piece: PieceKind, sq: u8) -> int {
    color.spec_index() * 384 + piece.spec_index() * 64 + sq
}

/// A score after an update of weight `depth²`: raised on a cutoff and lowered
/// otherwise, decayed by `change * old / 512`, and clamped to `[-512, 512]`.
pub open spec fn spec_history_update(old: i32, depth: u8, cutoff: bool) -> i32 {
    let change = depth * depth;
    let decay = trunc_div(change * old, 512);
    let raised = if cutoff { old + change } else { old - change };
    let v = raised - decay;
    (if v < -512 { -512 } else if v > 512 { 512 } else { v }) as i32
}

pub struct HistoryTable {
    table: Vec<i32>,
}

/// The score for the side to move's piece on `mv.from` going to `mv.to`.
pub open spec fn spec_board_index(board: cozy_chess::Board, mv: ChessMove) -> int {
    spec_history_index(spec_board_side_to_move(board), spec_piece_on(board, mv.from)->0, mv.to)
}

impl HistoryTable {
    pub closed spec fn view(&self) -> Seq<i32> {
        self.table@
    }

    /// 768 scores, all within bounds.
    pub open spec fn wf(&self) -> bool {
        &&& self.view().len() == 768
        &&& forall|i: int| 0 <= i < 768 ==> -512 <= #[trigger] self.view()[i] <= 512
    }

    /// All scores zero.
    pub fn new() -> (r: Self)
        ensures
            r.wf(),
            r.view() == Seq::new(768, |_i: int| 0i32),
    {
        let mut table: Vec<i32> = Vec::new();
        while table.len() < 768
            invariant
                table.len() <= 768,
                forall|i: int| 0 <= i < table.len() ==> table[i] == 0,
            decreases 768 - table.len(),
        {
            table.push(0);
        }
        let r = HistoryTable { table };
        assert(r.view() =~= Seq::new(768, |_i: int| 0i32));
        r
    }

    fn index(board: &cozy_chess::Board, mv: ChessMove) -> (r: usize)
        requires
            mv.valid(),
            spec_piece_on(*board, mv.from) is Some,
        ensures
            r == spec_board_index(*board, mv),
            r < 768,
    {
        let color = board_side_to_move(board);
        let piece = match board_piece_on(board, mv.from) {
            Some(p) => p,
            None => PieceKind::Pawn,
        };
        color.index() * 384 + piece.index() * 64 + mv.to as usize
    }

    /// The score of a move; its from square must hold a piece.
    pub fn get(&self, board: &cozy_chess::Board, mv: ChessMove) -> (r: i32)
        requires
            self.wf(),
            mv.valid(),
            spec_piece_on(*board, mv.from) is Some,
        ensures
            r == self.view()[spec_board_index(*board, mv)],
    {
        self.table[Self::index(board, mv)]
    }

    /// Rewards (on a cutoff) or penalises a move.
    pub fn update(&mut self, board: &cozy_chess::Board, mv: ChessMove, depth: u8, cutoff: bool)
        requires
            old(self).wf(),
            mv.valid(),
            spec_piece_on(*board, mv.from) is Some,
        ensures
            final(self).wf(),
            final(self).view() == old(self).view().update(
                spec_board_index(*board, mv),
                spec_history_update(old(self).view()[spec_board_index(*board, mv)], depth, cutoff),
            ),
    {
        let i = Self::index(board, mv);
        let history = self.table[i];
        assert(0 <= depth * depth <= 65025) by (nonlinear_arith)
            requires 0 <= depth <= 255;
        let change: i32 = depth as i32 * depth as i32;
        assert(-512 * 65025 <= change * history <= 512 * 65025) by (nonlinear_arith)
            requires 0 <= change <= 65025, -512 <= history <= 512;
        let decay: i32 = change * history / 512;
        let mut h: i32 = if cutoff { history + change } else { history - change };
        h = h - decay;
        h = if h < -512 { -512 } else if h > 512 { 512 } else { h };
        self.table.set(i, h);
        proof {
            assert(change == depth * depth);
            assert forall|j: int| 0 <= j < 768 implies -512 <= #[trigger] self.view()[j] <= 512 by {
                if j != i {
                    assert(self.view()[j] == old(self).view()[j]);
                }
            }
        }
    }
}

} // verus!
