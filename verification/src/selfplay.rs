//! Self-play games for training data: the rules that end a game and decide its result,
//! and the positions kept for training. Choosing the moves (the engine or a random
//! pick) and probing endgame tablebases are left to the caller.
use vstd::prelude::*;
use crate::chess::{
    ChessMove, GameStatus, PieceKind, Side, board_checkers, board_clone, board_hash,
    board_occupied, board_pieces, board_play_unchecked, board_side_to_move, board_status, popcnt,
    popcount, spec_board_checkers, spec_board_hash, spec_board_is_legal, spec_board_occupied,
    spec_board_pieces, spec_board_side_to_move, spec_board_status,
};
use crate::chess::{
    spec_board_legal_moves, spec_double_chess960_startpos, board_chess960_startpos, board_double_chess960_startpos, board_legal_moves, board_startpos,
};
use crate::engine::{lemma_line_extend, lemma_line_len, line_legal, spec_line};
use crate::random::random_below;

verus! {

/// A game result from White's side: 0 White lost, 1 drawn, 2 White won.
pub type GameResult = u8;

/// A tablebase verdict for the side to move.
#[derive(Clone, Copy, Debug, PartialEq, Eq, Structural)]
pub enum Wdl {
    Loss,
    BlessedLoss,
    Draw,
    CursedWin,
    Win,
}

/// The result when the side to move loses.
pub open spec fn spec_loss_for(side: Side) -> GameResult {
    match side {
        Side::White => 0,
        Side::Black => 2,
    }
}

pub fn loss_for(side: Side) -> (r: GameResult)
    ensures
        r == spec_loss_for(side),
{
    match side {
        Side::White => 0,
        Side::Black => 2,
    }
}

/// The game stops on the board itself: it is over by the rules, or only kings (and
/// at most one minor piece) are left.
pub open spec fn spec_stops(board: cozy_chess::Board) -> bool {
    let n = popcount(spec_board_occupied(board));
    ||| spec_board_status(board) != GameStatus::Ongoing
    ||| n == 2
    ||| (n == 3 && (spec_board_pieces(board, PieceKind::Bishop) | spec_board_pieces(board, PieceKind::Knight)) != 0)
}

/// The result a tablebase verdict gives: a win or loss for the side to move, and a
/// draw for the rest (cursed wins and blessed losses included).
pub open spec fn spec_tablebase_result(side: Side, wdl: Wdl) -> GameResult {
    match wdl {
        Wdl::Win => (2 - spec_loss_for(side)) as u8,
        Wdl::Loss => spec_loss_for(side),
        _ => 1,
    }
}

/// A game in progress from `start`: the moves so far with the tablebase result known
/// before each, the positions seen, and the result once decided.
pub struct SelfPlay {
    pub start: cozy_chess::Board,
    pub board: cozy_chess::Board,
    pub repetitions: Vec<u64>,
    pub outcome: Option<GameResult>,
    pub game: Vec<(ChessMove, Option<GameResult>)>,
}

impl SelfPlay {
    /// The moves played so far.
    pub open spec fn moves(&self) -> Seq<ChessMove> {
        self.game@.map_values(|e: (ChessMove, Option<GameResult>)| e.0)
    }

    /// The moves were legal and lead to `board`.
    pub open spec fn wf(&self) -> bool {
        &&& line_legal(self.start, self.moves())
        &&& self.board == spec_line(self.start, self.moves()).last()
    }

    pub fn new(start: cozy_chess::Board) -> (r: Self)
        ensures
            r.wf(),
            r.start == start,
            r.board == start,
            r.repetitions@.len() == 0,
            r.outcome is None,
            r.game@.len() == 0,
    {
        let board = board_clone(&start);
        let r = SelfPlay { start, board, repetitions: Vec::new(), outcome: None, game: Vec::new() };
        assert(r.moves() =~= Seq::<ChessMove>::empty());
        r
    }

    /// Ends the game if it is over: by the rules, by insufficient material, or by a
    /// position seen before in this game (the current position is remembered
    /// otherwise). An ending fixes the result, unless a tablebase fixed it earlier, as
    /// a loss for the side to move.
    pub fn adjudicate(&mut self) -> (r: bool)
        requires
            old(self).wf(),
        ensures
            final(self).wf(),
            final(self).start == old(self).start,
            final(self).board == old(self).board,
            final(self).game@ == old(self).game@,
            r == (spec_stops(old(self).board) || old(self).repetitions@.contains(spec_board_hash(old(self).board))),
            final(self).outcome == if r {
                Some(match old(self).outcome {
                    Some(o) => o,
                    None => spec_loss_for(spec_board_side_to_move(old(self).board)),
                })
            } else {
                old(self).outcome
            },
            final(self).repetitions@ == if spec_stops(old(self).board) || old(self).repetitions@.contains(spec_board_hash(old(self).board)) {
                old(self).repetitions@
            } else {
                old(self).repetitions@.push(spec_board_hash(old(self).board))
            },
    {
        let loss = loss_for(board_side_to_move(&self.board));
        let status = board_status(&self.board);
        let n = popcnt(board_occupied(&self.board));
        let minors = board_pieces(&self.board, PieceKind::Bishop) | board_pieces(&self.board, PieceKind::Knight);
        let stops = match status {
            GameStatus::Ongoing => n == 2 || (n == 3 && minors != 0),
            _ => true,
        };
        if stops {
            self.outcome = Some(match self.outcome {
                Some(o) => o,
                None => loss,
            });
            return true;
        }
        let h = board_hash(&self.board);
        let mut i: usize = 0;
        while i < self.repetitions.len()
            invariant
                i <= self.repetitions.len(),
                self.repetitions@ == old(self).repetitions@,
                self.start == old(self).start,
                self.board == old(self).board,
                self.game@ == old(self).game@,
                self.outcome == old(self).outcome,
                self.wf(),
                h == spec_board_hash(old(self).board),
                loss == spec_loss_for(spec_board_side_to_move(old(self).board)),
                !spec_stops(old(self).board),
                forall|j: int| 0 <= j < i ==> self.repetitions@[j] != h,
            decreases self.repetitions.len() - i,
        {
            if self.repetitions[i] == h {
                self.outcome = Some(match self.outcome {
                    Some(o) => o,
                    None => loss,
                });
                assert(self.repetitions@[i as int] == h);
                return true;
            }
            i = i + 1;
        }
        self.repetitions.push(h);
        false
    }

    /// Whether a tablebase of up to `max_pieces` pieces covers the position.
    pub fn wants_probe(&self, max_pieces: u32) -> (r: bool)
        ensures
            r == (popcount(spec_board_occupied(self.board)) <= max_pieces),
    {
        popcnt(board_occupied(&self.board)) <= max_pieces
    }

    /// Takes the tablebase verdict for the position (`None` when it was not probed or
    /// not found) and returns the result it gives; the first such result becomes the
    /// game's result.
    pub fn tablebase_result(&mut self, probe: Option<Wdl>) -> (r: Option<GameResult>)
        requires
            old(self).wf(),
        ensures
            final(self).wf(),
            final(self).start == old(self).start,
            final(self).board == old(self).board,
            final(self).game@ == old(self).game@,
            final(self).repetitions@ == old(self).repetitions@,
            r == match probe {
                Some(w) => Some(spec_tablebase_result(spec_board_side_to_move(old(self).board), w)),
                None => None,
            },
            final(self).outcome == if old(self).outcome is None { r } else { old(self).outcome },
    {
        let loss = loss_for(board_side_to_move(&self.board));
        let result = match probe {
            Some(Wdl::Win) => Some(2 - loss),
            Some(Wdl::Loss) => Some(loss),
            Some(_) => Some(1),
            None => None,
        };
        if result.is_some() && self.outcome.is_none() {
            self.outcome = result;
        }
        result
    }

    /// Plays a legal move, remembering the tablebase result known before it.
    pub fn play(&mut self, mv: ChessMove, tb_outcome: Option<GameResult>)
        requires
            old(self).wf(),
            mv.valid(),
            spec_board_is_legal(old(self).board, mv),
        ensures
            final(self).wf(),
            final(self).start == old(self).start,
            final(self).game@ == old(self).game@.push((mv, tb_outcome)),
            final(self).repetitions@ == old(self).repetitions@,
            final(self).outcome == old(self).outcome,
    {
        let ghost before = self.moves();
        self.game.push((mv, tb_outcome));
        board_play_unchecked(&mut self.board, mv);
        proof {
            assert(self.moves() =~= before.push(mv));
            lemma_line_extend(self.start, before, mv);
        }
    }

    /// The training positions of a finished game: each position before a move, unless
    /// the side to move was in check, with the tablebase result known there or else
    /// the game's result.
    pub fn training_positions(&self) -> (r: Vec<(cozy_chess::Board, GameResult)>)
        requires
            self.wf(),
            self.outcome is Some,
        ensures
            r@ == spec_training_positions(spec_line(self.start, self.moves()), self.game@, self.outcome->0, self.game@.len() as int),
    {
        let outcome = self.outcome.unwrap();
        let ghost line = spec_line(self.start, self.moves());
        proof {
            crate::engine::lemma_line_len(self.start, self.moves());
        }
        let mut board = board_clone(&self.start);
        let mut out: Vec<(cozy_chess::Board, GameResult)> = Vec::new();
        let mut k: usize = 0;
        while k < self.game.len()
            invariant
                self.wf(),
                k <= self.game.len(),
                line == spec_line(self.start, self.moves()),
                line.len() == self.game.len() + 1,
                board == line[k as int],
                out@ == spec_training_positions(line, self.game@, outcome, k as int),
            decreases self.game.len() - k,
        {
            let (mv, tb) = self.game[k];
            if board_checkers(&board) == 0 {
                let result = match tb {
                    Some(t) => t,
                    None => outcome,
                };
                out.push((board_clone(&board), result));
            }
            proof {
                assert(self.moves()[k as int] == mv);
                crate::engine::lemma_line_step(self.start, self.moves(), k as int);
            }
            board_play_unchecked(&mut board, mv);
            k = k + 1;
        }
        out
    }
}

/// The positions kept from the first `k` moves of a game.
pub open spec fn spec_training_positions(
    line: Seq<cozy_chess::Board>,
    game: Seq<(ChessMove, Option<GameResult>)>,
    outcome: GameResult,
    k: int,
) -> Seq<(cozy_chess::Board, GameResult)>
    decreases k,
{
    if k <= 0 {
        seq![]
    } else {
        let prev = spec_training_positions(line, game, outcome, k - 1);
        if spec_board_checkers(line[k - 1]) == 0 {
            prev.push((line[k - 1], match game[k - 1].1 {
                Some(t) => t,
                None => outcome,
            }))
        } else {
            prev
        }
    }
}

/// Training data holds no position whose side to move is in check, and each kept
/// position carries the result known when it was played: the tablebase's, or else the
/// game's.
pub proof fn lemma_training_positions_sound(
    line: Seq<cozy_chess::Board>,
    game: Seq<(ChessMove, Option<GameResult>)>,
    outcome: GameResult,
    k: int,
)
    requires
        0 <= k <= game.len(),
        game.len() < line.len(),
    ensures
        forall|i: int| 0 <= i < spec_training_positions(line, game, outcome, k).len() ==> {
            let (b, res) = #[trigger] spec_training_positions(line, game, outcome, k)[i];
            &&& spec_board_checkers(b) == 0
            &&& exists|j: int| 0 <= j < k && line[j] == b && res == match game[j].1 {
                Some(t) => t,
                None => outcome,
            }
        },
    decreases k,
{
    if k > 0 {
        lemma_training_positions_sound(line, game, outcome, k - 1);
        let prev = spec_training_positions(line, game, outcome, k - 1);
        let cur = spec_training_positions(line, game, outcome, k);
        assert forall|i: int| 0 <= i < cur.len() implies {
            let (b, res) = #[trigger] cur[i];
            &&& spec_board_checkers(b) == 0
            &&& exists|j: int| 0 <= j < k && line[j] == b && res == match game[j].1 {
                Some(t) => t,
                None => outcome,
            }
        } by {
            if i < prev.len() {
                assert(cur[i] == prev[i]);
                let (b, res) = prev[i];
                let j = choose|j: int| 0 <= j < k - 1 && line[j] == b && res == match game[j].1 {
                    Some(t) => t,
                    None => outcome,
                };
                assert(0 <= j < k);
            } else {
                let j = k - 1;
                assert(line[j] == cur[i].0);
            }
        }
    }
}

// ---------------------------------------------------------------------------
// Random openings
// ---------------------------------------------------------------------------

/// The starts a game may begin from: with `frc` a Chess960 start (both sides set up
/// alike), else with `dfrc` a double Chess960 start (each side set up on its own), else
/// the standard start (Scharnagl number 518 for both sides).
pub open spec fn spec_start_position(board: cozy_chess::Board, frc: bool, dfrc: bool) -> bool {
    if frc {
        exists|n: u32| n < 960 && board == #[trigger] spec_double_chess960_startpos(n, n)
    } else if dfrc {
        exists|white: u32, black: u32|
            white < 960 && black < 960 && board == #[trigger] spec_double_chess960_startpos(
                white,
                black,
            )
    } else {
        board == spec_double_chess960_startpos(518, 518)
    }
}

/// The position a game starts from before its random opening, with its Scharnagl
/// numbers drawn at random.
pub fn random_start(frc: bool, dfrc: bool) -> (r: cozy_chess::Board)
    ensures
        spec_start_position(r, frc, dfrc),
{
    if frc {
        let n = random_below(960) as u32;
        let board = board_chess960_startpos(n);
        proof {
            assert(n < 960 && board == spec_double_chess960_startpos(n, n));
        }
        board
    } else if dfrc {
        let white = random_below(960) as u32;
        let black = random_below(960) as u32;
        let board = board_double_chess960_startpos(white, black);
        proof {
            assert(white < 960 && black < 960 && board == spec_double_chess960_startpos(white, black));
        }
        board
    } else {
        board_startpos()
    }
}

/// The number of legal moves.
pub fn legal_move_count(board: &cozy_chess::Board) -> (r: usize)
    ensures
        r == spec_board_legal_moves(*board).len(),
{
    board_legal_moves(board).len()
}

/// The legal move at `index` in generation order, if there are that many.
pub fn nth_legal_move(board: &cozy_chess::Board, index: usize) -> (r: Option<ChessMove>)
    ensures
        r == (if index < spec_board_legal_moves(*board).len() {
            Some(spec_board_legal_moves(*board)[index as int].1)
        } else {
            None
        }),
        r matches Some(mv) ==> mv.valid() && spec_board_is_legal(*board, mv),
{
    let legal = board_legal_moves(board);
    if index < legal.len() {
        Some(legal[index].1)
    } else {
        None
    }
}

/// A line of legal moves from `start`, shorter than `plies`, that ends in a position
/// without legal moves.
pub open spec fn spec_dead_end(start: cozy_chess::Board, moves: Seq<ChessMove>, plies: nat) -> bool {
    &&& moves.len() < plies
    &&& line_legal(start, moves)
    &&& spec_board_legal_moves(spec_line(start, moves).last()).len() == 0
}

/// Plays `plies` legal moves, each picked at random, from `start`. Returns the position
/// reached and the moves played, or `None` when a position on the way has no legal move.
pub fn random_line(start: &cozy_chess::Board, plies: usize) -> (r: Option<(cozy_chess::Board, Vec<ChessMove>)>)
    ensures
        r matches Some((board, moves)) ==> {
            &&& moves@.len() == plies
            &&& line_legal(*start, moves@)
            &&& board == spec_line(*start, moves@).last()
        },
        r is None ==> exists|moves: Seq<ChessMove>| spec_dead_end(*start, moves, plies as nat),
{
    let mut board = board_clone(start);
    let mut moves: Vec<ChessMove> = Vec::new();
    proof {
        lemma_line_len(*start, moves@);
    }
    let mut i: usize = 0;
    while i < plies
        invariant
            i <= plies,
            moves@.len() == i,
            line_legal(*start, moves@),
            board == spec_line(*start, moves@).last(),
        decreases plies - i,
    {
        let count = legal_move_count(&board);
        if count == 0 {
            proof {
                assert(spec_dead_end(*start, moves@, plies as nat));
            }
            return None;
        }
        let mv = match nth_legal_move(&board, random_below(count)) {
            Some(mv) => mv,
            None => return None,
        };
        proof {
            lemma_line_extend(*start, moves@, mv);
        }
        board_play_unchecked(&mut board, mv);
        moves.push(mv);
        i = i + 1;
    }
    Some((board, moves))
}

/// A random opening line that gives no starting position: it runs into a position
/// without legal moves before its eighth move, or its eight moves end the game.
pub open spec fn spec_failed_opening(start: cozy_chess::Board, moves: Seq<ChessMove>) -> bool {
    ||| spec_dead_end(start, moves, 8)
    ||| (moves.len() == 8 && line_legal(start, moves) && spec_board_status(
        spec_line(start, moves).last(),
    ) != GameStatus::Ongoing)
}

/// One try at the starting position of a self-play game: a random start, then eight
/// random moves. It fails when the line runs into a position without legal moves or
/// ends in a position where the game is over; the caller then tries again.
pub fn opening_attempt(frc: bool, dfrc: bool) -> (r: Option<cozy_chess::Board>)
    ensures
        r matches Some(board) ==> {
            &&& spec_board_status(board) == GameStatus::Ongoing
            &&& exists|start: cozy_chess::Board, moves: Seq<ChessMove>|
                spec_start_position(start, frc, dfrc) && moves.len() == 8 && line_legal(start, moves)
                    && board == spec_line(start, moves).last()
        },
        r is None ==> exists|start: cozy_chess::Board, moves: Seq<ChessMove>|
            spec_start_position(start, frc, dfrc) && spec_failed_opening(start, moves),
{
    let start = random_start(frc, dfrc);
    match random_line(&start, 8) {
        None => {
            proof {
                let moves = choose|moves: Seq<ChessMove>| spec_dead_end(start, moves, 8);
                assert(spec_start_position(start, frc, dfrc) && spec_failed_opening(start, moves));
            }
            None
        },
        Some((board, moves)) => {
            if board_status(&board) != GameStatus::Ongoing {
                proof {
                    assert(spec_start_position(start, frc, dfrc) && spec_failed_opening(start, moves@));
                }
                None
            } else {
                proof {
                    assert(moves@.len() == 8 && line_legal(start, moves@) && board == spec_line(
                        start,
                        moves@,
                    ).last());
                }
                Some(board)
            }
        },
    }
}

} // verus!
