//! The classical engine's front end: the position reached from the game's moves, the
//! hashes of the positions before it, and the cache table that outlives a search.
use vstd::prelude::*;
use crate::chess::{ChessMove, board_hash, board_play_unchecked, spec_board_hash};
use crate::engine::{lemma_line_len, lemma_line_step, line_legal, spec_line};
use super::cache::CacheTable;
use super::search::{EngineOptions, SearchResult};

verus! {

/// What a search reports to, and asks of, its user.
pub trait SearchHandler {
    /// Whether the search should stop now.
    fn stop_search(&self) -> bool;

    /// A search iteration finished with this result.
    fn new_result(&mut self, result: SearchResult);
}

/// What a search shares with its engine.
pub struct SearchSharedState<H> {
    pub handler: H,
    pub history: Vec<u64>,
    pub cache_table: CacheTable,
}

/// The classical engine, ready to search the position after the game's moves.
pub struct Engine<H> {
    pub board: cozy_chess::Board,
    pub shared: SearchSharedState<H>,
    pub options: EngineOptions,
}

/// The hashes of the boards of a line before each move (all but the last board).
pub open spec fn spec_history(line: Seq<cozy_chess::Board>) -> Seq<u64> {
    line.drop_last().map_values(|b: cozy_chess::Board| spec_board_hash(b))
}

impl<H: SearchHandler> Engine<H> {
    /// Plays `moves` from `init_pos`, remembering the hash of each position before a
    /// move.
    pub fn new(handler: H, init_pos: cozy_chess::Board, moves: &Vec<ChessMove>, options: EngineOptions, cache_table: CacheTable) -> (r: Self)
        requires
            line_legal(init_pos, moves@),
        ensures
            r.board == spec_line(init_pos, moves@).last(),
            r.shared.history@ == spec_history(spec_line(init_pos, moves@)),
            r.shared.handler == handler,
            r.shared.cache_table == cache_table,
            r.options == options,
    {
        let ghost line = spec_line(init_pos, moves@);
        proof {
            lemma_line_len(init_pos, moves@);
        }
        let mut history: Vec<u64> = Vec::new();
        let mut board = init_pos;
        let mut k: usize = 0;
        while k < moves.len()
            invariant
                k <= moves.len(),
                line == spec_line(init_pos, moves@),
                line.len() == moves.len() + 1,
                line_legal(init_pos, moves@),
                board == line[k as int],
                history@ == line.take(k as int).map_values(|b: cozy_chess::Board| spec_board_hash(b)),
            decreases moves.len() - k,
        {
            history.push(board_hash(&board));
            proof {
                lemma_line_step(init_pos, moves@, k as int);
                assert(line.take(k + 1).map_values(|b: cozy_chess::Board| spec_board_hash(b))
                    =~= line.take(k as int).map_values(|b: cozy_chess::Board| spec_board_hash(b)).push(spec_board_hash(line[k as int])));
            }
            board_play_unchecked(&mut board, moves[k]);
            k = k + 1;
        }
        proof {
            assert(line.take(k as int) =~= line.drop_last());
        }
        Engine { board, shared: SearchSharedState { handler, history, cache_table }, options }
    }

    /// Gives the cache table back, to keep it for the next search.
    pub fn into_cache_table(self) -> (r: CacheTable)
        ensures
            r == self.shared.cache_table,
    {
        self.shared.cache_table
    }
}

} // verus!
