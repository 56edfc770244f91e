//! What the classical engine reports about a completed search.
use vstd::prelude::*;
use crate::chess::ChessMove;
use super::eval::Eval;

verus! {

/// One completed iteration of the search.
#[derive(Debug, Clone)]
pub struct SearchResult {
    pub mv: ChessMove,
    pub eval: Eval,
    pub nodes: u64,
    pub depth: u8,
    pub seldepth: u8,
    pub used_cache_entries: u32,
    pub total_cache_entries: u32,
    pub principal_variation: Vec<ChessMove>,
}

/// Options of the classical engine.
#[derive(Debug, Clone, Copy)]
pub struct EngineOptions {
    pub max_depth: u8,
}

impl EngineOptions {
    /// Depth limit 64 (`Default`).
    pub fn new() -> (r: Self)
        ensures
            r.max_depth == 64,
    {
        EngineOptions { max_depth: 64 }
    }
}

} // verus!
