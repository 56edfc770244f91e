use cozy_chess::Board;
use frozenight::chess::ChessMove;
use frozenight::tantabus::cache::{CacheTable, CacheTableError, TableEntry, TableEntryKind};
use frozenight::tantabus::engine::{Engine, SearchHandler};
use frozenight::tantabus::eval::{Eval, EvalKind};
use frozenight::tantabus::formulas::{
    futility_margin, lmp_quiets_to_check, lmr_calculate_reduction, nmp_calculate_reduction,
    reverse_futility_margin,
};
use frozenight::tantabus::helpers::move_is_quiet;
use frozenight::tantabus::history::HistoryTable;
use frozenight::tantabus::oracle::oracle;
use frozenight::tantabus::partition::PartitionedMoveList;
use frozenight::tantabus::phase::game_phase;
use frozenight::tantabus::search::{EngineOptions, SearchResult};
use frozenight::tantabus::time::{FixedTimeManager, PercentageTimeManager, StandardTimeManager, TimeManager};
use frozenight::tantabus::window::Window;

fn mv(from: u8, to: u8) -> ChessMove {
    ChessMove { from, to, promotion: None }
}

fn result() -> SearchResult {
    SearchResult {
        mv: mv(12, 28),
        eval: Eval::cp(0),
        nodes: 0,
        depth: 1,
        seldepth: 1,
        used_cache_entries: 0,
        total_cache_entries: 1,
        principal_variation: vec![],
    }
}

#[test]
fn cache_table_size_errors() {
    assert!(matches!(CacheTable::new_with_size(0), Err(CacheTableError::NotEnoughMemory)));
    assert!(matches!(CacheTable::new_with_size(15), Err(CacheTableError::NotEnoughMemory)));
    let t = CacheTable::new_with_size(16 * 100).ok().unwrap();
    assert_eq!(t.capacity(), 100);
    assert_eq!(t.len(), 0);
}

#[test]
fn cache_table_set_then_get() {
    let board = Board::default();
    let mut t = CacheTable::new_with_entries(64);
    assert!(t.get(&board, 0).is_none());
    let e = TableEntry { kind: TableEntryKind::Exact, eval: Eval::cp(42), depth: 3, best_move: mv(12, 28) };
    t.set(&board, 0, e);
    assert_eq!(t.get(&board, 0), Some(e));
    assert_eq!(t.len(), 1);
    t.set(&board, 0, TableEntry { depth: 4, ..e });
    assert_eq!(t.len(), 1);
    assert_eq!(t.get(&board, 0).map(|x| x.depth), Some(4));
}

#[test]
fn cache_table_mate_scores_follow_the_ply() {
    let board = Board::default();
    let mut t = CacheTable::new_with_entries(64);
    let e = TableEntry { kind: TableEntryKind::LowerBound, eval: Eval::mate_in(5), depth: 3, best_move: mv(12, 28) };
    t.set(&board, 2, e);
    assert_eq!(t.get(&board, 2).map(|x| x.eval), Some(Eval::mate_in(5)));
    assert_eq!(t.get(&board, 0).map(|x| x.eval), Some(Eval::mate_in(3)));
}

#[test]
fn history_rewards_and_penalises() {
    let board = Board::default();
    let mut h = HistoryTable::new();
    let m = mv(6, 21);
    assert_eq!(h.get(&board, m), 0);
    h.update(&board, m, 4, true);
    assert_eq!(h.get(&board, m), 16);
    h.update(&board, m, 4, false);
    // 16 - 16 - 16 * 16 / 512 = 0
    assert_eq!(h.get(&board, m), 0);
    h.update(&board, m, 30, true);
    assert_eq!(h.get(&board, m), 512);
}

#[test]
fn pruning_formulas() {
    assert_eq!(futility_margin(1), Some(Eval::cp(300)));
    assert_eq!(futility_margin(2), Some(Eval::cp(600)));
    assert_eq!(futility_margin(3), None);
    assert_eq!(reverse_futility_margin(4), Some(Eval::cp(400)));
    assert_eq!(reverse_futility_margin(5), None);
    assert_eq!(lmp_quiets_to_check(2), 10);
    assert_eq!(lmp_quiets_to_check(9), usize::MAX);
    assert_eq!(lmr_calculate_reduction(1, 10, 0), 0);
    assert_eq!(lmr_calculate_reduction(5, 3, 0), 1);
    assert_eq!(lmr_calculate_reduction(5, 8, 0), 2);
    assert_eq!(lmr_calculate_reduction(5, 8, 450), 0);
    assert_eq!(lmr_calculate_reduction(5, 8, -450), 4);
    let w = Window { alpha: Eval::cp(-10), beta: Eval::cp(0) };
    assert_eq!(nmp_calculate_reduction(Eval::cp(-50), w), 3);
    assert_eq!(nmp_calculate_reduction(Eval::cp(150), w), 4);
    assert_eq!(nmp_calculate_reduction(Eval::cp(900), w), 5);
    assert_eq!(nmp_calculate_reduction(Eval::mate_in(3), w), 3);
}

#[test]
fn partitions_come_out_best_first() {
    let mut list = PartitionedMoveList::new();
    list.push((mv(1, 2), 5));
    list.push((mv(3, 4), 50));
    list.push((mv(5, 6), -7));
    let mut p = list.new_partition();
    assert_eq!(list.yield_from_partition(&mut p), Some((mv(3, 4), 50)));
    assert_eq!(list.yield_from_partition(&mut p), Some((mv(1, 2), 5)));
    assert_eq!(list.yielded_from_partition(&p), &[(mv(3, 4), 50), (mv(1, 2), 5)][..]);
    assert_eq!(list.yield_from_partition(&mut p), Some((mv(5, 6), -7)));
    assert_eq!(list.yield_from_partition(&mut p), None);
    let mut q = list.new_partition_from_slice(&[(mv(7, 8), 1), (mv(9, 10), 3)]);
    assert_eq!(list.yield_from_partition(&mut q), Some((mv(9, 10), 3)));
}

#[test]
fn phase_and_quiet_moves() {
    assert_eq!(game_phase(&Board::default()), 0);
    let bare: Board = "4k3/8/8/8/8/8/8/4K3 w - - 0 1".parse().unwrap();
    assert_eq!(game_phase(&bare), 256);
    let b: Board = "4k3/8/8/3p4/4P3/8/8/4K3 w - - 0 1".parse().unwrap();
    assert!(!move_is_quiet(mv(28, 35), &b));
    assert!(move_is_quiet(mv(28, 36), &b));
    assert!(move_is_quiet(mv(4, 12), &b));
}

#[test]
fn classic_oracle_draws() {
    let kk: Board = "4k3/8/8/8/8/8/8/4K3 w - - 0 1".parse().unwrap();
    assert_eq!(oracle(&kk), Some(Eval::cp(0)));
    let kbk: Board = "4k3/8/8/8/8/8/8/2B1K3 w - - 0 1".parse().unwrap();
    assert_eq!(oracle(&kbk), Some(Eval::cp(0)));
    let krk: Board = "4k3/8/8/8/8/8/8/R3K3 w - - 0 1".parse().unwrap();
    assert_eq!(oracle(&krk), None);
    assert_eq!(oracle(&Board::default()), None);
}

#[test]
fn time_managers_count_down() {
    let mut fixed = FixedTimeManager::new(1000);
    assert_eq!(fixed.update(result(), 300), 700);
    assert_eq!(fixed.update(result(), 800), 0);
    let mut pct = PercentageTimeManager::new(200, 500);
    assert_eq!(pct.update(result(), 100), 400);
    let mut std_tm = StandardTimeManager::new(900, 500);
    assert_eq!(std_tm.update(result(), 100), 800);
}

struct Recorder {
    results: Vec<u8>,
}

impl SearchHandler for Recorder {
    fn stop_search(&self) -> bool {
        false
    }

    fn new_result(&mut self, result: SearchResult) {
        self.results.push(result.depth);
    }
}

#[test]
fn engine_plays_moves_and_keeps_history() {
    let moves = vec![mv(12, 28), mv(52, 36)];
    let engine = Engine::new(Recorder { results: vec![] }, Board::default(), &moves, EngineOptions::new(), CacheTable::new_with_entries(8));
    let expected: Board = "rnbqkbnr/pppp1ppp/8/4p3/4P3/8/PPPP1PPP/RNBQKBNR w KQkq e6 0 2".parse().unwrap();
    assert_eq!(engine.board, expected);
    assert_eq!(engine.shared.history.len(), 2);
    assert_eq!(engine.shared.history[0], Board::default().hash());
    assert_eq!(engine.options.max_depth, 64);
    assert!(engine.shared.handler.results.is_empty());
    let t = engine.into_cache_table();
    assert_eq!(t.capacity(), 8);
}

#[test]
fn eval_text() {
    assert_eq!(Eval::cp(123).to_string(), "1.23");
    assert_eq!(Eval::cp(-250).to_string(), "-2.50");
    assert_eq!(Eval::cp(5).to_string(), "0.5");
    assert_eq!(Eval::cp(0).to_string(), "0.0");
    assert_eq!(Eval::mate_in(1).to_string(), "M1");
    assert_eq!(Eval::mate_in(4).to_string(), "M2");
    assert_eq!(Eval::mated_in(3).to_string(), "-M2");
    assert_eq!(EvalKind::Centipawn(-1).to_string(), "-0.1");
}

#[test]
fn fixed_time_manager_spends_its_budget_over_many_updates() {
    let mut fixed = FixedTimeManager::new(1000);
    let mut spent = 0u64;
    for t in [100u64, 250, 50, 400, 300, 10] {
        spent += t;
        assert_eq!(fixed.update(result(), t), 1000u64.saturating_sub(spent));
    }
}
