use cozy_chess::Board;
use frozenight::abdada::AbdadaTable;
use frozenight::chess::{ChessMove, PieceKind, Side};
use frozenight::nnue::{activate, feature, move_playable};
use frozenight::oracle::draw_oracle;
use frozenight::ordering::{history_dec, history_inc, MoveScore};
use frozenight::params::{all_parameters, base_lmr, fp_mul};
use frozenight::see::{piece_value, static_exchange_eval};
use frozenight::selfplay::{loss_for, SelfPlay, Wdl};
use frozenight::simple;
use frozenight::time::{SearchInfo, TimeConstraint, TimeManager};
use frozenight::eval::Eval;
use frozenight::uci::{from_uci_castling, to_uci_castling, uci_castling_by_rights};
use std::ops::ControlFlow;

fn mv(from: u8, to: u8) -> ChessMove {
    ChessMove { from, to, promotion: None }
}

fn board(fen: &str) -> Board {
    fen.parse().unwrap()
}

#[test]
fn exchange_values() {
    // pawn takes an undefended knight: wins the knight
    let b = board("4k3/8/8/3n4/4P3/8/8/4K3 w - - 0 1");
    assert_eq!(static_exchange_eval(&b, mv(28, 35)), piece_value(PieceKind::Knight));
    // queen takes a pawn defended by a pawn: loses queen for pawn
    let b = board("4k3/8/2p5/3p4/8/8/3Q4/4K3 w - - 0 1");
    assert_eq!(static_exchange_eval(&b, mv(11, 35)), piece_value(PieceKind::Pawn) - piece_value(PieceKind::Queen));
}

#[test]
fn minor_piece_draws() {
    assert!(draw_oracle(&board("4k3/8/8/8/8/8/8/4K3 w - - 0 1")));
    assert!(draw_oracle(&board("4k3/8/8/8/8/8/8/1N2K3 w - - 0 1")));
    assert!(!draw_oracle(&board("4k3/8/8/8/8/8/8/R3K3 w - - 0 1")));
    assert!(!draw_oracle(&Board::default()));
    // two knights against a bare king: drawn with both kings off the edge
    assert!(draw_oracle(&board("8/8/4k3/8/3K4/2N2N2/8/8 w - - 0 1")));
    assert!(!draw_oracle(&board("4k3/8/8/8/3K4/2N2N2/8/8 w - - 0 1")));
}

#[test]
fn castling_notation() {
    let b = board("4k3/8/8/8/8/8/8/R3K2R w KQ - 0 1");
    // the engine's king-takes-rook becomes the usual two-square king move
    assert_eq!(to_uci_castling(&b, mv(4, 7), false), mv(4, 6));
    assert_eq!(to_uci_castling(&b, mv(4, 0), false), mv(4, 2));
    assert_eq!(to_uci_castling(&b, mv(4, 7), true), mv(4, 7));
    assert_eq!(from_uci_castling(&b, mv(4, 6), false), mv(4, 7));
    assert_eq!(from_uci_castling(&b, mv(4, 2), false), mv(4, 0));
    assert_eq!(from_uci_castling(&b, mv(4, 12), false), mv(4, 12));
    assert_eq!(uci_castling_by_rights(&b, mv(4, 7), false), mv(4, 6));
    assert_eq!(uci_castling_by_rights(&b, mv(4, 0), false), mv(4, 2));
    assert_eq!(to_uci_castling(&b, mv(0, 8), false), mv(0, 8));
    // round trip
    assert_eq!(from_uci_castling(&b, to_uci_castling(&b, mv(4, 7), false), false), mv(4, 7));
}

#[test]
fn self_play_adjudication() {
    let mut game = SelfPlay::new(board("4k3/8/8/8/8/8/8/4K3 w - - 0 1"));
    // bare kings: over at once, as a loss for the side to move
    assert!(game.adjudicate());
    assert_eq!(game.outcome, Some(0));
    assert_eq!(loss_for(Side::Black), 2);

    let mut game = SelfPlay::new(Board::default());
    assert!(!game.adjudicate());
    assert_eq!(game.repetitions.len(), 1);
    assert_eq!(game.tablebase_result(Some(Wdl::Win)), Some(2));
    assert_eq!(game.outcome, Some(2));
    assert_eq!(game.tablebase_result(Some(Wdl::CursedWin)), Some(1));
    assert_eq!(game.outcome, Some(2));
    assert!(!game.wants_probe(6));
    game.play(mv(6, 21), None);
    game.play(mv(62, 45), Some(1));
    assert!(!game.adjudicate());
    game.play(mv(21, 6), None);
    game.play(mv(45, 62), None);
    // back at the start: a repetition ends the game
    assert!(game.adjudicate());
    let kept = game.training_positions();
    assert_eq!(kept.len(), 4);
    assert_eq!(kept[0], (Board::default(), 2));
    assert_eq!(kept[1].1, 1);
}

#[test]
fn simple_engine_history_and_search() {
    let mut engine = simple::Frozenight::new();
    let moves = vec![mv(6, 21), mv(62, 45), mv(21, 6), mv(45, 62)];
    engine.set_position(Board::default(), &moves);
    assert!(engine.board().same_position(&Board::default()));
    assert_eq!(engine.board().halfmove_clock(), 4);
    // only the starting position occurred twice
    assert_eq!(engine.history().len(), 1);
    assert!(engine.history().contains(&Board::default().hash()));
    let abort = std::sync::Arc::new(std::sync::atomic::AtomicBool::new(false));
    let mut searcher = simple::Searcher::new(abort, &nohash::IntSet::default());
    let mate = board("6k1/5ppp/8/8/8/8/8/R5K1 w - - 0 1");
    let r = searcher.search(&mate, 1);
    assert_eq!(r, Some((Eval(frozenight::eval::MATE - 1), mv(0, 56))));
    assert!(searcher.stats.nodes > 0);
}

#[test]
fn simple_engine_stops_when_aborted() {
    let abort = std::sync::Arc::new(std::sync::atomic::AtomicBool::new(true));
    let mut searcher = simple::Searcher::new(abort, &nohash::IntSet::default());
    assert_eq!(searcher.search(&Board::default(), 1), None);
}

#[test]
fn random_leaf_scores_are_inconclusive() {
    for _ in 0..20 {
        let v = simple::static_eval(&Board::default());
        assert!(!v.is_conclusive());
    }
}

#[test]
fn move_scores_order() {
    assert!(MoveScore::Quiet(100).less_than(&MoveScore::GoodCapture(-5)));
    assert!(MoveScore::BadCapture(3).less_than(&MoveScore::BadCapture(4)));
    assert!(!MoveScore::Hash.less_than(&MoveScore::GoodCapture(1000)));
    assert_eq!(MoveScore::Quiet(-3).payload(), -3);
    assert_eq!(MoveScore::Hash.rank(), 3);
}

#[test]
fn history_updates_move_toward_the_bound() {
    let mut h: i16 = 0;
    history_inc(&mut h, 16);
    assert_eq!(h, 16);
    history_inc(&mut h, 4096);
    // 16 + 4096 - 4096 * 16 / 4096 = 4096
    assert_eq!(h, 4096);
    history_dec(&mut h, 64);
    // 4096 - (64 + 64 * 4096 / 4096) = 3968
    assert_eq!(h, 3968);
}

#[test]
fn parameters() {
    let mut params = all_parameters();
    assert_eq!(params.len(), 8);
    assert_eq!(params[0].name(), "NMP_MIN_DEPTH");
    assert_eq!(params[6].get(), 350);
    params[6].set(400);
    assert_eq!(params[6].get(), 400);
    assert_eq!(fp_mul(1500, 333), 499);
    assert_eq!(fp_mul(-1500, 333), -499);
    assert_eq!(base_lmr(10, 20), 2);
}

#[test]
fn abdada_counts_visits() {
    let mut t = AbdadaTable::new();
    assert!(!t.is_searching(77));
    let g = t.enter(77).unwrap();
    assert!(t.is_searching(77));
    assert!(t.is_searching(77 + 65536));
    t.leave(g);
    assert!(!t.is_searching(77));
}

#[test]
fn network_features() {
    assert_eq!(feature(Side::White, PieceKind::Pawn, 0), 0);
    assert_eq!(feature(Side::Black, PieceKind::King, 63), 767);
    assert_eq!(activate(-5), 0);
    assert_eq!(activate(10), 100);
    assert_eq!(activate(500), 127 * 127);
    let b = Board::default();
    assert!(move_playable(&b, mv(12, 28)));
    assert!(!move_playable(&b, mv(20, 28)));
}

#[test]
fn time_manager_soft_deadlines() {
    let tc = TimeConstraint {
        nodes: u64::MAX,
        depth: 100,
        clock: Some(10_000_000_000),
        increment: 0,
        overhead: 0,
        moves_to_go: None,
        use_all_time: false,
    };
    let mut tm = TimeManager::new(&Board::default(), tc);
    assert_eq!(tm.deadline(), Some(5_000_000_000));
    let info = SearchInfo { eval: Eval(0), nodes: 1, depth: 1, selective_depth: 1, best_move: mv(12, 28), pv: vec![] };
    assert_eq!(tm.update(&info, 0), ControlFlow::Continue(()));
    assert_eq!(tm.update(&info, 9_000_000_000), ControlFlow::Break(()));
    let all = TimeManager::new(&Board::default(), TimeConstraint::infinite());
    assert_eq!(all.deadline(), None);
}

struct DepthRecorder {
    depths: Vec<i16>,
}

impl simple::Listener for DepthRecorder {
    fn info(&mut self, depth: i16, _: i16, _: u64, _: Eval, _: &Board, pv: &[ChessMove]) {
        assert_eq!(pv.len(), 1);
        self.depths.push(depth);
    }
}

#[test]
fn simple_engine_deepens_to_the_limit() {
    let abort = std::sync::Arc::new(std::sync::atomic::AtomicBool::new(false));
    let mut searcher = simple::Searcher::new(abort, &nohash::IntSet::default());
    let mut listener = DepthRecorder { depths: vec![] };
    let mate = board("6k1/5ppp/8/8/8/8/8/R5K1 w - - 0 1");
    let r = searcher.iterate(&mate, 2, &mut listener);
    assert_eq!(listener.depths, vec![1, 2]);
    assert_eq!(r.map(|(_, m)| m), Some(mv(0, 56)));
}

#[test]
fn consistent_move_gets_two_percent_and_half_the_increment() {
    let tc = TimeConstraint {
        nodes: u64::MAX,
        depth: 100,
        clock: Some(10_000_000_000),
        increment: 1_000_000_000,
        overhead: 0,
        moves_to_go: None,
        use_all_time: false,
    };
    let mut tm = TimeManager::new(&Board::default(), tc);
    let soft = tm.soft_deadline.as_ref().unwrap();
    // 2% of (clock - increment) plus half the increment
    assert_eq!(soft.consistent, 180_000_000 + 500_000_000);
    assert_eq!(soft.inconsistent, 270_000_000 + 500_000_000);
    let info = SearchInfo { eval: Eval(0), nodes: 1, depth: 1, selective_depth: 1, best_move: mv(12, 28), pv: vec![] };
    assert_eq!(tm.update(&info, 600_000_000), ControlFlow::Continue(()));
    assert_eq!(tm.update(&info, 700_000_000), ControlFlow::Break(()));
}
