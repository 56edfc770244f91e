use cozy_chess::Board;
use frozenight::chess::ChessMove;
use frozenight::engine::Frozenight;
use frozenight::eval::{Eval, MATE};
use frozenight::nnue::Nnue;
use frozenight::position::Position;
use frozenight::search::repetition::Repetitions;
use frozenight::search::state::PrivateState;
use frozenight::search::{estimate_nodes_to_deadline, Pv, Searcher, Statistics};
use frozenight::time::TimeConstraint;
use frozenight::tt::TranspositionTable;
use frozenight::window::Window;

fn zero_net() -> Nnue {
    Nnue {
        input_layer: vec![vec![0i16; 768]; 768],
        input_layer_bias: vec![0; 768],
        hidden_layer: vec![vec![0i8; 1536]; 16],
        hidden_layer_bias: vec![0; 16],
    }
}

fn limits(depth: i16) -> TimeConstraint {
    TimeConstraint {
        nodes: u64::MAX,
        depth,
        clock: None,
        increment: 0,
        overhead: 0,
        moves_to_go: None,
        use_all_time: true,
    }
}

fn board(fen: &str) -> Board {
    fen.parse().unwrap()
}

#[test]
fn finds_back_rank_mate_in_one() {
    let mut engine = Frozenight::new(zero_net(), 1);
    engine.set_position(board("6k1/5ppp/8/8/8/8/8/R5K1 w - - 0 1"), &vec![]);
    let info = engine.search(limits(2), |_| {});
    assert_eq!(info.depth, 2);
    assert_eq!(info.best_move, ChessMove { from: 0, to: 56, promotion: None });
    assert_eq!(info.eval, Eval(MATE - 1));
    assert!(info.nodes > 0);
    assert_eq!(info.pv.first(), Some(&ChessMove { from: 0, to: 56, promotion: None }));
}

#[test]
fn depth_zero_search_reports_nothing() {
    let mut engine = Frozenight::new(zero_net(), 1);
    let info = engine.search(limits(0), |_| {});
    assert_eq!(info.depth, 0);
    assert_eq!(info.eval, Eval(0));
    assert_eq!(info.best_move, ChessMove { from: 0, to: 0, promotion: None });
    assert!(info.pv.is_empty());
}

#[test]
fn each_iteration_is_reported() {
    let mut engine = Frozenight::new(zero_net(), 1);
    let seen = std::cell::RefCell::new(vec![]);
    let info = engine.search(limits(3), |i| seen.borrow_mut().push(i.depth));
    assert_eq!(*seen.borrow(), vec![1, 2, 3]);
    assert_eq!(info.depth, 3);
}

#[test]
fn set_position_plays_the_moves() {
    let mut engine = Frozenight::new(zero_net(), 1);
    let moves = vec![
        ChessMove { from: 12, to: 28, promotion: None },
        ChessMove { from: 52, to: 36, promotion: None },
    ];
    engine.set_position(Board::default(), &moves);
    assert_eq!(*engine.board(), board("rnbqkbnr/pppp1ppp/8/4p3/4P3/8/PPPP1PPP/RNBQKBNR w KQkq e6 0 2"));
}

fn searcher_for<'a>(root: &'a Board, net: &'a Nnue) -> Searcher<'a> {
    Searcher::new(
        root,
        net,
        TranspositionTable::new(1),
        PrivateState::new(),
        Statistics::default(),
        &vec![root.hash()],
        u64::MAX,
        std::time::Instant::now(),
        None,
    )
}

#[test]
fn stalemate_scores_as_a_draw() {
    let net = zero_net();
    let root = board("7k/5Q2/6K1/8/8/8/8/8 b - - 0 1");
    let mut searcher = searcher_for(&root, &net);
    let pos = Position::from_root(&net, root.clone());
    assert_eq!(searcher.negamax(Pv, &pos, Window::full(), 1), Some((Eval(0), None)));
}

#[test]
fn checkmate_scores_as_mated_here() {
    let net = zero_net();
    let root = board("R5k1/5ppp/8/8/8/8/8/6K1 b - - 1 1");
    let mut searcher = searcher_for(&root, &net);
    let pos = Position::from_root(&net, root.clone());
    assert_eq!(searcher.negamax(Pv, &pos, Window::full(), 1), Some((Eval(-MATE), None)));
}

#[test]
fn quiescence_stands_pat_without_captures() {
    let net = zero_net();
    let root = Board::default();
    let mut searcher = searcher_for(&root, &net);
    let pos = Position::from_root(&net, root.clone());
    assert_eq!(searcher.qsearch(Pv, &pos, Window::full()), Some((Eval(0), None)));
}

#[test]
fn quiescence_capture_must_beat_standing_pat() {
    let net = zero_net();
    // the white rook can take an undefended queen, but the zero network scores every
    // position 0, so the capture does not beat standing pat
    let root = board("4k3/8/8/3q4/8/8/8/3RK3 w - - 0 1");
    let mut searcher = searcher_for(&root, &net);
    let pos = Position::from_root(&net, root.clone());
    assert_eq!(searcher.qsearch(Pv, &pos, Window::full()), Some((Eval(0), None)));
}

#[test]
fn root_search_extracts_principal_variation() {
    let net = zero_net();
    let root = board("6k1/5ppp/8/8/8/8/8/R5K1 w - - 0 1");
    let mut searcher = searcher_for(&root, &net);
    let r = searcher.search(2, Eval(0));
    assert_eq!(r, Some((Eval(MATE - 1), ChessMove { from: 0, to: 56, promotion: None })));
    let pv = searcher.extract_pv(2);
    assert_eq!(pv[0], ChessMove { from: 0, to: 56, promotion: None });
    assert!(pv.len() <= 3);
}

#[test]
fn repetition_detection_looks_back_within_the_clock() {
    let reps = Repetitions::new(&vec![1, 2, 3]);
    assert!(reps.is_repetition(2, 10));
    assert!(reps.is_repetition(1, 10));
    // the most recent position is not a repetition of itself
    assert!(!reps.is_repetition(3, 10));
    // positions before the last irreversible move do not count
    assert!(!reps.is_repetition(1, 2));
    assert!(!reps.is_repetition(9, 10));
}

#[test]
fn repetition_push_and_pop() {
    let mut reps = Repetitions::new(&vec![]);
    reps.push(5);
    reps.push(6);
    assert!(reps.is_repetition(5, 10));
    reps.pop();
    assert!(!reps.is_repetition(5, 10));
    reps.push(1029);
    // 1029 shares a counter bucket with 5, but the hashes differ
    assert!(!reps.is_repetition(5 + 1024 * 7, 10));
}

#[test]
fn deadline_estimate() {
    assert_eq!(estimate_nodes_to_deadline(0), 0);
    assert_eq!(estimate_nodes_to_deadline(999_999), 0);
    assert_eq!(estimate_nodes_to_deadline(1_000_000), 1000);
    assert_eq!(estimate_nodes_to_deadline(5_000_000_000), 5_000_000);
    assert_eq!(estimate_nodes_to_deadline(50_000_000), 50_000);
}

#[test]
fn statistics_clear() {
    let mut s = Statistics { selective_depth: 7, nodes: 99 };
    s.clear();
    assert_eq!(s, Statistics::default());
}

#[test]
fn annotates_a_searched_position() {
    let mut engine = Frozenight::new(zero_net(), 1);
    // white mates in one: the score is a mate for White, the best move captures nothing
    // and gives check
    let b = board("6k1/5ppp/8/8/8/8/8/R5K1 w - - 0 1");
    let (white_eval, extra) = frozenight::gendata::annotate_position(&mut engine, &b, None, Some(2)).unwrap();
    assert_eq!(white_eval, MATE - 1);
    assert_eq!(extra, 4);
    // a stalemated position has no move to search
    let stalemate = board("7k/5Q2/6K1/8/8/8/8/8 b - - 0 1");
    assert_eq!(frozenight::gendata::annotate_position(&mut engine, &stalemate, None, Some(2)), None);
}

#[test]
fn reports_each_depth_in_order() {
    let mut engine = Frozenight::new(zero_net(), 1);
    let seen = std::cell::RefCell::new(Vec::new());
    let info = engine.search(limits(3), |i| seen.borrow_mut().push(i.depth));
    assert_eq!(*seen.borrow(), vec![1, 2, 3]);
    assert_eq!(info.depth, 3);
}
