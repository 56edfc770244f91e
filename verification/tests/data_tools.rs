use cozy_chess::Board;
use frozenight::chess::{ChessMove, PieceKind};
use frozenight::eval::{Eval, UciScore, MATE};
use frozenight::gendata::{annotate, classify, material_bucket, EvalClass};
use frozenight::gendata::filter::Options as FilterOptions;
use frozenight::tantabus::eval_set::{Mobility, PieceEvalSet};

fn mv(from: u8, to: u8) -> ChessMove {
    ChessMove { from, to, promotion: None }
}

#[test]
fn annotation_flags_and_white_score() {
    // black to move: the queen takes the rook on a1 with check
    let b: Board = "4k3/8/8/8/3K4/8/8/R6q b - - 0 1".parse().unwrap();
    let (eval, extra) = annotate(&b, Eval(150), mv(7, 0));
    assert_eq!(eval, -150);
    assert_eq!(extra, 1 | 4);
    let quiet = annotate(&Board::default(), Eval(20), mv(12, 28));
    assert_eq!(quiet, (20, 0));
}

#[test]
fn filter_rules() {
    let opts = FilterOptions { filter_eval: Some(300), filter_capture: true, filter_in_check: false, filter_give_check: true };
    assert!(opts.keep(100, 0));
    assert!(!opts.keep(100, 1));
    assert!(opts.keep(100, 2));
    assert!(!opts.keep(100, 4));
    assert!(!opts.keep(1500, 0));
    assert!(!opts.keep(-1500, 0));
    assert!(opts.keep(1499, 0));
    let none = FilterOptions { filter_eval: None, filter_capture: false, filter_in_check: false, filter_give_check: false };
    assert!(none.keep(i16::MIN, 7));
}

#[test]
fn statistics_classes() {
    assert_eq!(classify(0), EvalClass::Draw);
    assert_eq!(classify(20000), EvalClass::Mate);
    assert_eq!(classify(-20000), EvalClass::Mate);
    assert_eq!(classify(19999), EvalClass::Scored);
    assert_eq!(material_bucket(&Board::default()), 15);
    let bare: Board = "4k3/8/8/8/8/8/8/4K3 w - - 0 1".parse().unwrap();
    assert_eq!(material_bucket(&bare), 0);
    let rook: Board = "4k3/8/8/8/8/8/8/R3K3 w - - 0 1".parse().unwrap();
    assert_eq!(material_bucket(&rook), 1);
}

#[test]
fn reported_scores() {
    assert_eq!(Eval(MATE - 1).uci_score(), UciScore::Mate(1));
    assert_eq!(Eval(MATE - 4).uci_score(), UciScore::Mate(2));
    assert_eq!(Eval(-MATE + 3).uci_score(), UciScore::Mate(-2));
    assert_eq!(Eval(507).uci_score(), UciScore::Cp(101));
    assert_eq!(Eval(-507).uci_score(), UciScore::Cp(-101));
}

#[test]
fn per_piece_containers() {
    let set = PieceEvalSet { pawn: 1, knight: 3, bishop: 3, rook: 5, queen: 9, king: 0 };
    assert_eq!(*set.get(PieceKind::Rook), 5);
    let mut mobility = Mobility {
        pawn: [0i32; 5],
        knight: [1; 9],
        bishop: [2; 14],
        rook: [3; 15],
        queen: [4; 28],
        king: [5; 9],
    };
    assert_eq!(mobility.get(PieceKind::Queen).len(), 28);
    mobility.get_mut(PieceKind::Knight)[8] = 42;
    assert_eq!(mobility.knight[8], 42);
    assert_eq!(mobility.get(PieceKind::Bishop)[0], 2);
}
