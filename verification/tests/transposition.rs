use cozy_chess::Board;
use frozenight::chess::ChessMove;
use frozenight::eval::{Eval, MATE};
use frozenight::tt::{pack, unpack, NodeKind, TableEntry, TranspositionTable, TtData};

fn e2e4() -> ChessMove {
    ChessMove { from: 12, to: 28, promotion: None }
}

#[test]
fn pack_unpack_round_trip() {
    let d = TtData { mv: 0x1234, eval: -1234, depth: -7, kind: 2, age: 200 };
    assert_eq!(unpack(pack(d)), d);
    assert_eq!(pack(TtData { mv: 1, eval: 0, depth: 0, kind: 0, age: 0 }), 1);
    assert_eq!(pack(TtData { mv: 0, eval: 0, depth: 0, kind: 0, age: 1 }), 1u64 << 56);
}

#[test]
fn store_then_get_gives_the_entry_back() {
    let board = Board::default();
    let mut tt = TranspositionTable::new(1);
    assert_eq!(tt.get(&board, 0), None);
    let entry = TableEntry { mv: e2e4(), eval: Eval(35), depth: 5, kind: NodeKind::Exact };
    tt.store(&board, 0, entry);
    assert_eq!(tt.get(&board, 0), Some(entry));
    assert_eq!(tt.get_move(&board), Some(e2e4()));
}

#[test]
fn mate_scores_are_stored_relative_to_the_node() {
    let board = Board::default();
    let mut tt = TranspositionTable::new(1);
    let entry = TableEntry { mv: e2e4(), eval: Eval(MATE - 5), depth: 3, kind: NodeKind::LowerBound };
    tt.store(&board, 3, entry);
    assert_eq!(tt.get(&board, 3).map(|e| e.eval), Some(Eval(MATE - 5)));
    // found two plies nearer the root, the mate is two plies further away
    assert_eq!(tt.get(&board, 1).map(|e| e.eval), Some(Eval(MATE - 3)));
}

#[test]
fn shallow_bound_does_not_replace_deep_entry_until_aged() {
    let board = Board::default();
    let mut tt = TranspositionTable::new(1);
    let deep = TableEntry { mv: e2e4(), eval: Eval(10), depth: 8, kind: NodeKind::LowerBound };
    let shallow = TableEntry { mv: ChessMove { from: 11, to: 27, promotion: None }, eval: Eval(-5), depth: 2, kind: NodeKind::UpperBound };
    tt.store(&board, 0, deep);
    tt.store(&board, 0, shallow);
    assert_eq!(tt.get(&board, 0), Some(deep));
    tt.increment_age(2);
    tt.store(&board, 0, shallow);
    assert_eq!(tt.get(&board, 0), Some(shallow));
}

#[test]
fn illegal_stored_move_is_not_returned() {
    let board = Board::default();
    let mut tt = TranspositionTable::new(1);
    let entry = TableEntry { mv: ChessMove { from: 12, to: 36, promotion: None }, eval: Eval(0), depth: 1, kind: NodeKind::Exact };
    tt.store(&board, 0, entry);
    assert_eq!(tt.get(&board, 0), None);
    assert_eq!(tt.get_move(&board), None);
}
