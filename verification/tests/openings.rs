use cozy_chess::{Board, GameStatus, Move, Piece, Square};
use frozenight::chess::ChessMove;
use frozenight::selfplay::{legal_move_count, nth_legal_move, opening_attempt, random_line, random_start};

fn to_cozy(mv: ChessMove) -> Move {
    Move {
        from: Square::index(mv.from as usize),
        to: Square::index(mv.to as usize),
        promotion: mv.promotion.map(|p| Piece::index(p as usize)),
    }
}

#[test]
fn standard_start_is_the_default_board() {
    assert_eq!(random_start(false, false), Board::default());
}

#[test]
fn chess960_starts_have_all_pieces() {
    for _ in 0..20 {
        let b = random_start(true, false);
        assert_eq!(b.occupied().len(), 32);
        let d = random_start(false, true);
        assert_eq!(d.occupied().len(), 32);
        assert_eq!(d.status(), GameStatus::Ongoing);
    }
}

#[test]
fn random_line_replays_to_the_position() {
    let start = Board::default();
    let (board, moves) = random_line(&start, 8).expect("the opening has legal moves");
    assert_eq!(moves.len(), 8);
    let mut replay = start.clone();
    for mv in moves {
        let mv = to_cozy(mv);
        assert!(replay.is_legal(mv));
        replay.play_unchecked(mv);
    }
    assert_eq!(replay, board);
}

#[test]
fn random_line_of_no_moves_keeps_the_start() {
    let start = Board::default();
    let (board, moves) = random_line(&start, 0).unwrap();
    assert!(moves.is_empty());
    assert_eq!(board, start);
}

#[test]
fn random_line_stops_at_checkmate() {
    let mated: Board = "rnb1kbnr/pppp1ppp/8/4p3/6Pq/5P2/PPPPP2P/RNBQKBNR w KQkq - 1 3".parse().unwrap();
    assert_eq!(mated.status(), GameStatus::Won);
    assert!(random_line(&mated, 1).is_none());
}

#[test]
fn opening_attempts_give_ongoing_games() {
    let mut found = 0;
    for _ in 0..50 {
        if let Some(board) = opening_attempt(false, false) {
            assert_eq!(board.status(), GameStatus::Ongoing);
            assert_eq!(board.fullmove_number(), 5);
            found += 1;
        }
    }
    assert!(found > 0);
}

#[test]
fn legal_moves_by_index() {
    let start = Board::default();
    assert_eq!(legal_move_count(&start), 20);
    let mut seen = Vec::new();
    for i in 0..20 {
        let mv = nth_legal_move(&start, i).unwrap();
        assert!(start.is_legal(to_cozy(mv)));
        assert!(!seen.contains(&mv));
        seen.push(mv);
    }
    assert_eq!(nth_legal_move(&start, 20), None);
}

#[test]
fn random_starts_are_scharnagl_positions() {
    let b = random_start(true, false);
    assert!((0..960).any(|n| Board::chess960_startpos(n) == b));
    let d = random_start(false, true);
    assert!((0..960).any(|w| (0..960).any(|k| Board::double_chess960_startpos(w, k) == d)));
    assert_eq!(random_start(false, false), Board::double_chess960_startpos(518, 518));
}
