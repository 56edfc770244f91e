use cozy_chess::Board;
use frozenight::chess::{PieceKind, Side};
use frozenight::tantabus::terms::{
    bishop_pair_terms, eval_features, file_bb, is_passed, king_ring_attacks_terms, mobility_terms,
    passed_pawn_terms, rook_on_open_file_terms, virtual_queen_mobility_terms,
};

fn board(fen: &str) -> Board {
    fen.parse().unwrap()
}

#[test]
fn start_position_mobility() {
    let (entries, attacks) = mobility_terms(&Board::default(), Side::White);
    let mut expected = vec![(PieceKind::Pawn, 2); 8];
    expected.push((PieceKind::Knight, 2));
    expected.push((PieceKind::Knight, 2));
    for kind in [PieceKind::Bishop, PieceKind::Bishop, PieceKind::Rook, PieceKind::Rook, PieceKind::Queen, PieceKind::King] {
        expected.push((kind, 0));
    }
    assert_eq!(entries, expected);
    // Every square of the third rank is attacked by a pawn; no square beyond it is attacked.
    assert_eq!(attacks & 0x0000_0000_00FF_0000, 0x0000_0000_00FF_0000);
    assert_eq!(attacks & 0xFFFF_FFFF_FF00_0000, 0);
}

#[test]
fn lone_king_mobility() {
    let (entries, attacks) = mobility_terms(&board("4k3/8/8/8/8/8/8/4K3 w - - 0 1"), Side::White);
    assert_eq!(entries, vec![(PieceKind::King, 5)]);
    // d1, d2, e2, f2, f1
    assert_eq!(attacks, (1 << 3) | (1 << 11) | (1 << 12) | (1 << 13) | (1 << 5));
}

#[test]
fn pawn_mobility_counts_captures_and_blocked_pushes() {
    // The white pawn on e4 is blocked by e5 and can capture on d5.
    let b = board("4k3/8/8/3pp3/4P3/8/8/4K3 w - - 0 1");
    let (entries, _) = mobility_terms(&b, Side::White);
    assert_eq!(entries[0], (PieceKind::Pawn, 1));
}

#[test]
fn virtual_queen_mobility_on_open_board() {
    let b = board("4k3/8/8/8/8/8/8/4K3 w - - 0 1");
    assert_eq!(virtual_queen_mobility_terms(&b, Side::White), 21);
    assert_eq!(virtual_queen_mobility_terms(&Board::default(), Side::White), 0);
}

#[test]
fn king_ring_attacked_by_queen() {
    let b = board("4k3/8/8/8/8/8/3q4/4K3 w - - 0 1");
    let (_, black_attacks) = mobility_terms(&b, Side::Black);
    assert_eq!(king_ring_attacks_terms(&b, Side::White, black_attacks), 3);
    let (_, white_attacks) = mobility_terms(&b, Side::White);
    assert_eq!(king_ring_attacks_terms(&b, Side::Black, white_attacks), 0);
}

#[test]
fn passed_pawns_found() {
    let b = board("4k3/8/8/3P4/8/8/6p1/4K3 w - - 0 1");
    assert_eq!(passed_pawn_terms(&b, Side::White), vec![35]);
    assert_eq!(passed_pawn_terms(&b, Side::Black), vec![14]);
    assert!(is_passed(&b, Side::White, 35));
}

#[test]
fn blocked_and_guarded_pawns_are_not_passed() {
    let b = board("4k3/4p3/8/3P4/8/8/8/4K3 w - - 0 1");
    assert_eq!(passed_pawn_terms(&b, Side::White), vec![]);
    assert_eq!(passed_pawn_terms(&b, Side::Black), vec![]);
}

#[test]
fn rear_doubled_pawn_is_not_passed() {
    let b = board("4k3/8/3P4/8/3P4/8/8/4K3 w - - 0 1");
    assert_eq!(passed_pawn_terms(&b, Side::White), vec![43]);
}

#[test]
fn rooks_on_open_and_half_open_files() {
    let b = board("4k3/4p3/8/8/8/8/P7/R3R1KR w - - 0 1");
    assert_eq!(rook_on_open_file_terms(&b, Side::White), (1, 1));
    assert_eq!(rook_on_open_file_terms(&b, Side::Black), (0, 0));
    assert_eq!(file_bb(0), 0x0101_0101_0101_0101);
    assert_eq!(file_bb(7), 0x8080_8080_8080_8080);
}

#[test]
fn bishop_pair_needs_two_bishops() {
    assert!(bishop_pair_terms(&Board::default(), Side::Black));
    let b = board("4k3/8/8/8/8/8/8/2B1K3 w - - 0 1");
    assert!(!bishop_pair_terms(&b, Side::White));
}

#[test]
fn features_of_both_sides() {
    let b = board("4k3/8/8/8/8/8/3q4/4K3 w - - 0 1");
    let (white, black) = eval_features(&b);
    assert_eq!(white.king_ring_attacks, 3);
    assert_eq!(white.mobility, vec![(PieceKind::King, 5)]);
    assert_eq!(black.bishop_pair, false);
    assert_eq!(black.passed_pawns, Vec::<u8>::new());
    assert_eq!(black.virtual_queen_mobility, virtual_queen_mobility_terms(&b, Side::Black));
}
