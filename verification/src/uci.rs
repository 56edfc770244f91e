//! Castling notation for the UCI protocol: the engine writes castling as the king
//! capturing its own rook, while standard chess notation moves the king two files (to
//! the C or G file); Chess960 notation keeps the king-takes-rook form.
use vstd::prelude::*;
use crate::chess::{
    ChessMove, PieceKind, Side, board_castle_rights, board_color_on, board_piece_on,
    board_side_to_move, spec_board_castle_rights, spec_board_side_to_move, spec_color_on,
    spec_piece_on,
};

verus! {

pub const FILE_A: u8 = 0;
pub const FILE_C: u8 = 2;
pub const FILE_E: u8 = 4;
pub const FILE_G: u8 = 6;
pub const FILE_H: u8 = 7;

/// The square on `file` of the rank of `sq`.
pub open spec fn spec_on_file(sq: u8, file: u8) -> u8 {
    ((sq / 8) * 8 + file) as u8
}

fn on_file(sq: u8, file: u8) -> (r: u8)
    requires
        sq < 64,
        file < 8,
    ensures
        r == spec_on_file(sq, file),
        r < 64,
{
    (sq / 8) * 8 + file
}

/// The move as the protocol writes it: a king moving onto its own rook becomes a king
/// move to the G file (rook to the king's right) or the C file, unless playing
/// Chess960.
pub open spec fn spec_to_uci_castling(board: cozy_chess::Board, mv: ChessMove, chess960: bool) -> ChessMove {
    if !chess960 && spec_color_on(board, mv.from) == spec_color_on(board, mv.to) {
        let file = if mv.to % 8 > mv.from % 8 { FILE_G } else { FILE_C };
        ChessMove { to: spec_on_file(mv.to, file), ..mv }
    } else {
        mv
    }
}

pub fn to_uci_castling(board: &cozy_chess::Board, mv: ChessMove, chess960: bool) -> (r: ChessMove)
    requires
        mv.valid(),
    ensures
        r == spec_to_uci_castling(*board, mv, chess960),
        r.valid(),
{
    if chess960 {
        return mv;
    }
    if board_color_on(board, mv.from) == board_color_on(board, mv.to) {
        let file = if mv.to % 8 > mv.from % 8 { FILE_G } else { FILE_C };
        ChessMove { to: on_file(mv.to, file), ..mv }
    } else {
        mv
    }
}

/// The move as the engine writes it: a king on the E file moving to the G or C file
/// becomes the king taking the rook on the H or A file, unless playing Chess960.
pub open spec fn spec_from_uci_castling(board: cozy_chess::Board, mv: ChessMove, chess960: bool) -> ChessMove {
    if !chess960 && mv.from % 8 == FILE_E && spec_piece_on(board, mv.from) == Some(PieceKind::King) {
        if mv.to % 8 == FILE_G {
            ChessMove { to: spec_on_file(mv.to, FILE_H), ..mv }
        } else if mv.to % 8 == FILE_C {
            ChessMove { to: spec_on_file(mv.to, FILE_A), ..mv }
        } else {
            mv
        }
    } else {
        mv
    }
}

pub fn from_uci_castling(board: &cozy_chess::Board, mv: ChessMove, chess960: bool) -> (r: ChessMove)
    requires
        mv.valid(),
    ensures
        r == spec_from_uci_castling(*board, mv, chess960),
        r.valid(),
{
    if chess960 {
        return mv;
    }
    if mv.from % 8 == FILE_E && board_piece_on(board, mv.from) == Some(PieceKind::King) {
        if mv.to % 8 == FILE_G {
            ChessMove { to: on_file(mv.to, FILE_H), ..mv }
        } else if mv.to % 8 == FILE_C {
            ChessMove { to: on_file(mv.to, FILE_A), ..mv }
        } else {
            mv
        }
    } else {
        mv
    }
}

/// The protocol's form of a move when converting the engine's moves for output: a
/// king moving onto its own rook goes to the G file when that rook holds the short
/// castling right, else to the C file (unless playing Chess960).
pub open spec fn spec_uci_castling_by_rights(board: cozy_chess::Board, mv: ChessMove, chess960: bool) -> ChessMove {
    if !chess960 && spec_color_on(board, mv.from) == spec_color_on(board, mv.to) {
        let rights = spec_board_castle_rights(board, spec_board_side_to_move(board));
        let file = if rights.0 == Some((mv.to % 8) as u8) { FILE_G } else { FILE_C };
        ChessMove { to: spec_on_file(mv.to, file), ..mv }
    } else {
        mv
    }
}

pub fn uci_castling_by_rights(board: &cozy_chess::Board, mv: ChessMove, chess960: bool) -> (r: ChessMove)
    requires
        mv.valid(),
    ensures
        r == spec_uci_castling_by_rights(*board, mv, chess960),
        r.valid(),
{
    if !chess960 && board_color_on(board, mv.from) == board_color_on(board, mv.to) {
        let rights = board_castle_rights(board, board_side_to_move(board));
        let file = if rights.0 == Some(mv.to % 8) { FILE_G } else { FILE_C };
        ChessMove { to: on_file(mv.to, file), ..mv }
    } else {
        mv
    }
}

/// Converting a castling move to the protocol's form and back gives the move again:
/// the king on the E file taking its rook on the H (or A) file is written as a move to
/// the G (or C) file and read back as taking the rook.
pub proof fn lemma_castling_round_trip(board: cozy_chess::Board, mv: ChessMove)
    requires
        mv.valid(),
        mv.from % 8 == FILE_E,
        mv.to % 8 == FILE_H || mv.to % 8 == FILE_A,
        spec_piece_on(board, mv.from) == Some(PieceKind::King),
        spec_color_on(board, mv.from) == spec_color_on(board, mv.to),
    ensures
        spec_from_uci_castling(board, spec_to_uci_castling(board, mv, false), false) == mv,
{
}

} // verus!
