//! Per-piece containers of evaluation terms.
use vstd::prelude::*;
use crate::chess::PieceKind;

verus! {

/// One value per kind of piece.
#[derive(Debug, Clone)]
pub struct PieceEvalSet<T> {
    pub pawn: T,
    pub knight: T,
    pub bishop: T,
    pub rook: T,
    pub queen: T,
    pub king: T,
}

impl<T> PieceEvalSet<T> {
    /// The value of a piece kind.
    pub open spec fn spec_get(&self, piece: PieceKind) -> T {
        match piece {
            PieceKind::Pawn => self.pawn,
            PieceKind::Knight => self.knight,
            PieceKind::Bishop => self.bishop,
            PieceKind::Rook => self.rook,
            PieceKind::Queen => self.queen,
            PieceKind::King => self.king,
        }
    }

    pub fn get(&self, piece: PieceKind) -> (r: &T)
        ensures
            *r == self.spec_get(piece),
    {
        match piece {
            PieceKind::Pawn => &self.pawn,
            PieceKind::Knight => &self.knight,
            PieceKind::Bishop => &self.bishop,
            PieceKind::Rook => &self.rook,
            PieceKind::Queen => &self.queen,
            PieceKind::King => &self.king,
        }
    }
}

/// Mobility terms: one value per number of reachable squares, for each kind of piece.
#[derive(Debug, Clone)]
pub struct Mobility<E> {
    pub pawn: [E; 5],
    pub knight: [E; 9],
    pub bishop: [E; 14],
    pub rook: [E; 15],
    pub queen: [E; 28],
    pub king: [E; 9],
}

impl<E> Mobility<E> {
    /// The terms of a piece kind.
    pub open spec fn spec_get(&self, piece: PieceKind) -> Seq<E> {
        match piece {
            PieceKind::Pawn => self.pawn@,
            PieceKind::Knight => self.knight@,
            PieceKind::Bishop => self.bishop@,
            PieceKind::Rook => self.rook@,
            PieceKind::Queen => self.queen@,
            PieceKind::King => self.king@,
        }
    }

    pub fn get(&self, piece: PieceKind) -> (r: &[E])
        ensures
            r@ == self.spec_get(piece),
    {
        match piece {
            PieceKind::Pawn => self.pawn.as_slice(),
            PieceKind::Knight => self.knight.as_slice(),
            PieceKind::Bishop => self.bishop.as_slice(),
            PieceKind::Rook => self.rook.as_slice(),
            PieceKind::Queen => self.queen.as_slice(),
            PieceKind::King => self.king.as_slice(),
        }
    }

    /// The terms of a piece kind, to change in place.
    pub fn get_mut(&mut self, piece: PieceKind) -> (r: &mut [E])
        ensures
            r@ == old(self).spec_get(piece),
            final(self).spec_get(piece) == final(r)@,
            forall|p: PieceKind| p != piece ==> final(self).spec_get(p) == old(self).spec_get(p),
    {
        match piece {
            PieceKind::Pawn => &mut self.pawn,
            PieceKind::Knight => &mut self.knight,
            PieceKind::Bishop => &mut self.bishop,
            PieceKind::Rook => &mut self.rook,
            PieceKind::Queen => &mut self.queen,
            PieceKind::King => &mut self.king,
        }
    }
}

} // verus!
