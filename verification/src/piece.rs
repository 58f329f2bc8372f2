//! The piece model: colors, kinds, and pieces as immutable value types.

use vstd::prelude::*;

verus! {

/// One of the two sides of a game.
#[derive(Copy, Clone, PartialEq, Eq, Structural, Debug)]
pub enum PieceColor {
    Black,
    White,
}

/// The six kinds of chess piece.
#[derive(Copy, Clone, PartialEq, Eq, Structural, Debug)]
pub enum PieceKind {
    Pawn,
    Knight,
    Bishop,
    Rook,
    King,
    Queen,
}

/// A piece is a color together with a kind; equality is structural.
#[derive(Copy, Clone, PartialEq, Eq, Structural, Debug)]
pub struct Piece {
    pub color: PieceColor,
    pub kind: PieceKind,
}

/// The color that moves after (and opposes) `c`.
pub open spec fn opponent_of(c: PieceColor) -> PieceColor {
    match c {
        PieceColor::White => PieceColor::Black,
        PieceColor::Black => PieceColor::White,
    }
}

impl PieceColor {
    /// The other color: White and Black strictly alternate through this.
    pub fn next(self) -> (r: PieceColor)
        ensures
            r == opponent_of(self),
    {
        match self {
            PieceColor::White => PieceColor::Black,
            PieceColor::Black => PieceColor::White,
        }
    }
}

} // verus!
