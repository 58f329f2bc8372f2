//! The board: an 8x8 grid of squares with pure functional accessors and
//! mutators. Every mutator returns a new `Board` value; no board is ever
//! changed in place.
//!
//! In specifications a board is viewed as a total map from `(row, col)`
//! pairs to squares; coordinates outside the 8x8 range map to `Empty`.

use crate::piece::{Piece, PieceColor, PieceKind};
use vstd::prelude::*;

verus! {

/// The content of one board cell at one instant.
#[derive(Copy, Clone, PartialEq, Eq, Structural, Debug)]
pub enum Square {
    Empty,
    Full(Piece),
}

/// The specification-level view of a board.
pub type Grid = Map<(int, int), Square>;

/// An 8x8 board of squares, stored row-major.
#[derive(Copy, Clone, PartialEq, Eq, Debug)]
pub struct Board {
    grid: [Square; 64],
}

/// True iff `(r, c)` is a coordinate of the 8x8 board.
pub open spec fn in_range(r: int, c: int) -> bool {
    0 <= r < 8 && 0 <= c < 8
}

/// The piece kind standing on column `c` of either back rank at game start.
pub open spec fn back_rank_kind(c: int) -> PieceKind {
    if c == 0 || c == 7 {
        PieceKind::Rook
    } else if c == 1 || c == 6 {
        PieceKind::Knight
    } else if c == 2 || c == 5 {
        PieceKind::Bishop
    } else if c == 3 {
        PieceKind::Queen
    } else {
        PieceKind::King
    }
}

/// The content of square `(r, c)` in the standard starting position:
/// Black's back rank on row 0, Black's pawns on row 1, White's pawns on
/// row 6, White's back rank on row 7, everything else empty.
pub open spec fn starting_square(r: int, c: int) -> Square {
    if !in_range(r, c) {
        Square::Empty
    } else if r == 0 {
        Square::Full(Piece { color: PieceColor::Black, kind: back_rank_kind(c) })
    } else if r == 1 {
        Square::Full(Piece { color: PieceColor::Black, kind: PieceKind::Pawn })
    } else if r == 6 {
        Square::Full(Piece { color: PieceColor::White, kind: PieceKind::Pawn })
    } else if r == 7 {
        Square::Full(Piece { color: PieceColor::White, kind: back_rank_kind(c) })
    } else {
        Square::Empty
    }
}

/// The view of the standard starting position.
pub open spec fn starting_grid() -> Grid {
    Map::new(|p: (int, int)| true, |p: (int, int)| starting_square(p.0, p.1))
}

impl View for Board {
    type V = Grid;

    closed spec fn view(&self) -> Grid {
        Map::new(
            |p: (int, int)| true,
            |p: (int, int)|
                if in_range(p.0, p.1) {
                    self.grid@[p.0 * 8 + p.1]
                } else {
                    Square::Empty
                },
        )
    }
}

impl Board {
    /// A board holding the standard starting position.
    pub fn default() -> (r: Board)
        ensures
            r@ == starting_grid(),
    {
        let mut b = Board { grid: [Square::Empty; 64] };
        assert forall|p: (int, int)| b@[p] == Square::Empty by {}
        for c in 0..8u8
            invariant
                forall|p: (int, int)| #![auto]
                    0 <= p.1 < c && (p.0 == 0 || p.0 == 1 || p.0 == 6 || p.0 == 7) ==> b@[p]
                        == starting_square(p.0, p.1),
                forall|p: (int, int)| #![auto]
                    !(0 <= p.1 < c && (p.0 == 0 || p.0 == 1 || p.0 == 6 || p.0 == 7)) ==> b@[p]
                        == Square::Empty,
        {
            let k = back_rank_piece_kind(c);
            b = b.replace(Piece { color: PieceColor::Black, kind: k }, 0, c);
            b = b.replace(Piece { color: PieceColor::Black, kind: PieceKind::Pawn }, 1, c);
            b = b.replace(Piece { color: PieceColor::White, kind: PieceKind::Pawn }, 6, c);
            b = b.replace(Piece { color: PieceColor::White, kind: k }, 7, c);
        }
        proof {
            assert(b@ =~= starting_grid());
        }
        b
    }

    /// The content of square `(row, col)`. Callers must pass in-range
    /// coordinates; out-of-range lookups are a programmer error.
    pub fn square(self, row: u8, col: u8) -> (s: Square)
        requires
            row < 8,
            col < 8,
        ensures
            s == self@[(row as int, col as int)],
    {
        self.grid[(row as usize) * 8 + (col as usize)]
    }

    /// A new board equal to `self` except that `(row, col)` holds `piece`.
    pub fn replace(self, piece: Piece, row: u8, col: u8) -> (r: Board)
        requires
            row < 8,
            col < 8,
        ensures
            r@ == self@.insert((row as int, col as int), Square::Full(piece)),
    {
        let mut grid = self.grid;
        grid[(row as usize) * 8 + (col as usize)] = Square::Full(piece);
        let r = Board { grid };
        proof {
            assert(r@ =~= self@.insert((row as int, col as int), Square::Full(piece)));
        }
        r
    }

    /// A new board equal to `self` except that `(row, col)` is empty.
    pub fn remove(self, row: u8, col: u8) -> (r: Board)
        requires
            row < 8,
            col < 8,
        ensures
            r@ == self@.insert((row as int, col as int), Square::Empty),
    {
        let mut grid = self.grid;
        grid[(row as usize) * 8 + (col as usize)] = Square::Empty;
        let r = Board { grid };
        proof {
            assert(r@ =~= self@.insert((row as int, col as int), Square::Empty));
        }
        r
    }

    /// A new board with the contents of `pos1` and `pos2` exchanged;
    /// used to relocate King and Rook in one step during castling.
    pub fn switch(self, pos1: (u8, u8), pos2: (u8, u8)) -> (r: Board)
        requires
            pos1.0 < 8,
            pos1.1 < 8,
            pos2.0 < 8,
            pos2.1 < 8,
        ensures
            r@ == self@.insert(
                (pos1.0 as int, pos1.1 as int),
                self@[(pos2.0 as int, pos2.1 as int)],
            ).insert((pos2.0 as int, pos2.1 as int), self@[(pos1.0 as int, pos1.1 as int)]),
    {
        let mut grid = self.grid;
        grid[(pos1.0 as usize) * 8 + (pos1.1 as usize)] = self.grid[(pos2.0 as usize) * 8 + (
        pos2.1 as usize)];
        grid[(pos2.0 as usize) * 8 + (pos2.1 as usize)] = self.grid[(pos1.0 as usize) * 8 + (
        pos1.1 as usize)];
        let r = Board { grid };
        proof {
            assert(r@ =~= self@.insert(
                (pos1.0 as int, pos1.1 as int),
                self@[(pos2.0 as int, pos2.1 as int)],
            ).insert((pos2.0 as int, pos2.1 as int), self@[(pos1.0 as int, pos1.1 as int)]));
        }
        r
    }
}

/// Squares outside the 8x8 range read as empty in any board's view.
pub proof fn lemma_outside_grid_empty(b: Board)
    ensures
        forall|r: int, c: int| !in_range(r, c) ==> #[trigger] b@[(r, c)] is Empty,
{
}

/// The piece kind on column `c` of a back rank in the starting position.
fn back_rank_piece_kind(c: u8) -> (k: PieceKind)
    requires
        c < 8,
    ensures
        k == back_rank_kind(c as int),
{
    if c == 0 || c == 7 {
        PieceKind::Rook
    } else if c == 1 || c == 6 {
        PieceKind::Knight
    } else if c == 2 || c == 5 {
        PieceKind::Bishop
    } else if c == 3 {
        PieceKind::Queen
    } else {
        PieceKind::King
    }
}

} // verus!
