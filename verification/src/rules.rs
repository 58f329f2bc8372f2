//! Movement and attack rules, shared between move validation and
//! check detection so the two can never diverge.
//!
//! Everything here is stated over the board's grid view. A sliding piece
//! (Rook, Bishop, Queen) reaches a square only along a straight or
//! diagonal line whose strictly intervening squares are all empty; pawns
//! attack diagonally one step forward regardless of occupancy, and move
//! forward only onto empty squares.

use crate::board::{in_range, Board, Grid, Square};
use crate::piece::{opponent_of, Piece, PieceColor, PieceKind};
use vstd::prelude::*;

verus! {

/// The row direction a pawn of color `c` advances in: White pawns start
/// on row 6 and move toward row 0, Black pawns the other way.
pub open spec fn forward(c: PieceColor) -> int {
    match c {
        PieceColor::White => -1,
        PieceColor::Black => 1,
    }
}

/// The row a pawn of color `c` starts on.
pub open spec fn pawn_start_row(c: PieceColor) -> int {
    match c {
        PieceColor::White => 6,
        PieceColor::Black => 1,
    }
}

/// The rank a pawn of color `c` promotes on: the opponent's back rank.
pub open spec fn promotion_row(c: PieceColor) -> int {
    match c {
        PieceColor::White => 0,
        PieceColor::Black => 7,
    }
}

/// The back rank of color `c`, where its King and Rooks start.
pub open spec fn home_row(c: PieceColor) -> int {
    match c {
        PieceColor::White => 7,
        PieceColor::Black => 0,
    }
}

/// `x` lies strictly between `a` and `b`.
pub open spec fn btw(a: int, x: int, b: int) -> bool {
    (a < x && x < b) || (b < x && x < a)
}

/// The absolute difference of `a` and `b`.
pub open spec fn dist(a: int, b: int) -> int {
    if a < b {
        b - a
    } else {
        a - b
    }
}

/// The sign of `x`: -1, 0, or 1.
pub open spec fn sign(x: int) -> int {
    if x > 0 {
        1
    } else if x < 0 {
        -1
    } else {
        0
    }
}

/// `(r, c)` lies strictly between `(fr, fc)` and `(tr, tc)` on the
/// straight or diagonal segment joining them. When the two ends share no
/// straight or diagonal line there is no such square.
pub open spec fn seg_between(fr: int, fc: int, tr: int, tc: int, r: int, c: int) -> bool {
    if fr == tr && fc != tc {
        r == fr && btw(fc, c, tc)
    } else if fc == tc && fr != tr {
        c == fc && btw(fr, r, tr)
    } else if tr - fr == tc - fc && fr != tr {
        r - fr == c - fc && btw(fr, r, tr)
    } else if tr - fr == fc - tc && fr != tr {
        r - fr == fc - c && btw(fr, r, tr)
    } else {
        false
    }
}

/// Every square strictly between the two positions is empty.
pub open spec fn segment_clear(g: Grid, fr: int, fc: int, tr: int, tc: int) -> bool {
    forall|r: int, c: int| #[trigger] seg_between(fr, fc, tr, tc, r, c) ==> g[(r, c)] is Empty
}

/// A Rook step: along a row or a column, not staying in place.
pub open spec fn rook_shape(fr: int, fc: int, tr: int, tc: int) -> bool {
    (fr == tr || fc == tc) && !(fr == tr && fc == tc)
}

/// A Bishop step: along a diagonal, not staying in place.
pub open spec fn bishop_shape(fr: int, fc: int, tr: int, tc: int) -> bool {
    (tr - fr == tc - fc || tr - fr == fc - tc) && fr != tr
}

/// A Knight jump: one step on one axis and two on the other.
pub open spec fn knight_shape(fr: int, fc: int, tr: int, tc: int) -> bool {
    (dist(fr, tr) == 1 && dist(fc, tc) == 2) || (dist(fr, tr) == 2 && dist(fc, tc) == 1)
}

/// A King step: to an adjacent square.
pub open spec fn king_shape(fr: int, fc: int, tr: int, tc: int) -> bool {
    dist(fr, tr) <= 1 && dist(fc, tc) <= 1 && !(fr == tr && fc == tc)
}

/// A pawn of color `c` on `(fr, fc)` attacks `(tr, tc)`: one step
/// forward and one aside, regardless of what stands there.
pub open spec fn pawn_attack_shape(c: PieceColor, fr: int, fc: int, tr: int, tc: int) -> bool {
    tr == fr + forward(c) && (tc == fc + 1 || tc == fc - 1)
}

/// The piece `p` standing on `(fr, fc)` attacks `(tr, tc)` on grid `g`.
/// Sliding pieces need a clear line; pawn attacks ignore occupancy and
/// differ from pawn moves.
pub open spec fn piece_attacks(g: Grid, p: Piece, fr: int, fc: int, tr: int, tc: int) -> bool {
    in_range(fr, fc) && in_range(tr, tc) && match p.kind {
        PieceKind::Pawn => pawn_attack_shape(p.color, fr, fc, tr, tc),
        PieceKind::Knight => knight_shape(fr, fc, tr, tc),
        PieceKind::King => king_shape(fr, fc, tr, tc),
        PieceKind::Rook => rook_shape(fr, fc, tr, tc) && segment_clear(g, fr, fc, tr, tc),
        PieceKind::Bishop => bishop_shape(fr, fc, tr, tc) && segment_clear(g, fr, fc, tr, tc),
        PieceKind::Queen => (rook_shape(fr, fc, tr, tc) || bishop_shape(fr, fc, tr, tc))
            && segment_clear(g, fr, fc, tr, tc),
    }
}

/// A piece of color `by` stands on `(fr, fc)` and attacks `(tr, tc)`.
pub open spec fn attacker_at(g: Grid, by: PieceColor, fr: int, fc: int, tr: int, tc: int) -> bool {
    g[(fr, fc)] matches Square::Full(p) && p.color == by && piece_attacks(g, p, fr, fc, tr, tc)
}

/// Some piece of color `by` attacks `(tr, tc)` on grid `g`.
pub open spec fn square_attacked(g: Grid, by: PieceColor, tr: int, tc: int) -> bool {
    exists|fr: int, fc: int| #[trigger] attacker_at(g, by, fr, fc, tr, tc)
}

/// A pawn of color `c` may move from `(fr, fc)` to `(tr, tc)`: a single
/// push onto an empty square, a double push from its start row across an
/// empty square, or a diagonal capture of an opposing piece. Pawns never
/// capture by moving forward.
pub open spec fn pawn_move_ok(g: Grid, c: PieceColor, fr: int, fc: int, tr: int, tc: int) -> bool {
    ||| (tc == fc && tr == fr + forward(c) && g[(tr, tc)] is Empty)
    ||| (tc == fc && fr == pawn_start_row(c) && tr == fr + 2 * forward(c) && {
        let mr = fr + forward(c);
        g[(mr, fc)] is Empty
    } && g[(tr, tc)] is Empty)
    ||| (pawn_attack_shape(c, fr, fc, tr, tc) && (g[(tr, tc)] matches Square::Full(q) && q.color
        == opponent_of(c)))
}

/// The piece `p` on `(fr, fc)` can reach `(tr, tc)` by its own movement
/// rule. For every kind but the pawn this coincides with its attack rule;
/// a pawn moves straight and captures diagonally.
pub open spec fn piece_move_shape_ok(
    g: Grid,
    p: Piece,
    fr: int,
    fc: int,
    tr: int,
    tc: int,
) -> bool {
    match p.kind {
        PieceKind::Pawn => in_range(fr, fc) && in_range(tr, tc) && pawn_move_ok(
            g,
            p.color,
            fr,
            fc,
            tr,
            tc,
        ),
        _ => piece_attacks(g, p, fr, fc, tr, tc),
    }
}

/// The piece `p` on `(fr, fc)` may be played to `(tr, tc)`: its movement
/// rule allows the step and the destination does not hold a piece of its
/// own color.
pub open spec fn move_target_ok(g: Grid, p: Piece, fr: int, fc: int, tr: int, tc: int) -> bool {
    piece_move_shape_ok(g, p, fr, fc, tr, tc) && !(g[(tr, tc)] matches Square::Full(q) && q.color
        == p.color)
}

/// Walks the straight or diagonal line from `(fr, fc)` to `(tr, tc)` and
/// reports whether every strictly intervening square is empty.
pub fn is_path_clear(b: Board, fr: u8, fc: u8, tr: u8, tc: u8) -> (res: bool)
    requires
        fr < 8,
        fc < 8,
        tr < 8,
        tc < 8,
        rook_shape(fr as int, fc as int, tr as int, tc as int) || bishop_shape(
            fr as int,
            fc as int,
            tr as int,
            tc as int,
        ),
    ensures
        res == segment_clear(b@, fr as int, fc as int, tr as int, tc as int),
{
    let fri = fr as i16;
    let fci = fc as i16;
    let tri = tr as i16;
    let tci = tc as i16;
    let dr: i16 = if tri > fri {
        1
    } else if tri < fri {
        -1
    } else {
        0
    };
    let dc: i16 = if tci > fci {
        1
    } else if tci < fci {
        -1
    } else {
        0
    };
    let mut r: i16 = fri + dr;
    let mut c: i16 = fci + dc;
    while !(r == tri && c == tci)
        invariant
            fri == fr as int && fci == fc as int && tri == tr as int && tci == tc as int,
            fr < 8 && fc < 8 && tr < 8 && tc < 8,
            rook_shape(fri as int, fci as int, tri as int, tci as int) || bishop_shape(
                fri as int,
                fci as int,
                tri as int,
                tci as int,
            ),
            dr as int == sign(tri as int - fri as int),
            dc as int == sign(tci as int - fci as int),
            seg_between(fri as int, fci as int, tri as int, tci as int, r as int, c as int) || (r
                == tri && c == tci),
            forall|r0: int, c0: int|
                #[trigger] seg_between(fri as int, fci as int, tri as int, tci as int, r0, c0) && (
                btw(fri as int, r0, r as int) || btw(fci as int, c0, c as int)) ==> b@[(r0, c0)] is Empty,
        decreases dist(r as int, tri as int) + dist(c as int, tci as int),
    {
        assert(seg_between(fri as int, fci as int, tri as int, tci as int, r as int, c as int));
        assert(0 <= r < 8 && 0 <= c < 8);
        match b.square(r as u8, c as u8) {
            Square::Full(_) => {
                assert(!segment_clear(b@, fr as int, fc as int, tr as int, tc as int));
                return false;
            },
            Square::Empty => {},
        }
        r = r + dr;
        c = c + dc;
    }
    assert(segment_clear(b@, fr as int, fc as int, tr as int, tc as int)) by {
        assert forall|r0: int, c0: int|
            #[trigger] seg_between(fr as int, fc as int, tr as int, tc as int, r0, c0) implies b@[(r0, c0)] is Empty by {
            assert(btw(fr as int, r0, tr as int) || btw(fc as int, c0, tc as int));
        }
    }
    true
}

/// Does the piece `p` standing on `(fr, fc)` attack `(tr, tc)`?
pub fn does_piece_attack(b: Board, p: Piece, fr: u8, fc: u8, tr: u8, tc: u8) -> (res: bool)
    requires
        fr < 8,
        fc < 8,
        tr < 8,
        tc < 8,
    ensures
        res == piece_attacks(b@, p, fr as int, fc as int, tr as int, tc as int),
{
    let fri = fr as i16;
    let fci = fc as i16;
    let tri = tr as i16;
    let tci = tc as i16;
    let dr: i16 = if fri < tri {
        tri - fri
    } else {
        fri - tri
    };
    let dc: i16 = if fci < tci {
        tci - fci
    } else {
        fci - tci
    };
    match p.kind {
        PieceKind::Pawn => {
            let fwd: i16 = if matches!(p.color, PieceColor::White) {
                -1
            } else {
                1
            };
            tri == fri + fwd && (tci == fci + 1 || tci == fci - 1)
        },
        PieceKind::Knight => (dr == 1 && dc == 2) || (dr == 2 && dc == 1),
        PieceKind::King => dr <= 1 && dc <= 1 && !(dr == 0 && dc == 0),
        PieceKind::Rook => {
            if (fri == tri || fci == tci) && !(fri == tri && fci == tci) {
                is_path_clear(b, fr, fc, tr, tc)
            } else {
                false
            }
        },
        PieceKind::Bishop => {
            if (tri - fri == tci - fci || tri - fri == fci - tci) && fri != tri {
                is_path_clear(b, fr, fc, tr, tc)
            } else {
                false
            }
        },
        PieceKind::Queen => {
            let rook_ok = (fri == tri || fci == tci) && !(fri == tri && fci == tci);
            let bishop_ok = (tri - fri == tci - fci || tri - fri == fci - tci) && fri != tri;
            if rook_ok || bishop_ok {
                is_path_clear(b, fr, fc, tr, tc)
            } else {
                false
            }
        },
    }
}

/// Scans the whole board for a piece of color `by` that attacks
/// `(tr, tc)`.
pub fn is_square_attacked(b: Board, by: PieceColor, tr: u8, tc: u8) -> (res: bool)
    requires
        tr < 8,
        tc < 8,
    ensures
        res == square_attacked(b@, by, tr as int, tc as int),
{
    let mut fr: u8 = 0;
    while fr < 8
        invariant
            tr < 8,
            tc < 8,
            fr <= 8,
            forall|r0: int, c0: int|
                0 <= r0 < fr as int && 0 <= c0 < 8 ==> !#[trigger] attacker_at(
                    b@,
                    by,
                    r0,
                    c0,
                    tr as int,
                    tc as int,
                ),
        decreases 8 - fr as int,
    {
        let mut fc: u8 = 0;
        while fc < 8
            invariant
                tr < 8,
                tc < 8,
                fr < 8,
                fc <= 8,
                forall|r0: int, c0: int|
                    0 <= r0 < fr as int && 0 <= c0 < 8 ==> !#[trigger] attacker_at(
                        b@,
                        by,
                        r0,
                        c0,
                        tr as int,
                        tc as int,
                    ),
                forall|c0: int|
                    0 <= c0 < fc as int ==> !#[trigger] attacker_at(
                        b@,
                        by,
                        fr as int,
                        c0,
                        tr as int,
                        tc as int,
                    ),
            decreases 8 - fc as int,
        {
            match b.square(fr, fc) {
                Square::Full(p) => {
                    if p.color == by {
                        if does_piece_attack(b, p, fr, fc, tr, tc) {
                            assert(attacker_at(b@, by, fr as int, fc as int, tr as int, tc as int));
                            return true;
                        }
                    }
                },
                Square::Empty => {},
            }
            fc = fc + 1;
        }
        fr = fr + 1;
    }
    assert forall|r0: int, c0: int| !#[trigger] attacker_at(b@, by, r0, c0, tr as int, tc as int) by {
        if in_range(r0, c0) {
        } else {
        }
    }
    false
}

/// May the piece `p` standing on `(fr, fc)` be played to `(tr, tc)`?
/// Checks the piece's own movement rule, path blocking, and that the
/// destination holds no piece of the mover's color; it does not check
/// for self-check.
pub fn is_move_target_ok(b: Board, p: Piece, fr: u8, fc: u8, tr: u8, tc: u8) -> (res: bool)
    requires
        fr < 8,
        fc < 8,
        tr < 8,
        tc < 8,
    ensures
        res == move_target_ok(b@, p, fr as int, fc as int, tr as int, tc as int),
{
    let own_target = match b.square(tr, tc) {
        Square::Full(q) => q.color == p.color,
        Square::Empty => false,
    };
    if own_target {
        return false;
    }
    match p.kind {
        PieceKind::Pawn => {
            let fri = fr as i16;
            let fci = fc as i16;
            let tri = tr as i16;
            let tci = tc as i16;
            let fwd: i16 = if matches!(p.color, PieceColor::White) {
                -1
            } else {
                1
            };
            let start: i16 = if matches!(p.color, PieceColor::White) {
                6
            } else {
                1
            };
            if tci == fci && tri == fri + fwd {
                matches!(b.square(tr, tc), Square::Empty)
            } else if tci == fci && fri == start && tri == fri + 2 * fwd {
                matches!(b.square((fri + fwd) as u8, fc), Square::Empty) && matches!(
                    b.square(tr, tc),
                    Square::Empty,
                )
            } else if tri == fri + fwd && (tci == fci + 1 || tci == fci - 1) {
                match b.square(tr, tc) {
                    Square::Full(q) => q.color != p.color,
                    Square::Empty => false,
                }
            } else {
                false
            }
        },
        _ => does_piece_attack(b, p, fr, fc, tr, tc),
    }
}

} // verus!
