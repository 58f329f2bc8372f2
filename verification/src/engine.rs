//! Chess rules as transition functions on the game state.
//!
//! A `BoardState` bundles the board with the castling rights and the two
//! king positions; a `ChessMove` proposed against it either produces a
//! whole new `GameState` or an error naming the rule it violates. The
//! `GameState` machine sequences turns and phases: ongoing, check,
//! promotion pending, checkmate, stalemate.

use crate::board::{in_range, starting_grid, starting_square, Board, Grid, Square};
use crate::piece::{opponent_of, Piece, PieceColor, PieceKind};
use crate::rules::{
    attacker_at, btw, home_row, is_move_target_ok, is_path_clear, is_square_attacked,
    move_target_ok, piece_attacks, promotion_row, segment_clear, square_attacked,
};
use vstd::prelude::*;

verus! {

/// The player to move; each side is named by its color.
pub type Player = PieceColor;

/// The square value holding the king of color `c`.
pub open spec fn king_square(c: PieceColor) -> Square {
    Square::Full(Piece { color: c, kind: PieceKind::King })
}

/// The whole positional state of a game between moves: the board, the
/// per-color castling rights, and the two king positions, carried
/// redundantly so check detection needs no board scan. Values are
/// immutable; every transition returns a new one.
#[derive(Copy, Clone, PartialEq, Eq, Debug)]
pub struct BoardState {
    board: Board,
    black_can_castle: bool,
    white_can_castle: bool,
    black_king: (u8, u8),
    white_king: (u8, u8),
}

impl BoardState {
    /// The board this state carries.
    pub closed spec fn spec_board(self) -> Board {
        self.board
    }

    /// The grid view of the carried board.
    pub open spec fn grid(self) -> Grid {
        self.spec_board()@
    }

    /// Whether color `c` may still castle.
    pub closed spec fn castle_ok(self, c: PieceColor) -> bool {
        match c {
            PieceColor::White => self.white_can_castle,
            PieceColor::Black => self.black_can_castle,
        }
    }

    /// The recorded position of the king of color `c`.
    pub closed spec fn king_at(self, c: PieceColor) -> (int, int) {
        match c {
            PieceColor::White => (self.white_king.0 as int, self.white_king.1 as int),
            PieceColor::Black => (self.black_king.0 as int, self.black_king.1 as int),
        }
    }

    /// Well-formedness: each recorded king position is on the board and
    /// holds exactly that color's King, and no other square does.
    pub open spec fn wf_color(self, c: PieceColor) -> bool {
        &&& in_range(self.king_at(c).0, self.king_at(c).1)
        &&& self.grid()[self.king_at(c)] == king_square(c)
        &&& forall|r: int, cc: int|
            #[trigger] self.grid()[(r, cc)] == king_square(c) ==> (r, cc) == self.king_at(c)
    }

    /// Well-formedness of the whole state.
    pub open spec fn wf(self) -> bool {
        self.wf_color(PieceColor::White) && self.wf_color(PieceColor::Black)
    }

    /// Color `c`'s king currently stands on a square attacked by the
    /// other color.
    pub open spec fn in_check(self, c: PieceColor) -> bool {
        square_attacked(self.grid(), opponent_of(c), self.king_at(c).0, self.king_at(c).1)
    }

    /// The standard starting state: initial position, both castling
    /// rights intact, kings on their home squares.
    pub fn new() -> (s: BoardState)
        ensures
            s.grid() == starting_grid(),
            s.castle_ok(PieceColor::White),
            s.castle_ok(PieceColor::Black),
            s.king_at(PieceColor::White) == (7int, 4int),
            s.king_at(PieceColor::Black) == (0int, 4int),
            s.wf(),
    {
        let s = BoardState {
            board: Board::default(),
            black_can_castle: true,
            white_can_castle: true,
            black_king: (0, 4),
            white_king: (7, 4),
        };
        proof {
            assert forall|r: int, cc: int|
                #[trigger] s.grid()[(r, cc)] == king_square(PieceColor::White) implies (r, cc) == (
            7int, 4int) by {
                assert(s.grid()[(r, cc)] == starting_square(r, cc));
            }
            assert forall|r: int, cc: int|
                #[trigger] s.grid()[(r, cc)] == king_square(PieceColor::Black) implies (r, cc) == (
            0int, 4int) by {
                assert(s.grid()[(r, cc)] == starting_square(r, cc));
            }
            assert(s.grid()[(7int, 4int)] == starting_square(7, 4));
            assert(s.grid()[(0int, 4int)] == starting_square(0, 4));
        }
        s
    }

    /// Builds a state around an arbitrary board, searching it for the
    /// two kings. Returns `None` unless each color has exactly one King
    /// on the board.
    pub fn with_board(board: Board, white_can_castle: bool, black_can_castle: bool) -> (res: Option<
        BoardState,
    >)
        ensures
            match res {
                Some(s) => {
                    &&& s.wf()
                    &&& s.spec_board() == board
                    &&& s.castle_ok(PieceColor::White) == white_can_castle
                    &&& s.castle_ok(PieceColor::Black) == black_can_castle
                },
                None => !(exists|r: int, c: int| #[trigger] unique_king(board@, PieceColor::White, r, c))
                    || !(exists|r: int, c: int| #[trigger] unique_king(board@, PieceColor::Black, r, c)),
            },
    {
        let wk = find_unique_king(board, PieceColor::White);
        let bk = find_unique_king(board, PieceColor::Black);
        match (wk, bk) {
            (Some(w), Some(b)) => {
                let s = BoardState {
                    board,
                    black_can_castle,
                    white_can_castle,
                    black_king: b,
                    white_king: w,
                };
                Some(s)
            },
            _ => None,
        }
    }

    /// Is color `c`'s king attacked by the other side? A pure function
    /// of the state: equal states always give equal answers.
    pub fn is_check(self, color: PieceColor) -> (r: bool)
        requires
            self.wf(),
        ensures
            r == self.in_check(color),
    {
        let (kr, kc) = match color {
            PieceColor::White => self.white_king,
            PieceColor::Black => self.black_king,
        };
        is_square_attacked(self.board, color.next(), kr, kc)
    }

    /// The carried board, for read-only inspection.
    pub fn board(self) -> (b: Board)
        ensures
            b == self.spec_board(),
    {
        self.board
    }

    /// Whether color `c` may still castle, for read-only inspection.
    pub fn can_castle(self, c: PieceColor) -> (r: bool)
        ensures
            r == self.castle_ok(c),
    {
        match c {
            PieceColor::White => self.white_can_castle,
            PieceColor::Black => self.black_can_castle,
        }
    }

    /// The recorded king position of color `c`, for read-only inspection.
    pub fn king_position(self, c: PieceColor) -> (p: (u8, u8))
        ensures
            (p.0 as int, p.1 as int) == self.king_at(c),
    {
        match c {
            PieceColor::White => self.white_king,
            PieceColor::Black => self.black_king,
        }
    }
}

/// `(r, c)` holds the King of color `c` and no other square does.
pub open spec fn unique_king(g: Grid, color: PieceColor, r: int, c: int) -> bool {
    &&& in_range(r, c)
    &&& g[(r, c)] == king_square(color)
    &&& forall|r2: int, c2: int| #[trigger] g[(r2, c2)] == king_square(color) ==> (r2, c2) == (r, c)
}

/// Scans the board for the King of color `color`; returns its position
/// iff exactly one square holds it.
fn find_unique_king(b: Board, color: PieceColor) -> (res: Option<(u8, u8)>)
    ensures
        match res {
            Some(p) => p.0 < 8 && p.1 < 8 && unique_king(b@, color, p.0 as int, p.1 as int),
            None => !(exists|r: int, c: int| #[trigger] unique_king(b@, color, r, c)),
        },
{
    let mut found: Option<(u8, u8)> = None;
    let mut r: u8 = 0;
    while r < 8
        invariant
            r <= 8,
            match found {
                Some(p) => {
                    &&& p.0 < 8 && p.1 < 8
                    &&& p.0 < r
                    &&& b@[(p.0 as int, p.1 as int)] == king_square(color)
                },
                None => forall|r0: int, c0: int|
                    0 <= r0 < r as int && 0 <= c0 < 8 ==> #[trigger] b@[(r0, c0)] != king_square(
                        color,
                    ),
            },
            forall|r0: int, c0: int|
                0 <= r0 < r as int && 0 <= c0 < 8 && #[trigger] b@[(r0, c0)] == king_square(color)
                    ==> (found matches Some(p) && (r0, c0) == (p.0 as int, p.1 as int)),
        decreases 8 - r as int,
    {
        let mut c: u8 = 0;
        while c < 8
            invariant
                r < 8,
                c <= 8,
                match found {
                    Some(p) => {
                        &&& p.0 < 8 && p.1 < 8
                        &&& p.0 < r || (p.0 == r && p.1 < c)
                        &&& b@[(p.0 as int, p.1 as int)] == king_square(color)
                    },
                    None => forall|r0: int, c0: int|
                        (0 <= r0 < r as int && 0 <= c0 < 8) || (r0 == r as int && 0 <= c0
                            < c as int) ==> #[trigger] b@[(r0, c0)] != king_square(color),
                },
                forall|r0: int, c0: int|
                    ((0 <= r0 < r as int && 0 <= c0 < 8) || (r0 == r as int && 0 <= c0 < c as int))
                        && #[trigger] b@[(r0, c0)] == king_square(color) ==> (found matches Some(p)
                        && (r0, c0) == (p.0 as int, p.1 as int)),
            decreases 8 - c as int,
        {
            let sq = b.square(r, c);
            let is_king = match sq {
                Square::Full(p) => p.color == color && matches!(p.kind, PieceKind::King),
                Square::Empty => false,
            };
            if is_king {
                assert(b@[(r as int, c as int)] == king_square(color));
                match found {
                    Some(prev) => {
                        // two kings of one color: no unique position exists
                        assert forall|r2: int, c2: int| !#[trigger] unique_king(b@, color, r2, c2) by {
                            if unique_king(b@, color, r2, c2) {
                                assert(b@[(prev.0 as int, prev.1 as int)] == king_square(color));
                                assert((prev.0 as int, prev.1 as int) == (r2, c2));
                                assert((r as int, c as int) == (r2, c2));
                            }
                        }
                        return None;
                    },
                    None => {
                        found = Some((r, c));
                    },
                }
            }
            c = c + 1;
        }
        r = r + 1;
    }
    match found {
        Some(p) => {
            assert forall|r2: int, c2: int|
                #[trigger] b@[(r2, c2)] == king_square(color) implies (r2, c2) == (
            p.0 as int, p.1 as int) by {
                if !in_range(r2, c2) {
                    crate::board::lemma_outside_grid_empty(b);
                }
            }
            Some(p)
        },
        None => {
            assert forall|r2: int, c2: int| !#[trigger] unique_king(b@, color, r2, c2) by {
                if unique_king(b@, color, r2, c2) {
                    assert(b@[(r2, c2)] == king_square(color));
                }
            }
            None
        },
    }
}

/// The two castling directions, named from the mover's point of view:
/// the Queenside Rook starts on column 0, the Kingside Rook on column 7.
#[derive(Copy, Clone, PartialEq, Eq, Structural, Debug)]
pub enum CastleSide {
    Queenside,
    Kingside,
}

/// The three kinds of move a player may propose.
#[derive(Copy, Clone, PartialEq, Eq, Debug)]
pub enum ChessMoveKind {
    Standard { from: (u8, u8), to: (u8, u8) },
    Promote { at: (u8, u8) },
    Castle(CastleSide),
}

/// A proposed move: who plays it and what it is. An input value only,
/// never part of the persistent state.
#[derive(Copy, Clone, PartialEq, Eq, Debug)]
pub struct ChessMove {
    pub player: Player,
    pub kind: ChessMoveKind,
}

/// Why a proposed move was rejected; each variant names the rule
/// violated and carries the offending move back to the caller.
#[derive(Copy, Clone, PartialEq, Eq, Debug)]
pub enum ChessMoveError {
    EmptySquare(ChessMove),
    InvalidPiece(ChessMove),
    BlockedPath(ChessMove),
    CastleRestricted(ChessMove),
    ExposedKing(ChessMove),
}

/// The whole phase of a match. Created once at game start and replaced
/// wholesale on each accepted move, never mutated in place.
#[derive(Copy, Clone, PartialEq, Eq, Debug)]
pub enum GameState {
    OnGoing { turn: Player, state: BoardState },
    Check { turn: Player, state: BoardState },
    PromotionPending { turn: Player, state: BoardState, at: (u8, u8) },
    CheckMate { state: BoardState, loser: Player },
    StaleMate { state: BoardState },
}

/// Why the state machine refused to consider a move at all.
#[derive(Copy, Clone, PartialEq, Eq, Debug)]
pub enum GameStateError {
    WrongTurn(Player),
    WrongState,
    InvalidMove(ChessMoveError),
}

/// Every coordinate the move names lies on the board.
pub open spec fn move_in_bounds(mv: ChessMove) -> bool {
    match mv.kind {
        ChessMoveKind::Standard { from, to } => from.0 < 8 && from.1 < 8 && to.0 < 8 && to.1 < 8,
        ChessMoveKind::Promote { at } => at.0 < 8 && at.1 < 8,
        ChessMoveKind::Castle(_) => true,
    }
}

/// The home column of the Rook castling on `side`.
pub open spec fn rook_home_col(side: CastleSide) -> int {
    match side {
        CastleSide::Queenside => 0,
        CastleSide::Kingside => 7,
    }
}

/// The grid after the piece `p` is played from `(fr, fc)` to `(tr, tc)`:
/// the origin is emptied and the destination overwritten (captures
/// simply overwrite).
pub open spec fn grid_after_standard(g: Grid, p: Piece, fr: int, fc: int, tr: int, tc: int) -> Grid {
    g.insert((fr, fc), Square::Empty).insert((tr, tc), Square::Full(p))
}

/// Where the mover's king stands after playing `p` to `(tr, tc)`.
pub open spec fn standard_new_king(s: BoardState, player: PieceColor, p: Piece, tr: int, tc: int) -> (int, int) {
    if p.kind == PieceKind::King {
        (tr, tc)
    } else {
        s.king_at(player)
    }
}

/// Moving this piece from `(fr, fc)` forfeits castling: it is the King,
/// or a Rook leaving one of its two home squares.
pub open spec fn standard_clears_castle(p: Piece, fr: int, fc: int) -> bool {
    p.kind == PieceKind::King || (p.kind == PieceKind::Rook && fr == home_row(p.color) && (fc == 0
        || fc == 7))
}

/// Playing `p` from `(fr, fc)` to `(tr, tc)` would leave the mover's own
/// king attacked.
pub open spec fn standard_self_check(s: BoardState, p: Piece, fr: int, fc: int, tr: int, tc: int) -> bool {
    let g2 = grid_after_standard(s.grid(), p, fr, fc, tr, tc);
    let k = standard_new_king(s, p.color, p, tr, tc);
    square_attacked(g2, opponent_of(p.color), k.0, k.1)
}

/// A fully legal standard move for `player` from `(fr, fc)` to
/// `(tr, tc)`: a piece of theirs stands there, its movement rule allows
/// the step, and the move does not leave their own king in check.
pub open spec fn legal_standard(s: BoardState, player: PieceColor, fr: int, fc: int, tr: int, tc: int) -> bool {
    &&& in_range(fr, fc) && in_range(tr, tc)
    &&& (s.grid()[(fr, fc)] matches Square::Full(p) && p.color == player && move_target_ok(
        s.grid(),
        p,
        fr,
        fc,
        tr,
        tc,
    ) && !standard_self_check(s, p, fr, fc, tr, tc))
}

/// The piece on `(fr, fc)` has at least one legal standard move.
pub open spec fn piece_has_move(s: BoardState, player: PieceColor, fr: int, fc: int) -> bool {
    exists|tr: int, tc: int| #[trigger] legal_standard(s, player, fr, fc, tr, tc)
}

/// `player` has at least one legal standard move somewhere.
pub open spec fn has_legal_move(s: BoardState, player: PieceColor) -> bool {
    exists|fr: int, fc: int| #[trigger] piece_has_move(s, player, fr, fc)
}

/// The verdict on a standard move, in the order the rules are tested:
/// occupancy, ownership, movement and path, then self-check.
pub open spec fn standard_verdict(s: BoardState, mv: ChessMove, fr: int, fc: int, tr: int, tc: int) -> Result<(), ChessMoveError> {
    match s.grid()[(fr, fc)] {
        Square::Empty => Result::Err(ChessMoveError::EmptySquare(mv)),
        Square::Full(p) => if p.color != mv.player {
            Result::Err(ChessMoveError::InvalidPiece(mv))
        } else if !move_target_ok(s.grid(), p, fr, fc, tr, tc) {
            Result::Err(ChessMoveError::BlockedPath(mv))
        } else if standard_self_check(s, p, fr, fc, tr, tc) {
            Result::Err(ChessMoveError::ExposedKing(mv))
        } else {
            Result::Ok(())
        },
    }
}

/// The grid after promoting the pawn on `(ar, ac)` to a Queen.
pub open spec fn grid_after_promote(g: Grid, player: PieceColor, ar: int, ac: int) -> Grid {
    g.insert((ar, ac), Square::Full(Piece { color: player, kind: PieceKind::Queen }))
}

/// Promoting on `(ar, ac)` would leave the mover's king attacked.
pub open spec fn promote_self_check(s: BoardState, player: PieceColor, ar: int, ac: int) -> bool {
    square_attacked(
        grid_after_promote(s.grid(), player, ar, ac),
        opponent_of(player),
        s.king_at(player).0,
        s.king_at(player).1,
    )
}

/// The verdict on a promotion: the named square must hold the mover's
/// own pawn standing on the opponent's back rank.
pub open spec fn promote_verdict(s: BoardState, mv: ChessMove, ar: int, ac: int) -> Result<(), ChessMoveError> {
    match s.grid()[(ar, ac)] {
        Square::Empty => Result::Err(ChessMoveError::EmptySquare(mv)),
        Square::Full(p) => if p.color != mv.player {
            Result::Err(ChessMoveError::InvalidPiece(mv))
        } else if p.kind != PieceKind::Pawn {
            Result::Err(ChessMoveError::InvalidPiece(mv))
        } else if ar != promotion_row(mv.player) {
            Result::Err(ChessMoveError::InvalidPiece(mv))
        } else if promote_self_check(s, mv.player, ar, ac) {
            Result::Err(ChessMoveError::ExposedKing(mv))
        } else {
            Result::Ok(())
        },
    }
}

/// Some square the King starts on, passes through, or lands on during
/// the castle is attacked by the opponent.
pub open spec fn castle_squares_attacked(g: Grid, player: PieceColor, hr: int, rc: int) -> bool {
    exists|cc: int|
        (cc == 4 || cc == rc || btw(4, cc, rc)) && #[trigger] square_attacked(
            g,
            opponent_of(player),
            hr,
            cc,
        )
}

/// The grid after castling: King and Rook exchange squares in one step.
pub open spec fn grid_after_castle(g: Grid, hr: int, rc: int) -> Grid {
    g.insert((hr, 4), g[(hr, rc)]).insert((hr, rc), g[(hr, 4)])
}

/// The verdict on a castle: rights intact, King and Rook on their
/// untouched home squares, a clear path between them, no square of the
/// King's passage attacked, and no self-check afterwards.
pub open spec fn castle_verdict(s: BoardState, mv: ChessMove, side: CastleSide) -> Result<(), ChessMoveError> {
    let hr = home_row(mv.player);
    let rc = rook_home_col(side);
    let g = s.grid();
    if !s.castle_ok(mv.player) {
        Result::Err(ChessMoveError::CastleRestricted(mv))
    } else {
        match g[(hr, 4)] {
            Square::Empty => Result::Err(ChessMoveError::EmptySquare(mv)),
            Square::Full(k) => if !(k.color == mv.player && k.kind == PieceKind::King) {
                Result::Err(ChessMoveError::InvalidPiece(mv))
            } else {
                match g[(hr, rc)] {
                    Square::Empty => Result::Err(ChessMoveError::EmptySquare(mv)),
                    Square::Full(rk) => if !(rk.color == mv.player && rk.kind == PieceKind::Rook) {
                        Result::Err(ChessMoveError::InvalidPiece(mv))
                    } else if !segment_clear(g, hr, 4, hr, rc) {
                        Result::Err(ChessMoveError::BlockedPath(mv))
                    } else if castle_squares_attacked(g, mv.player, hr, rc) {
                        Result::Err(ChessMoveError::ExposedKing(mv))
                    } else if square_attacked(
                        grid_after_castle(g, hr, rc),
                        opponent_of(mv.player),
                        hr,
                        rc,
                    ) {
                        Result::Err(ChessMoveError::ExposedKing(mv))
                    } else {
                        Result::Ok(())
                    },
                }
            },
        }
    }
}

/// The verdict on any proposed move against a board state.
pub open spec fn move_verdict(s: BoardState, mv: ChessMove) -> Result<(), ChessMoveError> {
    match mv.kind {
        ChessMoveKind::Standard { from, to } => standard_verdict(
            s,
            mv,
            from.0 as int,
            from.1 as int,
            to.0 as int,
            to.1 as int,
        ),
        ChessMoveKind::Promote { at } => promote_verdict(s, mv, at.0 as int, at.1 as int),
        ChessMoveKind::Castle(side) => castle_verdict(s, mv, side),
    }
}

/// How the accepted move transforms the board state: the new grid, the
/// tracked king positions, and the castling rights, each as a function
/// of the old state and the move.
pub open spec fn next_board_state_ok(s: BoardState, mv: ChessMove, s2: BoardState) -> bool {
    let opp = opponent_of(mv.player);
    match mv.kind {
        ChessMoveKind::Standard { from, to } => {
            let fr = from.0 as int;
            let fc = from.1 as int;
            let tr = to.0 as int;
            let tc = to.1 as int;
            match s.grid()[(fr, fc)] {
                Square::Full(p) => {
                    &&& s2.grid() == grid_after_standard(s.grid(), p, fr, fc, tr, tc)
                    &&& s2.king_at(mv.player) == standard_new_king(s, mv.player, p, tr, tc)
                    &&& s2.king_at(opp) == s.king_at(opp)
                    &&& s2.castle_ok(mv.player) == (s.castle_ok(mv.player)
                        && !standard_clears_castle(p, fr, fc))
                    &&& s2.castle_ok(opp) == s.castle_ok(opp)
                },
                Square::Empty => false,
            }
        },
        ChessMoveKind::Promote { at } => {
            let ar = at.0 as int;
            let ac = at.1 as int;
            &&& s2.grid() == grid_after_promote(s.grid(), mv.player, ar, ac)
            &&& s2.king_at(mv.player) == s.king_at(mv.player)
            &&& s2.king_at(opp) == s.king_at(opp)
            &&& s2.castle_ok(mv.player) == s.castle_ok(mv.player)
            &&& s2.castle_ok(opp) == s.castle_ok(opp)
        },
        ChessMoveKind::Castle(side) => {
            let hr = home_row(mv.player);
            let rc = rook_home_col(side);
            &&& s2.grid() == grid_after_castle(s.grid(), hr, rc)
            &&& s2.king_at(mv.player) == (hr, rc)
            &&& s2.king_at(opp) == s.king_at(opp)
            &&& !s2.castle_ok(mv.player)
            &&& s2.castle_ok(opp) == s.castle_ok(opp)
        },
    }
}

/// The move is a standard move carrying the mover's pawn onto the
/// opponent's back rank, which suspends the game until a promotion.
pub open spec fn promoting_move(s: BoardState, mv: ChessMove) -> bool {
    mv.kind matches ChessMoveKind::Standard { from, to } && (s.grid()[(from.0 as int, from.1 as int)]
        matches Square::Full(p) && p.kind == PieceKind::Pawn) && to.0 as int == promotion_row(
        mv.player,
    )
}

/// The board state a game phase carries.
pub open spec fn outcome_state(g: GameState) -> BoardState {
    match g {
        GameState::OnGoing { turn, state } => state,
        GameState::Check { turn, state } => state,
        GameState::PromotionPending { turn, state, at } => state,
        GameState::CheckMate { state, loser } => state,
        GameState::StaleMate { state } => state,
    }
}

/// The phase chosen for the opponent once the mover's move stands:
/// check with a reply is `Check`, check without one is `CheckMate`, no
/// reply without check is `StaleMate`, otherwise play goes on.
pub open spec fn classified(s2: BoardState, mover: PieceColor, g: GameState) -> bool {
    let opp = opponent_of(mover);
    match g {
        GameState::OnGoing { turn, state } => turn == opp && state == s2 && !s2.in_check(opp)
            && has_legal_move(s2, opp),
        GameState::Check { turn, state } => turn == opp && state == s2 && s2.in_check(opp)
            && has_legal_move(s2, opp),
        GameState::CheckMate { state, loser } => loser == opp && state == s2 && s2.in_check(opp)
            && !has_legal_move(s2, opp),
        GameState::StaleMate { state } => state == s2 && !s2.in_check(opp) && !has_legal_move(
            s2,
            opp,
        ),
        GameState::PromotionPending { turn, state, at } => false,
    }
}

/// What an accepted move yields: a pawn reaching the last rank suspends
/// play for promotion with the turn unchanged; every other acceptance
/// classifies the opponent's new situation and hands them the turn.
pub open spec fn valid_outcome(s: BoardState, mv: ChessMove, g: GameState) -> bool {
    match g {
        GameState::PromotionPending { turn, state, at } => {
            &&& promoting_move(s, mv)
            &&& turn == mv.player
            &&& next_board_state_ok(s, mv, state)
            &&& state.wf()
            &&& !state.in_check(mv.player)
            &&& (mv.kind matches ChessMoveKind::Standard { from, to } && at == to)
        },
        _ => {
            let s2 = outcome_state(g);
            &&& !promoting_move(s, mv)
            &&& next_board_state_ok(s, mv, s2)
            &&& s2.wf()
            &&& !s2.in_check(mv.player)
            &&& classified(s2, mv.player, g)
        },
    }
}

/// The game-machine invariant: the carried state is well-formed; whoever
/// holds the turn in `OnGoing` faces no check on either side, in `Check`
/// exactly the turn holder is checked, and a pending promotion never
/// leaves the mover themselves in check.
pub open spec fn game_inv(g: GameState) -> bool {
    match g {
        GameState::OnGoing { turn, state } => state.wf() && !state.in_check(turn)
            && !state.in_check(opponent_of(turn)),
        GameState::Check { turn, state } => state.wf() && state.in_check(turn) && !state.in_check(
            opponent_of(turn),
        ),
        GameState::PromotionPending { turn, state, at } => state.wf() && !state.in_check(turn),
        GameState::CheckMate { state, loser } => state.wf(),
        GameState::StaleMate { state } => state.wf(),
    }
}

/// Which board state a move is delegated to, or why the machine refuses
/// it outright: terminal phases accept nothing, the wrong player is
/// turned away, and a pending promotion accepts only its own `Promote`.
pub open spec fn phase_verdict(g: GameState, mv: ChessMove) -> Result<BoardState, GameStateError> {
    match g {
        GameState::OnGoing { turn, state } => if mv.player != turn {
            Result::Err(GameStateError::WrongTurn(turn))
        } else {
            Result::Ok(state)
        },
        GameState::Check { turn, state } => if mv.player != turn {
            Result::Err(GameStateError::WrongTurn(turn))
        } else {
            Result::Ok(state)
        },
        GameState::PromotionPending { turn, state, at } => if mv.player != turn {
            Result::Err(GameStateError::WrongTurn(turn))
        } else if !(mv.kind matches ChessMoveKind::Promote { at: a } && a == at) {
            Result::Err(GameStateError::WrongState)
        } else {
            Result::Ok(state)
        },
        GameState::CheckMate { state, loser } => Result::Err(GameStateError::WrongState),
        GameState::StaleMate { state } => Result::Err(GameStateError::WrongState),
    }
}

/// One whole machine step: a refusal by the phase is returned as it
/// stands; otherwise the move's own verdict decides, and an accepted
/// move yields a classified successor phase.
pub open spec fn step_ok(g: GameState, mv: ChessMove, res: Result<GameState, GameStateError>) -> bool {
    match phase_verdict(g, mv) {
        Result::Err(e) => res == Result::<GameState, GameStateError>::Err(e),
        Result::Ok(state) => match move_verdict(state, mv) {
            Result::Err(me) => res == Result::<GameState, GameStateError>::Err(
                GameStateError::InvalidMove(me),
            ),
            Result::Ok(u) => res matches Result::Ok(g2) && valid_outcome(state, mv, g2),
        },
    }
}

/// A move onto an occupied square is always a capture along the piece's
/// attack rule: a pawn reaches an occupied square only diagonally, and
/// every other piece moves exactly where it attacks.
proof fn lemma_capture_implies_attack(g: Grid, p: Piece, fr: int, fc: int, tr: int, tc: int)
    requires
        move_target_ok(g, p, fr, fc, tr, tc),
        g[(tr, tc)] is Full,
    ensures
        piece_attacks(g, p, fr, fc, tr, tc),
{
}

/// Applies an already-vetted standard move: produces the new board, the
/// updated king position, and the surviving castling rights, and shows
/// the result well-formed. The mover's opponent must not already stand
/// in check, which is what rules out capturing a king.
fn apply_standard(s: BoardState, player: PieceColor, p: Piece, from: (u8, u8), to: (u8, u8)) -> (s2: BoardState)
    requires
        s.wf(),
        from.0 < 8,
        from.1 < 8,
        to.0 < 8,
        to.1 < 8,
        s.grid()[(from.0 as int, from.1 as int)] == Square::Full(p),
        p.color == player,
        move_target_ok(s.grid(), p, from.0 as int, from.1 as int, to.0 as int, to.1 as int),
        !s.in_check(opponent_of(player)),
    ensures
        s2.grid() == grid_after_standard(
            s.grid(),
            p,
            from.0 as int,
            from.1 as int,
            to.0 as int,
            to.1 as int,
        ),
        s2.king_at(player) == standard_new_king(s, player, p, to.0 as int, to.1 as int),
        s2.king_at(opponent_of(player)) == s.king_at(opponent_of(player)),
        s2.castle_ok(player) == (s.castle_ok(player) && !standard_clears_castle(
            p,
            from.0 as int,
            from.1 as int,
        )),
        s2.castle_ok(opponent_of(player)) == s.castle_ok(opponent_of(player)),
        s2.wf(),
{
    let new_board = s.board.remove(from.0, from.1).replace(p, to.0, to.1);
    let is_king = matches!(p.kind, PieceKind::King);
    let home: u8 = match player {
        PieceColor::White => 7,
        PieceColor::Black => 0,
    };
    let clears = is_king || (matches!(p.kind, PieceKind::Rook) && from.0 == home && (from.1 == 0
        || from.1 == 7));
    let new_king = if is_king {
        to
    } else {
        match player {
            PieceColor::White => s.white_king,
            PieceColor::Black => s.black_king,
        }
    };
    let s2 = match player {
        PieceColor::White => BoardState {
            board: new_board,
            white_king: new_king,
            black_king: s.black_king,
            white_can_castle: s.white_can_castle && !clears,
            black_can_castle: s.black_can_castle,
        },
        PieceColor::Black => BoardState {
            board: new_board,
            white_king: s.white_king,
            black_king: new_king,
            white_can_castle: s.white_can_castle,
            black_can_castle: s.black_can_castle && !clears,
        },
    };
    proof {
        let opp = opponent_of(player);
        let g = s.grid();
        let g2 = s2.grid();
        let fr = from.0 as int;
        let fc = from.1 as int;
        let tr = to.0 as int;
        let tc = to.1 as int;
        // the destination cannot be the opposing king's square
        if (tr, tc) == s.king_at(opp) {
            assert(g[(tr, tc)] == king_square(opp));
            lemma_capture_implies_attack(g, p, fr, fc, tr, tc);
            assert(attacker_at(g, player, fr, fc, tr, tc));
            assert(s.in_check(opp));
        }
        // the origin holds the moved piece, so it is neither king square
        // unless the moved piece is the mover's own king
        assert(g[s.king_at(opp)] == king_square(opp));
        assert(g[s.king_at(player)] == king_square(player));
        // the opponent's king is untouched and still unique
        assert(g2[s.king_at(opp)] == king_square(opp));
        assert forall|r: int, cc: int|
            #[trigger] g2[(r, cc)] == king_square(opp) implies (r, cc) == s2.king_at(opp) by {
            if (r, cc) != (fr, fc) && (r, cc) != (tr, tc) {
                assert(g[(r, cc)] == king_square(opp));
            }
        }
        // the mover's king is where the new state records it, uniquely
        if p.kind == PieceKind::King {
            assert((fr, fc) == s.king_at(player));
            assert(p == Piece { color: player, kind: PieceKind::King });
            assert(g2[(tr, tc)] == king_square(player));
            assert forall|r: int, cc: int|
                #[trigger] g2[(r, cc)] == king_square(player) implies (r, cc) == s2.king_at(
            player) by {
                if (r, cc) != (fr, fc) && (r, cc) != (tr, tc) {
                    assert(g[(r, cc)] == king_square(player));
                }
            }
        } else {
            // a non-king mover never starts from or lands on its own king
            assert(g[(fr, fc)] != king_square(player));
            if (tr, tc) == s.king_at(player) {
                assert(g[(tr, tc)] == king_square(player));
                assert(!move_target_ok(g, p, fr, fc, tr, tc));
            }
            assert(g2[s.king_at(player)] == king_square(player));
            assert forall|r: int, cc: int|
                #[trigger] g2[(r, cc)] == king_square(player) implies (r, cc) == s2.king_at(
            player) by {
                if (r, cc) != (fr, fc) && (r, cc) != (tr, tc) {
                    assert(g[(r, cc)] == king_square(player));
                }
            }
        }
        assert(s2.wf_color(PieceColor::White));
        assert(s2.wf_color(PieceColor::Black));
    }
    s2
}

/// Tests one candidate standard move of `player` for full legality,
/// self-check included.
fn is_legal_standard(s: BoardState, player: PieceColor, fr: u8, fc: u8, tr: u8, tc: u8) -> (res: bool)
    requires
        s.wf(),
        fr < 8,
        fc < 8,
        tr < 8,
        tc < 8,
    ensures
        res == legal_standard(s, player, fr as int, fc as int, tr as int, tc as int),
{
    match s.board.square(fr, fc) {
        Square::Empty => false,
        Square::Full(p) => {
            if p.color != player {
                false
            } else if !is_move_target_ok(s.board, p, fr, fc, tr, tc) {
                false
            } else {
                let nb = s.board.remove(fr, fc).replace(p, tr, tc);
                let (kr, kc) = if matches!(p.kind, PieceKind::King) {
                    (tr, tc)
                } else {
                    s.king_position(player)
                };
                assert((kr as int, kc as int) == standard_new_king(
                    s,
                    player,
                    p,
                    tr as int,
                    tc as int,
                ));
                !is_square_attacked(nb, player.next(), kr, kc)
            }
        },
    }
}

/// Does the piece of `player` on `(fr, fc)` have any legal standard
/// move? Scans all 64 destinations.
fn any_target_from(s: BoardState, player: PieceColor, fr: u8, fc: u8) -> (res: bool)
    requires
        s.wf(),
        fr < 8,
        fc < 8,
    ensures
        res == piece_has_move(s, player, fr as int, fc as int),
{
    let mut tr: u8 = 0;
    while tr < 8
        invariant
            s.wf(),
            fr < 8,
            fc < 8,
            tr <= 8,
            forall|r0: int, c0: int|
                0 <= r0 < tr as int && 0 <= c0 < 8 ==> !#[trigger] legal_standard(
                    s,
                    player,
                    fr as int,
                    fc as int,
                    r0,
                    c0,
                ),
        decreases 8 - tr as int,
    {
        let mut tc: u8 = 0;
        while tc < 8
            invariant
                s.wf(),
                fr < 8,
                fc < 8,
                tr < 8,
                tc <= 8,
                forall|r0: int, c0: int|
                    0 <= r0 < tr as int && 0 <= c0 < 8 ==> !#[trigger] legal_standard(
                        s,
                        player,
                        fr as int,
                        fc as int,
                        r0,
                        c0,
                    ),
                forall|c0: int|
                    0 <= c0 < tc as int ==> !#[trigger] legal_standard(
                        s,
                        player,
                        fr as int,
                        fc as int,
                        tr as int,
                        c0,
                    ),
            decreases 8 - tc as int,
        {
            if is_legal_standard(s, player, fr, fc, tr, tc) {
                return true;
            }
            tc = tc + 1;
        }
        tr = tr + 1;
    }
    assert forall|r0: int, c0: int|
        !#[trigger] legal_standard(s, player, fr as int, fc as int, r0, c0) by {
        if !(in_range(r0, c0)) {
        }
    }
    false
}

/// Does `player` have any legal standard move at all? This is the
/// no-legal-move search behind checkmate and stalemate.
fn any_legal_move(s: BoardState, player: PieceColor) -> (res: bool)
    requires
        s.wf(),
    ensures
        res == has_legal_move(s, player),
{
    let mut fr: u8 = 0;
    while fr < 8
        invariant
            s.wf(),
            fr <= 8,
            forall|r0: int, c0: int|
                0 <= r0 < fr as int && 0 <= c0 < 8 ==> !#[trigger] piece_has_move(
                    s,
                    player,
                    r0,
                    c0,
                ),
        decreases 8 - fr as int,
    {
        let mut fc: u8 = 0;
        while fc < 8
            invariant
                s.wf(),
                fr < 8,
                fc <= 8,
                forall|r0: int, c0: int|
                    0 <= r0 < fr as int && 0 <= c0 < 8 ==> !#[trigger] piece_has_move(
                        s,
                        player,
                        r0,
                        c0,
                    ),
                forall|c0: int|
                    0 <= c0 < fc as int ==> !#[trigger] piece_has_move(s, player, fr as int, c0),
            decreases 8 - fc as int,
        {
            if any_target_from(s, player, fr, fc) {
                return true;
            }
            fc = fc + 1;
        }
        fr = fr + 1;
    }
    assert forall|r0: int, c0: int| !#[trigger] piece_has_move(s, player, r0, c0) by {
        if !in_range(r0, c0) {
            if piece_has_move(s, player, r0, c0) {
                let (tr0, tc0) = choose|tr0: int, tc0: int|
                    legal_standard(s, player, r0, c0, tr0, tc0);
                assert(!legal_standard(s, player, r0, c0, tr0, tc0));
            }
        }
    }
    false
}

/// Chooses the phase the game enters once `mover`'s move stands, by
/// testing the opponent for check and for any legal reply.
fn classify(s2: BoardState, mover: PieceColor) -> (g: GameState)
    requires
        s2.wf(),
        !s2.in_check(mover),
    ensures
        classified(s2, mover, g),
{
    let opp = mover.next();
    let checked = s2.is_check(opp);
    let any = any_legal_move(s2, opp);
    if checked {
        if any {
            GameState::Check { turn: opp, state: s2 }
        } else {
            GameState::CheckMate { state: s2, loser: opp }
        }
    } else {
        if any {
            GameState::OnGoing { turn: opp, state: s2 }
        } else {
            GameState::StaleMate { state: s2 }
        }
    }
}

/// Is any square of the King's castling passage (start, crossed, or
/// destination column) attacked by the opponent?
fn castle_cols_attacked(b: Board, player: PieceColor, hr: u8, rc: u8) -> (res: bool)
    requires
        hr < 8,
        rc == 0 || rc == 7,
    ensures
        res == castle_squares_attacked(b@, player, hr as int, rc as int),
{
    let lo: u8 = if rc < 4 {
        rc
    } else {
        4
    };
    let hi: u8 = if rc < 4 {
        4
    } else {
        rc
    };
    let mut cc = lo;
    while cc <= hi
        invariant
            hr < 8,
            rc == 0 || rc == 7,
            lo == (if rc < 4 { rc } else { 4u8 }),
            hi == (if rc < 4 { 4u8 } else { rc }),
            lo <= cc,
            cc <= hi + 1,
            forall|c0: int|
                lo as int <= c0 < cc as int ==> !square_attacked(
                    b@,
                    opponent_of(player),
                    hr as int,
                    c0,
                ),
        decreases hi as int + 1 - cc as int,
    {
        if is_square_attacked(b, player.next(), hr, cc) {
            proof {
                assert(square_attacked(b@, opponent_of(player), hr as int, cc as int));
                assert(cc as int == 4 || cc as int == rc as int || btw(4, cc as int, rc as int));
            }
            return true;
        }
        cc = cc + 1;
    }
    assert(!castle_squares_attacked(b@, player, hr as int, rc as int));
    false
}

impl ChessMove {
    /// Validates this move against a board state. On success the whole
    /// resulting game phase is produced: the board transformed, rights
    /// and king positions updated, and the opponent's situation
    /// classified (or the game suspended for promotion). On failure the
    /// error names the violated rule and the state is unchanged. A
    /// standard move may only be proposed while the mover's opponent is
    /// not in check, as is always the case in a game reached by legal
    /// moves.
    pub fn is_valid(self, board_state: BoardState) -> (res: Result<GameState, ChessMoveError>)
        requires
            board_state.wf(),
            move_in_bounds(self),
            (self.kind matches ChessMoveKind::Standard { .. }) ==> !board_state.in_check(
                opponent_of(self.player),
            ),
        ensures
            match res {
                Result::Ok(g) => move_verdict(board_state, self) == Result::<
                    (),
                    ChessMoveError,
                >::Ok(()) && valid_outcome(board_state, self, g),
                Result::Err(e) => move_verdict(board_state, self) == Result::<
                    (),
                    ChessMoveError,
                >::Err(e),
            },
    {
        let s = board_state;
        match self.kind {
            ChessMoveKind::Standard { from, to } => {
                match s.board.square(from.0, from.1) {
                    Square::Empty => Err(ChessMoveError::EmptySquare(self)),
                    Square::Full(p) => {
                        if p.color != self.player {
                            Err(ChessMoveError::InvalidPiece(self))
                        } else if !is_move_target_ok(s.board, p, from.0, from.1, to.0, to.1) {
                            Err(ChessMoveError::BlockedPath(self))
                        } else {
                            let s2 = apply_standard(s, self.player, p, from, to);
                            if s2.is_check(self.player) {
                                Err(ChessMoveError::ExposedKing(self))
                            } else {
                                let promo_row: u8 = match self.player {
                                    PieceColor::White => 0,
                                    PieceColor::Black => 7,
                                };
                                if matches!(p.kind, PieceKind::Pawn) && to.0 == promo_row {
                                    Ok(
                                        GameState::PromotionPending {
                                            turn: self.player,
                                            state: s2,
                                            at: to,
                                        },
                                    )
                                } else {
                                    Ok(classify(s2, self.player))
                                }
                            }
                        }
                    },
                }
            },
            ChessMoveKind::Promote { at } => {
                match s.board.square(at.0, at.1) {
                    Square::Empty => Err(ChessMoveError::EmptySquare(self)),
                    Square::Full(p) => {
                        let promo_row: u8 = match self.player {
                            PieceColor::White => 0,
                            PieceColor::Black => 7,
                        };
                        if p.color != self.player {
                            Err(ChessMoveError::InvalidPiece(self))
                        } else if !matches!(p.kind, PieceKind::Pawn) {
                            Err(ChessMoveError::InvalidPiece(self))
                        } else if at.0 != promo_row {
                            Err(ChessMoveError::InvalidPiece(self))
                        } else {
                            let nb = s.board.replace(
                                Piece { color: self.player, kind: PieceKind::Queen },
                                at.0,
                                at.1,
                            );
                            let s2 = BoardState {
                                board: nb,
                                white_king: s.white_king,
                                black_king: s.black_king,
                                white_can_castle: s.white_can_castle,
                                black_can_castle: s.black_can_castle,
                            };
                            proof {
                                let ar = at.0 as int;
                                let ac = at.1 as int;
                                let g = s.grid();
                                let g2 = s2.grid();
                                assert(g[s.king_at(PieceColor::White)] == king_square(
                                    PieceColor::White,
                                ));
                                assert(g[s.king_at(PieceColor::Black)] == king_square(
                                    PieceColor::Black,
                                ));
                                assert(g2[s.king_at(PieceColor::White)] == king_square(
                                    PieceColor::White,
                                ));
                                assert(g2[s.king_at(PieceColor::Black)] == king_square(
                                    PieceColor::Black,
                                ));
                                assert forall|r: int, cc: int|
                                    #[trigger] g2[(r, cc)] == king_square(
                                    PieceColor::White) implies g[(r, cc)] == king_square(
                                PieceColor::White) by {
                                    if (r, cc) != (ar, ac) {
                                        assert(g[(r, cc)] == g2[(r, cc)]);
                                    }
                                }
                                assert forall|r: int, cc: int|
                                    #[trigger] g2[(r, cc)] == king_square(
                                    PieceColor::Black) implies g[(r, cc)] == king_square(
                                PieceColor::Black) by {
                                    if (r, cc) != (ar, ac) {
                                        assert(g[(r, cc)] == g2[(r, cc)]);
                                    }
                                }
                                assert(s2.wf_color(PieceColor::White));
                                assert(s2.wf_color(PieceColor::Black));
                            }
                            if s2.is_check(self.player) {
                                Err(ChessMoveError::ExposedKing(self))
                            } else {
                                Ok(classify(s2, self.player))
                            }
                        }
                    },
                }
            },
            ChessMoveKind::Castle(side) => {
                let hr: u8 = match self.player {
                    PieceColor::White => 7,
                    PieceColor::Black => 0,
                };
                let rc: u8 = match side {
                    CastleSide::Queenside => 0,
                    CastleSide::Kingside => 7,
                };
                if !s.can_castle(self.player) {
                    return Err(ChessMoveError::CastleRestricted(self));
                }
                match s.board.square(hr, 4) {
                    Square::Empty => Err(ChessMoveError::EmptySquare(self)),
                    Square::Full(k) => {
                        if !(k.color == self.player && matches!(k.kind, PieceKind::King)) {
                            Err(ChessMoveError::InvalidPiece(self))
                        } else {
                            match s.board.square(hr, rc) {
                                Square::Empty => Err(ChessMoveError::EmptySquare(self)),
                                Square::Full(rk) => {
                                    if !(rk.color == self.player && matches!(
                                        rk.kind,
                                        PieceKind::Rook,
                                    )) {
                                        Err(ChessMoveError::InvalidPiece(self))
                                    } else if !is_path_clear(s.board, hr, 4, hr, rc) {
                                        Err(ChessMoveError::BlockedPath(self))
                                    } else if castle_cols_attacked(s.board, self.player, hr, rc) {
                                        Err(ChessMoveError::ExposedKing(self))
                                    } else {
                                        let nb = s.board.switch((hr, 4), (hr, rc));
                                        let s2 = match self.player {
                                            PieceColor::White => BoardState {
                                                board: nb,
                                                white_king: (hr, rc),
                                                black_king: s.black_king,
                                                white_can_castle: false,
                                                black_can_castle: s.black_can_castle,
                                            },
                                            PieceColor::Black => BoardState {
                                                board: nb,
                                                white_king: s.white_king,
                                                black_king: (hr, rc),
                                                white_can_castle: s.white_can_castle,
                                                black_can_castle: false,
                                            },
                                        };
                                        proof {
                                            let opp = opponent_of(self.player);
                                            let g = s.grid();
                                            let g2 = s2.grid();
                                            let hri = hr as int;
                                            let rci = rc as int;
                                            assert(k == Piece {
                                                color: self.player,
                                                kind: PieceKind::King,
                                            });
                                            assert((hri, 4int) == s.king_at(self.player));
                                            assert(g[s.king_at(opp)] == king_square(opp));
                                            assert(g2[(hri, rci)] == king_square(self.player));
                                            assert(g2[s.king_at(opp)] == king_square(opp));
                                            assert forall|r: int, cc: int|
                                                #[trigger] g2[(r, cc)] == king_square(
                                                self.player) implies (r, cc) == (hri, rci) by {
                                                if (r, cc) != (hri, 4int) && (r, cc) != (
                                                hri, rci) {
                                                    assert(g[(r, cc)] == king_square(self.player));
                                                }
                                            }
                                            assert forall|r: int, cc: int|
                                                #[trigger] g2[(r, cc)] == king_square(
                                                opp) implies (r, cc) == s2.king_at(opp) by {
                                                if (r, cc) != (hri, 4int) && (r, cc) != (
                                                hri, rci) {
                                                    assert(g[(r, cc)] == king_square(opp));
                                                }
                                            }
                                            assert(s2.wf_color(PieceColor::White));
                                            assert(s2.wf_color(PieceColor::Black));
                                        }
                                        if s2.is_check(self.player) {
                                            Err(ChessMoveError::ExposedKing(self))
                                        } else {
                                            Ok(classify(s2, self.player))
                                        }
                                    }
                                },
                            }
                        }
                    },
                }
            },
        }
    }
}

/// The player a phase is waiting on, if it is waiting on anyone.
pub open spec fn turn_of(g: GameState) -> Option<Player> {
    match g {
        GameState::OnGoing { turn, state } => Option::Some(turn),
        GameState::Check { turn, state } => Option::Some(turn),
        GameState::PromotionPending { turn, state, at } => Option::Some(turn),
        GameState::CheckMate { state, loser } => Option::None,
        GameState::StaleMate { state } => Option::None,
    }
}

/// In the starting position neither king stands attacked: no Black
/// piece reaches (7, 4) and no White piece reaches (0, 4).
pub(crate) proof fn lemma_starting_no_check()
    ensures
        !square_attacked(starting_grid(), PieceColor::Black, 7, 4),
        !square_attacked(starting_grid(), PieceColor::White, 0, 4),
{
    let g = starting_grid();
    assert forall|fr: int, fc: int|
        !#[trigger] attacker_at(g, PieceColor::Black, fr, fc, 7, 4) by {
        assert(g[(fr, fc)] == starting_square(fr, fc));
    }
    assert forall|fr: int, fc: int|
        !#[trigger] attacker_at(g, PieceColor::White, fr, fc, 0, 4) by {
        assert(g[(fr, fc)] == starting_square(fr, fc));
    }
}

impl GameState {
    /// A fresh match: the standard starting position, White to move.
    pub fn new() -> (g: GameState)
        ensures
            g matches GameState::OnGoing { turn, state } && turn == PieceColor::White
                && state.grid() == starting_grid() && state.castle_ok(PieceColor::White)
                && state.castle_ok(PieceColor::Black) && state.king_at(PieceColor::White) == (
            7int,
            4int,
            ) && state.king_at(PieceColor::Black) == (0int, 4int),
            game_inv(g),
    {
        let s = BoardState::new();
        proof {
            lemma_starting_no_check();
        }
        GameState::OnGoing { turn: PieceColor::White, state: s }
    }

    /// The player this phase is waiting on, if any; a read-only
    /// projection for a presentation layer.
    pub fn turn(self) -> (t: Option<Player>)
        ensures
            t == turn_of(self),
    {
        match self {
            GameState::OnGoing { turn, state: _ } => Some(turn),
            GameState::Check { turn, state: _ } => Some(turn),
            GameState::PromotionPending { turn, state: _, at: _ } => Some(turn),
            GameState::CheckMate { .. } => None,
            GameState::StaleMate { .. } => None,
        }
    }

    /// The board state this phase carries, for read-only inspection.
    pub fn board_state(self) -> (s: BoardState)
        ensures
            s == outcome_state(self),
    {
        match self {
            GameState::OnGoing { turn: _, state } => state,
            GameState::Check { turn: _, state } => state,
            GameState::PromotionPending { turn: _, state, at: _ } => state,
            GameState::CheckMate { state, loser: _ } => state,
            GameState::StaleMate { state } => state,
        }
    }

    /// The square awaiting promotion, when the game is suspended on one.
    pub fn promotion_square(self) -> (p: Option<(u8, u8)>)
        ensures
            match self {
                GameState::PromotionPending { turn, state, at } => p == Option::Some(at),
                _ => p is None,
            },
    {
        match self {
            GameState::PromotionPending { turn: _, state: _, at } => Some(at),
            _ => None,
        }
    }

    /// Plays one move against the machine: the terminal phases accept
    /// nothing, the turn order is enforced, a pending promotion accepts
    /// only its own resolution, and everything else is delegated to the
    /// move's own validation. On error the state stands exactly as it
    /// was; on success the returned state again satisfies the machine
    /// invariant.
    pub fn chess_move(self, mv: ChessMove) -> (res: Result<GameState, GameStateError>)
        requires
            game_inv(self),
            move_in_bounds(mv),
        ensures
            step_ok(self, mv, res),
            res matches Result::Ok(g2) ==> game_inv(g2),
    {
        match self {
            GameState::OnGoing { turn, state } => {
                if mv.player != turn {
                    return Err(GameStateError::WrongTurn(turn));
                }
                match mv.is_valid(state) {
                    Ok(g) => Ok(g),
                    Err(e) => Err(GameStateError::InvalidMove(e)),
                }
            },
            GameState::Check { turn, state } => {
                if mv.player != turn {
                    return Err(GameStateError::WrongTurn(turn));
                }
                match mv.is_valid(state) {
                    Ok(g) => Ok(g),
                    Err(e) => Err(GameStateError::InvalidMove(e)),
                }
            },
            GameState::PromotionPending { turn, state, at } => {
                if mv.player != turn {
                    return Err(GameStateError::WrongTurn(turn));
                }
                let kind_ok = match mv.kind {
                    ChessMoveKind::Promote { at: a } => a.0 == at.0 && a.1 == at.1,
                    _ => false,
                };
                if !kind_ok {
                    return Err(GameStateError::WrongState);
                }
                match mv.is_valid(state) {
                    Ok(g) => Ok(g),
                    Err(e) => Err(GameStateError::InvalidMove(e)),
                }
            },
            GameState::CheckMate { .. } => Err(GameStateError::WrongState),
            GameState::StaleMate { .. } => Err(GameStateError::WrongState),
        }
    }
}

} // verus!
