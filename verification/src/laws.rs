//! General laws of the engine, each proved once and for all inputs.

use crate::board::{starting_grid, Board, Square};
use crate::engine::{
    game_inv, lemma_starting_no_check, step_ok, turn_of, BoardState, ChessMove, GameState,
    GameStateError,
};
use crate::piece::{opponent_of, Piece, PieceColor};
use vstd::prelude::*;

verus! {

/// Write/read round trip: placing a piece on a square and reading that
/// square back gives exactly that piece, on every board and square.
pub proof fn lemma_replace_round_trip(b1: Board, b2: Board, p: Piece, row: u8, col: u8)
    requires
        row < 8,
        col < 8,
        b2@ == b1@.insert((row as int, col as int), Square::Full(p)),
    ensures
        b2@[(row as int, col as int)] == Square::Full(p),
{
}

/// Write/read round trip for clearing: emptying a square and reading it
/// back gives `Empty`, on every board and square.
pub proof fn lemma_remove_round_trip(b1: Board, b2: Board, row: u8, col: u8)
    requires
        row < 8,
        col < 8,
        b2@ == b1@.insert((row as int, col as int), Square::Empty),
    ensures
        b2@[(row as int, col as int)] is Empty,
{
}

/// Check detection is a pure function of the state: evaluating it twice
/// on equal states gives equal answers, with no hidden state anywhere.
pub proof fn lemma_is_check_deterministic(
    s1: BoardState,
    s2: BoardState,
    color: PieceColor,
    r1: bool,
    r2: bool,
)
    requires
        s1 == s2,
        r1 == s1.in_check(color),
        r2 == s2.in_check(color),
    ensures
        r1 == r2,
{
}

/// In the standard starting position neither side is in check.
pub proof fn lemma_starting_position_no_check(s: BoardState)
    requires
        s.grid() == starting_grid(),
        s.king_at(PieceColor::White) == (7int, 4int),
        s.king_at(PieceColor::Black) == (0int, 4int),
    ensures
        !s.in_check(PieceColor::White),
        !s.in_check(PieceColor::Black),
{
    lemma_starting_no_check();
}

/// Turn alternation: an accepted move always belongs to the player the
/// phase was waiting on; it hands the turn to the opponent, except that
/// a move suspended for promotion keeps the turn with the mover, so
/// resolving the promotion does not consume an extra turn.
pub proof fn lemma_turn_alternation(g: GameState, mv: ChessMove, g2: GameState)
    requires
        game_inv(g),
        step_ok(g, mv, Result::<GameState, GameStateError>::Ok(g2)),
    ensures
        turn_of(g) == Option::Some(mv.player),
        g2 matches GameState::PromotionPending { turn, state, at } ==> turn == mv.player,
        g2 matches GameState::OnGoing { turn, state } ==> turn == opponent_of(mv.player),
        g2 matches GameState::Check { turn, state } ==> turn == opponent_of(mv.player),
{
}


/// Castling rights are monotone: an accepted move never restores a
/// right already cleared, for either color.
pub proof fn lemma_castle_rights_monotone(
    s: BoardState,
    mv: ChessMove,
    s2: BoardState,
    color: PieceColor,
)
    requires
        crate::engine::next_board_state_ok(s, mv, s2),
        !s.castle_ok(color),
    ensures
        !s2.castle_ok(color),
{
}

} // verus!
