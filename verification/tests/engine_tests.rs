use chess_engine::board::{Board, Square};
use chess_engine::engine::{
    BoardState, CastleSide, ChessMove, ChessMoveError, ChessMoveKind, GameState, GameStateError,
};
use chess_engine::piece::{Piece, PieceColor, PieceKind};

fn piece(color: PieceColor, kind: PieceKind) -> Piece {
    Piece { color, kind }
}

fn empty_board() -> Board {
    let mut b = Board::default();
    for r in 0..8u8 {
        for c in 0..8u8 {
            b = b.remove(r, c);
        }
    }
    b
}

fn standard(player: PieceColor, from: (u8, u8), to: (u8, u8)) -> ChessMove {
    ChessMove { player, kind: ChessMoveKind::Standard { from, to } }
}

#[test]
fn new_game_is_ongoing_white() {
    let g = GameState::new();
    match g {
        GameState::OnGoing { turn, state } => {
            assert_eq!(turn, PieceColor::White);
            assert!(!state.is_check(PieceColor::White));
            assert!(!state.is_check(PieceColor::Black));
            assert!(state.can_castle(PieceColor::White));
            assert!(state.can_castle(PieceColor::Black));
            assert_eq!(state.king_position(PieceColor::White), (7, 4));
            assert_eq!(state.king_position(PieceColor::Black), (0, 4));
        },
        _ => panic!("a new game must be ongoing"),
    }
}

#[test]
fn is_check_is_idempotent() {
    let s = BoardState::new();
    let first = s.is_check(PieceColor::White);
    let second = s.is_check(PieceColor::White);
    assert_eq!(first, second);
    let first_b = s.is_check(PieceColor::Black);
    let second_b = s.is_check(PieceColor::Black);
    assert_eq!(first_b, second_b);
}

#[test]
fn blocked_rook_from_start() {
    let g = GameState::new();
    let mv = standard(PieceColor::White, (7, 0), (7, 4));
    assert_eq!(
        g.chess_move(mv),
        Err(GameStateError::InvalidMove(ChessMoveError::BlockedPath(mv)))
    );
}

#[test]
fn empty_square_is_rejected() {
    let g = GameState::new();
    let mv = standard(PieceColor::White, (4, 4), (3, 4));
    assert_eq!(
        g.chess_move(mv),
        Err(GameStateError::InvalidMove(ChessMoveError::EmptySquare(mv)))
    );
}

#[test]
fn moving_the_opponents_piece_is_rejected() {
    let g = GameState::new();
    let mv = standard(PieceColor::White, (1, 0), (2, 0));
    assert_eq!(
        g.chess_move(mv),
        Err(GameStateError::InvalidMove(ChessMoveError::InvalidPiece(mv)))
    );
}

#[test]
fn black_cannot_move_first() {
    let g = GameState::new();
    let mv = standard(PieceColor::Black, (1, 0), (2, 0));
    assert_eq!(g.chess_move(mv), Err(GameStateError::WrongTurn(PieceColor::White)));
}

#[test]
fn turns_alternate_over_legal_moves() {
    let g = GameState::new();
    let g = g.chess_move(standard(PieceColor::White, (6, 4), (5, 4))).unwrap();
    match g {
        GameState::OnGoing { turn, ref state } => {
            assert_eq!(turn, PieceColor::Black);
            assert_eq!(
                state.board().square(5, 4),
                Square::Full(piece(PieceColor::White, PieceKind::Pawn))
            );
            assert_eq!(state.board().square(6, 4), Square::Empty);
        },
        _ => panic!("game should go on"),
    }
    let g = g.chess_move(standard(PieceColor::Black, (1, 4), (3, 4))).unwrap();
    match g {
        GameState::OnGoing { turn, ref state } => {
            assert_eq!(turn, PieceColor::White);
            assert_eq!(
                state.board().square(3, 4),
                Square::Full(piece(PieceColor::Black, PieceKind::Pawn))
            );
        },
        _ => panic!("game should go on"),
    }
    let g = g.chess_move(standard(PieceColor::White, (7, 6), (5, 5))).unwrap();
    match g {
        GameState::OnGoing { turn, ref state } => {
            assert_eq!(turn, PieceColor::Black);
            assert_eq!(
                state.board().square(5, 5),
                Square::Full(piece(PieceColor::White, PieceKind::Knight))
            );
        },
        _ => panic!("game should go on"),
    }
}

#[test]
fn pawn_cannot_capture_forward() {
    // face the two center pawns off against each other
    let g = GameState::new();
    let g = g.chess_move(standard(PieceColor::White, (6, 4), (4, 4))).unwrap();
    let g = g.chess_move(standard(PieceColor::Black, (1, 4), (3, 4))).unwrap();
    let mv = standard(PieceColor::White, (4, 4), (3, 4));
    assert_eq!(
        g.chess_move(mv),
        Err(GameStateError::InvalidMove(ChessMoveError::BlockedPath(mv)))
    );
}

#[test]
fn pawn_captures_diagonally() {
    let g = GameState::new();
    let g = g.chess_move(standard(PieceColor::White, (6, 4), (4, 4))).unwrap();
    let g = g.chess_move(standard(PieceColor::Black, (1, 3), (3, 3))).unwrap();
    let g = g.chess_move(standard(PieceColor::White, (4, 4), (3, 3))).unwrap();
    match g {
        GameState::OnGoing { turn, ref state } => {
            assert_eq!(turn, PieceColor::Black);
            assert_eq!(
                state.board().square(3, 3),
                Square::Full(piece(PieceColor::White, PieceKind::Pawn))
            );
        },
        _ => panic!("game should go on"),
    }
}

#[test]
fn castle_kingside_swaps_king_and_rook() {
    let b = Board::default().remove(7, 5).remove(7, 6);
    let s = BoardState::with_board(b, true, true).unwrap();
    let mv = ChessMove { player: PieceColor::White, kind: ChessMoveKind::Castle(CastleSide::Kingside) };
    let g = mv.is_valid(s).unwrap();
    match g {
        GameState::OnGoing { turn, state } => {
            assert_eq!(turn, PieceColor::Black);
            assert_eq!(
                state.board().square(7, 7),
                Square::Full(piece(PieceColor::White, PieceKind::King))
            );
            assert_eq!(
                state.board().square(7, 4),
                Square::Full(piece(PieceColor::White, PieceKind::Rook))
            );
            assert_eq!(state.king_position(PieceColor::White), (7, 7));
            assert!(!state.can_castle(PieceColor::White));
            assert!(state.can_castle(PieceColor::Black));
            // once castled, the same move is refused for good
            assert_eq!(mv.is_valid(state), Err(ChessMoveError::CastleRestricted(mv)));
        },
        _ => panic!("castling should leave the game ongoing"),
    }
}

#[test]
fn castle_queenside_needs_clear_path() {
    let b = Board::default().remove(7, 1).remove(7, 2);
    let s = BoardState::with_board(b, true, true).unwrap();
    let mv = ChessMove { player: PieceColor::White, kind: ChessMoveKind::Castle(CastleSide::Queenside) };
    // the queen still stands on (7, 3), between King and Rook
    assert_eq!(mv.is_valid(s), Err(ChessMoveError::BlockedPath(mv)));
    let b2 = b.remove(7, 3);
    let s2 = BoardState::with_board(b2, true, true).unwrap();
    let g = mv.is_valid(s2).unwrap();
    match g {
        GameState::OnGoing { turn, state } => {
            assert_eq!(turn, PieceColor::Black);
            assert_eq!(
                state.board().square(7, 0),
                Square::Full(piece(PieceColor::White, PieceKind::King))
            );
            assert_eq!(
                state.board().square(7, 4),
                Square::Full(piece(PieceColor::White, PieceKind::Rook))
            );
        },
        _ => panic!("castling should leave the game ongoing"),
    }
}

#[test]
fn castle_through_attacked_square_is_rejected() {
    // a Black rook eyes (7, 5), which the White king must cross
    let mut b = Board::default().remove(7, 5).remove(7, 6);
    b = b.remove(1, 5).remove(0, 5).remove(6, 5);
    b = b.replace(piece(PieceColor::Black, PieceKind::Rook), 2, 5);
    let s = BoardState::with_board(b, true, true).unwrap();
    let mv = ChessMove { player: PieceColor::White, kind: ChessMoveKind::Castle(CastleSide::Kingside) };
    assert_eq!(mv.is_valid(s), Err(ChessMoveError::ExposedKing(mv)));
}

#[test]
fn self_check_is_rejected() {
    // moving the shielding rook aside would expose the White king to
    // the Black rook on the same file
    let mut b = empty_board();
    b = b.replace(piece(PieceColor::White, PieceKind::King), 7, 4);
    b = b.replace(piece(PieceColor::White, PieceKind::Rook), 5, 4);
    b = b.replace(piece(PieceColor::Black, PieceKind::Rook), 0, 4);
    b = b.replace(piece(PieceColor::Black, PieceKind::King), 0, 7);
    let s = BoardState::with_board(b, false, false).unwrap();
    let mv = standard(PieceColor::White, (5, 4), (5, 6));
    assert_eq!(mv.is_valid(s), Err(ChessMoveError::ExposedKing(mv)));
    // the same rook may still slide along the shared file
    let along = standard(PieceColor::White, (5, 4), (3, 4));
    assert!(along.is_valid(s).is_ok());
}

#[test]
fn back_rank_mate_is_checkmate() {
    let mut b = empty_board();
    b = b.replace(piece(PieceColor::Black, PieceKind::King), 0, 4);
    b = b.replace(piece(PieceColor::Black, PieceKind::Pawn), 1, 3);
    b = b.replace(piece(PieceColor::Black, PieceKind::Pawn), 1, 4);
    b = b.replace(piece(PieceColor::Black, PieceKind::Pawn), 1, 5);
    b = b.replace(piece(PieceColor::White, PieceKind::Rook), 5, 0);
    b = b.replace(piece(PieceColor::White, PieceKind::King), 7, 4);
    let s = BoardState::with_board(b, false, false).unwrap();
    let mv = standard(PieceColor::White, (5, 0), (0, 0));
    match mv.is_valid(s).unwrap() {
        GameState::CheckMate { state, loser } => {
            assert_eq!(loser, PieceColor::Black);
            assert!(state.is_check(PieceColor::Black));
        },
        other => panic!("expected checkmate, got {:?}", other),
    }
}

#[test]
fn rook_check_with_escape_is_only_check() {
    // as in the mate, but without the boxing pawns the king can step out
    let mut b = empty_board();
    b = b.replace(piece(PieceColor::Black, PieceKind::King), 0, 4);
    b = b.replace(piece(PieceColor::White, PieceKind::Rook), 5, 0);
    b = b.replace(piece(PieceColor::White, PieceKind::King), 7, 4);
    let s = BoardState::with_board(b, false, false).unwrap();
    let mv = standard(PieceColor::White, (5, 0), (0, 0));
    match mv.is_valid(s).unwrap() {
        GameState::Check { turn, state } => {
            assert_eq!(turn, PieceColor::Black);
            assert!(state.is_check(PieceColor::Black));
        },
        other => panic!("expected check, got {:?}", other),
    }
}

#[test]
fn cornered_king_is_stalemate() {
    let mut b = empty_board();
    b = b.replace(piece(PieceColor::Black, PieceKind::King), 0, 0);
    b = b.replace(piece(PieceColor::White, PieceKind::Queen), 3, 2);
    b = b.replace(piece(PieceColor::White, PieceKind::King), 7, 7);
    let s = BoardState::with_board(b, false, false).unwrap();
    let mv = standard(PieceColor::White, (3, 2), (1, 2));
    match mv.is_valid(s).unwrap() {
        GameState::StaleMate { state } => {
            assert!(!state.is_check(PieceColor::Black));
        },
        other => panic!("expected stalemate, got {:?}", other),
    }
}

#[test]
fn promotion_suspends_then_resolves_without_extra_turn() {
    let mut b = empty_board();
    b = b.replace(piece(PieceColor::White, PieceKind::Pawn), 1, 0);
    b = b.replace(piece(PieceColor::White, PieceKind::King), 7, 4);
    b = b.replace(piece(PieceColor::Black, PieceKind::King), 0, 7);
    let s = BoardState::with_board(b, false, false).unwrap();
    let g = GameState::OnGoing { turn: PieceColor::White, state: s };
    let g = g.chess_move(standard(PieceColor::White, (1, 0), (0, 0))).unwrap();
    let at = match g {
        GameState::PromotionPending { turn, state, at } => {
            assert_eq!(turn, PieceColor::White);
            assert_eq!(at, (0, 0));
            assert_eq!(
                state.board().square(0, 0),
                Square::Full(piece(PieceColor::White, PieceKind::Pawn))
            );
            at
        },
        other => panic!("expected a pending promotion, got {:?}", other),
    };
    // an ordinary move is refused until the promotion resolves
    let stray = standard(PieceColor::White, (7, 4), (7, 5));
    assert_eq!(g.chess_move(stray), Err(GameStateError::WrongState));
    // and the opponent may not jump in
    let black_try = ChessMove { player: PieceColor::Black, kind: ChessMoveKind::Promote { at } };
    assert_eq!(g.chess_move(black_try), Err(GameStateError::WrongTurn(PieceColor::White)));
    // the resolution promotes to a Queen, whose new line gives check
    let promote = ChessMove { player: PieceColor::White, kind: ChessMoveKind::Promote { at } };
    match g.chess_move(promote).unwrap() {
        GameState::Check { turn, state } => {
            assert_eq!(turn, PieceColor::Black);
            assert_eq!(
                state.board().square(0, 0),
                Square::Full(piece(PieceColor::White, PieceKind::Queen))
            );
        },
        other => panic!("expected check after promotion, got {:?}", other),
    }
}

#[test]
fn promote_on_wrong_square_is_rejected() {
    let g = GameState::new();
    // a knight is no pawn
    let mv = ChessMove { player: PieceColor::White, kind: ChessMoveKind::Promote { at: (7, 1) } };
    match g {
        GameState::OnGoing { turn: _, state } => {
            assert_eq!(mv.is_valid(state), Err(ChessMoveError::InvalidPiece(mv)));
            // a pawn far from the last rank may not promote either
            let mv2 = ChessMove {
                player: PieceColor::White,
                kind: ChessMoveKind::Promote { at: (6, 1) },
            };
            assert_eq!(mv2.is_valid(state), Err(ChessMoveError::InvalidPiece(mv2)));
            // an empty square has nothing to promote
            let mv3 = ChessMove {
                player: PieceColor::White,
                kind: ChessMoveKind::Promote { at: (4, 4) },
            };
            assert_eq!(mv3.is_valid(state), Err(ChessMoveError::EmptySquare(mv3)));
        },
        _ => panic!("a new game must be ongoing"),
    }
}

#[test]
fn finished_game_accepts_nothing() {
    let s = BoardState::new();
    let g = GameState::CheckMate { state: s, loser: PieceColor::Black };
    let mv = standard(PieceColor::White, (6, 4), (5, 4));
    assert_eq!(g.chess_move(mv), Err(GameStateError::WrongState));
    let g2 = GameState::StaleMate { state: s };
    assert_eq!(g2.chess_move(mv), Err(GameStateError::WrongState));
}

#[test]
fn with_board_demands_exactly_one_king_each() {
    let b = empty_board();
    assert!(BoardState::with_board(b, true, true).is_none());
    let one = b.replace(piece(PieceColor::White, PieceKind::King), 7, 4);
    assert!(BoardState::with_board(one, true, true).is_none());
    let two = one.replace(piece(PieceColor::Black, PieceKind::King), 0, 4);
    assert!(BoardState::with_board(two, true, true).is_some());
    let three = two.replace(piece(PieceColor::White, PieceKind::King), 4, 4);
    assert!(BoardState::with_board(three, true, true).is_none());
}

#[test]
fn moving_king_or_rook_clears_castling_rights() {
    let b = Board::default().remove(7, 5).remove(7, 6);
    let s = BoardState::with_board(b, true, true).unwrap();
    // the king steps aside and back rights are gone for White
    let mv = standard(PieceColor::White, (7, 4), (7, 5));
    match mv.is_valid(s).unwrap() {
        GameState::OnGoing { turn: _, state } => {
            assert!(!state.can_castle(PieceColor::White));
            assert!(state.can_castle(PieceColor::Black));
        },
        other => panic!("expected the game to go on, got {:?}", other),
    }
    // a rook leaving its home square also forfeits the right
    let mv2 = standard(PieceColor::White, (7, 7), (7, 6));
    match mv2.is_valid(s).unwrap() {
        GameState::OnGoing { turn: _, state } => {
            assert!(!state.can_castle(PieceColor::White));
        },
        other => panic!("expected the game to go on, got {:?}", other),
    }
    // a pawn move leaves the rights alone
    let mv3 = standard(PieceColor::White, (6, 0), (5, 0));
    match mv3.is_valid(s).unwrap() {
        GameState::OnGoing { turn: _, state } => {
            assert!(state.can_castle(PieceColor::White));
        },
        other => panic!("expected the game to go on, got {:?}", other),
    }
}

#[test]
fn knight_jumps_over_pieces() {
    let g = GameState::new();
    let g = g.chess_move(standard(PieceColor::White, (7, 1), (5, 2))).unwrap();
    match g {
        GameState::OnGoing { turn, ref state } => {
            assert_eq!(turn, PieceColor::Black);
            assert_eq!(
                state.board().square(5, 2),
                Square::Full(piece(PieceColor::White, PieceKind::Knight))
            );
        },
        _ => panic!("game should go on"),
    }
    // but an illegal knight hop is refused
    let bad = standard(PieceColor::Black, (0, 1), (3, 1));
    match g.chess_move(bad) {
        Err(GameStateError::InvalidMove(ChessMoveError::BlockedPath(m))) => assert_eq!(m, bad),
        other => panic!("expected a blocked path, got {:?}", other),
    }
}

#[test]
fn black_castles_queenside() {
    let b = Board::default().remove(0, 1).remove(0, 2).remove(0, 3);
    let s = BoardState::with_board(b, true, true).unwrap();
    let mv = ChessMove { player: PieceColor::Black, kind: ChessMoveKind::Castle(CastleSide::Queenside) };
    match mv.is_valid(s).unwrap() {
        GameState::OnGoing { turn, state } => {
            assert_eq!(turn, PieceColor::White);
            assert_eq!(
                state.board().square(0, 0),
                Square::Full(piece(PieceColor::Black, PieceKind::King))
            );
            assert_eq!(
                state.board().square(0, 4),
                Square::Full(piece(PieceColor::Black, PieceKind::Rook))
            );
            assert_eq!(state.king_position(PieceColor::Black), (0, 0));
            assert!(!state.can_castle(PieceColor::Black));
            assert!(state.can_castle(PieceColor::White));
        },
        other => panic!("expected the game to go on, got {:?}", other),
    }
}

#[test]
fn pending_promotion_accepts_only_its_own_square() {
    let mut b = empty_board();
    b = b.replace(piece(PieceColor::White, PieceKind::Pawn), 1, 0);
    b = b.replace(piece(PieceColor::White, PieceKind::King), 7, 4);
    b = b.replace(piece(PieceColor::Black, PieceKind::King), 0, 7);
    let s = BoardState::with_board(b, false, false).unwrap();
    let g = GameState::OnGoing { turn: PieceColor::White, state: s };
    let g = g.chess_move(standard(PieceColor::White, (1, 0), (0, 0))).unwrap();
    assert!(matches!(g, GameState::PromotionPending { .. }));
    let elsewhere = ChessMove { player: PieceColor::White, kind: ChessMoveKind::Promote { at: (0, 1) } };
    assert_eq!(g.chess_move(elsewhere), Err(GameStateError::WrongState));
}

#[test]
fn game_state_projections() {
    let g = GameState::new();
    assert_eq!(g.turn(), Some(PieceColor::White));
    assert!(g.promotion_square().is_none());
    let s = g.board_state();
    assert!(!s.is_check(PieceColor::White));
    let done = GameState::StaleMate { state: s };
    assert_eq!(done.turn(), None);
}
