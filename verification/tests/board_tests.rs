use chess_engine::board::{Board, Square};
use chess_engine::piece::{Piece, PieceColor, PieceKind};

fn piece(color: PieceColor, kind: PieceKind) -> Piece {
    Piece { color, kind }
}

#[test]
fn replace_then_square_round_trip() {
    let b = Board::default();
    for r in 0..8u8 {
        for c in 0..8u8 {
            let p = piece(PieceColor::White, PieceKind::Knight);
            let b2 = b.replace(p, r, c);
            assert_eq!(b2.square(r, c), Square::Full(p));
        }
    }
}

#[test]
fn remove_then_square_round_trip() {
    let b = Board::default();
    for r in 0..8u8 {
        for c in 0..8u8 {
            let b2 = b.remove(r, c);
            assert_eq!(b2.square(r, c), Square::Empty);
        }
    }
}

#[test]
fn replace_leaves_other_squares_alone() {
    let b = Board::default();
    let b2 = b.replace(piece(PieceColor::Black, PieceKind::Queen), 4, 4);
    for r in 0..8u8 {
        for c in 0..8u8 {
            if (r, c) != (4, 4) {
                assert_eq!(b2.square(r, c), b.square(r, c));
            }
        }
    }
}

#[test]
fn default_board_standard_layout() {
    let b = Board::default();
    let back = [
        PieceKind::Rook,
        PieceKind::Knight,
        PieceKind::Bishop,
        PieceKind::Queen,
        PieceKind::King,
        PieceKind::Bishop,
        PieceKind::Knight,
        PieceKind::Rook,
    ];
    for c in 0..8u8 {
        assert_eq!(b.square(0, c), Square::Full(piece(PieceColor::Black, back[c as usize])));
        assert_eq!(b.square(1, c), Square::Full(piece(PieceColor::Black, PieceKind::Pawn)));
        assert_eq!(b.square(6, c), Square::Full(piece(PieceColor::White, PieceKind::Pawn)));
        assert_eq!(b.square(7, c), Square::Full(piece(PieceColor::White, back[c as usize])));
        for r in 2..6u8 {
            assert_eq!(b.square(r, c), Square::Empty);
        }
    }
}

#[test]
fn switch_swaps_two_squares() {
    let b = Board::default();
    let b2 = b.switch((0, 0), (6, 3));
    assert_eq!(b2.square(0, 0), Square::Full(piece(PieceColor::White, PieceKind::Pawn)));
    assert_eq!(b2.square(6, 3), Square::Full(piece(PieceColor::Black, PieceKind::Rook)));
    assert_eq!(b2.square(7, 7), b.square(7, 7));
    assert_eq!(b2.square(3, 3), Square::Empty);
}
