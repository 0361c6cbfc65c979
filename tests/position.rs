use chessticot::{ChessMove, Coords, Move, Piece, PieceColor, PieceKind, Position};

#[test]
fn position_execute_move_into_check() {
    let mut position = Position::empty_board();

    position.board[0][0] = Some(Piece {
        kind: PieceKind::King,
        color: PieceColor::White,
    });
    position.board[2][2] = Some(Piece {
        kind: PieceKind::Knight,
        color: PieceColor::Black,
    });
    let king_location = Coords { y: 0, x: 0 };
    let king_destination = Coords { y: 0, x: 1 };

    let new_position = position.after_move(&ChessMove::RegularMove(Move {
        origin: king_location,
        destination: king_destination,
    }));
    assert!(new_position.king_location(&PieceColor::White) == Some(king_destination.clone()));
    assert!(new_position.is_attacked_by(&PieceColor::Black, &king_destination,));
    assert!(new_position.is_in_check(&PieceColor::White));
}

#[test]
fn position_detects_check() {
    let mut position = Position::empty_board();

    position.board[0][1] = Some(Piece {
        kind: PieceKind::King,
        color: PieceColor::White,
    });
    position.board[2][2] = Some(Piece {
        kind: PieceKind::Knight,
        color: PieceColor::Black,
    });
    assert!(position.is_in_check(&PieceColor::White));
}

#[test]
fn position_detects_move_into_check() {
    let mut position = Position::empty_board();

    position.board[0][0] = Some(Piece {
        kind: PieceKind::King,
        color: PieceColor::White,
    });
    position.board[2][2] = Some(Piece {
        kind: PieceKind::Knight,
        color: PieceColor::Black,
    });
    let king_location = Coords { y: 0, x: 0 };
    assert!(position.opens_own_king(&ChessMove::RegularMove(Move {
        origin: king_location,
        destination: Coords { y: 0, x: 1 },
    }),));
}

#[test]
fn position_detects_attacked() {
    let mut position = Position::empty_board();

    position.board[0][1] = Some(Piece {
        kind: PieceKind::King,
        color: PieceColor::White,
    });
    position.board[2][2] = Some(Piece {
        kind: PieceKind::Knight,
        color: PieceColor::Black,
    });
    let king_location = Coords { y: 0, x: 1 };
    assert!(position.is_attacked_by(&PieceColor::Black, &king_location,));
}
#[test]
fn position_promotion_is_an_attack() {
    let mut position = Position::empty_board();
    position.board[0][0] = Some(Piece {
        kind: PieceKind::King,
        color: PieceColor::White,
    });
    position.board[1][1] = Some(Piece {
        kind: PieceKind::Pawn,
        color: PieceColor::Black,
    });
    let king_location = Coords { y: 0, x: 0 };
    position
        .color_to_move(PieceColor::Black)
        .all_possible_moves()
        .iter()
        .for_each(|chess_move| match chess_move {
            ChessMove::Promotion(_, _) => (),
            _ => panic!("only promotions in this position, found {:?}", chess_move),
        });
    assert!(position.is_attacked_by(&PieceColor::Black, &king_location,));
}

#[test]
fn position_no_en_passant_from_accross_the_board() {
    let mut position = Position::empty_board();
    position.board[1][4] = Some(Piece {
        kind: PieceKind::Pawn,
        color: PieceColor::White,
    });
    position.board[7][2] = Some(Piece {
        kind: PieceKind::Pawn,
        color: PieceColor::Black,
    });
    let after_skip = position.after_move(&ChessMove::PawnSkip(Move {
        origin: Coords { y: 1, x: 4 },
        destination: Coords { y: 3, x: 4 },
    }));

    assert!(after_skip.en_passant_on == Some(Coords { y: 2, x: 4 }));
    assert!(!after_skip.is_move_legal(&ChessMove::EnPassant(
        Move {
            origin: Coords { y: 7, x: 2 },
            destination: Coords { y: 2, x: 4 }
        },
        Coords { y: 3, x: 4 }
    ),))
}

#[test]
fn position_en_passant_left() {
    let mut position = Position::empty_board();
    position.board[1][1] = Some(Piece {
        kind: PieceKind::Pawn,
        color: PieceColor::White,
    });
    position.board[3][2] = Some(Piece {
        kind: PieceKind::Pawn,
        color: PieceColor::Black,
    });
    let after_skip = position.after_move(&ChessMove::PawnSkip(Move {
        origin: Coords { y: 1, x: 1 },
        destination: Coords { y: 3, x: 1 },
    }));
    let black_pawn_location = Coords { y: 3, x: 2 };
    let ep = ChessMove::EnPassant(
        Move {
            origin: black_pawn_location,
            destination: Coords { y: 2, x: 1 },
        },
        Coords { y: 3, x: 1 },
    );
    assert!(after_skip.en_passant_on == Some(Coords { y: 2, x: 1 }));
    assert!(after_skip
        .legal_moves_from_origin(&black_pawn_location)
        .contains(&ep));
    assert!(after_skip.is_move_legal(&ep))
}

#[test]
fn position_en_passant_right() {
    let mut position = Position::empty_board();
    position.board[1][1] = Some(Piece {
        kind: PieceKind::Pawn,
        color: PieceColor::White,
    });
    position.board[3][0] = Some(Piece {
        kind: PieceKind::Pawn,
        color: PieceColor::Black,
    });
    let after_skip = position.after_move(&ChessMove::PawnSkip(Move {
        origin: Coords { y: 1, x: 1 },
        destination: Coords { y: 3, x: 1 },
    }));
    let black_pawn_location = Coords { y: 3, x: 0 };
    let ep = ChessMove::EnPassant(
        Move {
            origin: black_pawn_location,
            destination: Coords { y: 2, x: 1 },
        },
        Coords { y: 3, x: 1 },
    );
    assert!(after_skip.en_passant_on == Some(Coords { y: 2, x: 1 }));
    assert!(after_skip
        .legal_moves_from_origin(&black_pawn_location)
        .contains(&ep));
    assert!(after_skip.is_move_legal(&ep))
}

#[test]
fn position_finds_king() {
    let mut position = Position::empty_board();

    position.board[0][0] = Some(Piece {
        kind: PieceKind::King,
        color: PieceColor::White,
    });
    assert_eq!(
        position.king_location(&PieceColor::White).unwrap(),
        Coords { x: 0, y: 0 }
    )
}
