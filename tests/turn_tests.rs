use chess::board::Board;
use chess::errors::{ConversionError, Convertable, GameError, GameResult};
use chess::game::{chess_notation_to_array_notation, Game, TurnError, TurnReport};
use chess::piece::{build_piece, Coordinates, PawnData, PieceColor, PieceType};

fn empty_game() -> Game {
    Game { board: Board { board: [[None; 8]; 8] }, turn: PieceColor::White, move_num: 0, turn_num: 0 }
}

fn place(g: &mut Game, r: u8, f: u8, kind: PieceType, color: PieceColor) {
    g.board.board[r as usize][f as usize] = build_piece(kind, color, Coordinates(r, f));
}

fn rook_check_position() -> Game {
    let mut g = empty_game();
    place(&mut g, 7, 4, PieceType::King(true), PieceColor::White);
    place(&mut g, 0, 4, PieceType::Rook(true), PieceColor::Black);
    place(&mut g, 1, 7, PieceType::King(true), PieceColor::Black);
    place(&mut g, 5, 0, PieceType::Rook(true), PieceColor::White);
    place(&mut g, 3, 1, PieceType::Bishop, PieceColor::White);
    place(&mut g, 7, 0, PieceType::Knight, PieceColor::White);
    g
}

#[test]
fn check_must_be_escaped() {
    let mut g = rook_check_position();
    assert!(g.is_king_in_check(PieceColor::White));
    let before = g;
    // stepping along the file stays in check
    assert_eq!(g.play_turn(Coordinates(7, 4), Coordinates(6, 4)), Err(TurnError::MustEscapeCheck));
    // an unrelated move stays in check
    assert_eq!(g.play_turn(Coordinates(7, 0), Coordinates(5, 1)), Err(TurnError::MustEscapeCheck));
    assert_eq!(g.board.board, before.board.board);
    assert_eq!(g.move_num, 0);

    let mut block = rook_check_position();
    let r = block.play_turn(Coordinates(5, 0), Coordinates(5, 4));
    assert_eq!(r, Ok(TurnReport { result: GameResult::Normal, checkmate: false }));
    assert!(!block.is_king_in_check(PieceColor::White));
    assert_eq!(block.move_num, 1);
    assert_eq!(block.turn_num, 0);
    assert_eq!(block.turn, PieceColor::Black);

    let mut capture = rook_check_position();
    let r = capture.play_turn(Coordinates(3, 1), Coordinates(0, 4));
    assert_eq!(r, Ok(TurnReport { result: GameResult::Capture, checkmate: false }));

    let mut step = rook_check_position();
    let r = step.play_turn(Coordinates(7, 4), Coordinates(7, 3));
    assert_eq!(r, Ok(TurnReport { result: GameResult::Normal, checkmate: false }));
}

#[test]
fn turn_refusals() {
    let mut g = Game::default();
    assert_eq!(g.play_turn(Coordinates(4, 4), Coordinates(3, 4)), Err(TurnError::NoPiece));
    assert_eq!(g.play_turn(Coordinates(1, 4), Coordinates(2, 4)), Err(TurnError::NotYourPiece));
    assert_eq!(g.play_turn(Coordinates(6, 4), Coordinates(6, 5)), Err(TurnError::Move(GameError::SameColorCapture)));
    assert_eq!(g.play_turn(Coordinates(7, 1), Coordinates(7, 2)), Err(TurnError::Move(GameError::SameColorCapture)));
    assert_eq!(g.play_turn(Coordinates(7, 2), Coordinates(5, 4)), Err(TurnError::Move(GameError::InvalidMove)));
    assert_eq!(g.move_num, 0);

    let mut h = empty_game();
    place(&mut h, 4, 4, PieceType::Pawn(PawnData { has_moved: true, can_en_pessant: false }), PieceColor::White);
    assert_eq!(h.play_turn(Coordinates(4, 4), Coordinates(5, 4)), Err(TurnError::PawnBackward));
}

#[test]
fn turns_alternate() {
    let mut g = Game::default();
    let r = g.play_turn(Coordinates(6, 4), Coordinates(4, 4));
    assert_eq!(r, Ok(TurnReport { result: GameResult::DoublePawn, checkmate: false }));
    assert_eq!(g.move_num, 1);
    assert_eq!(g.play_turn(Coordinates(6, 3), Coordinates(4, 3)), Err(TurnError::NotYourPiece));
    let r = g.play_turn(Coordinates(1, 4), Coordinates(3, 4));
    assert_eq!(r, Ok(TurnReport { result: GameResult::DoublePawn, checkmate: false }));
    assert_eq!(g.move_num, 2);
    assert_eq!(g.turn_num, 1);
    assert_eq!(g.turn, PieceColor::White);
}

#[test]
fn back_rank_mate_is_found() {
    let mut g = empty_game();
    place(&mut g, 0, 7, PieceType::King(true), PieceColor::Black);
    place(&mut g, 1, 6, PieceType::Pawn(PawnData::default()), PieceColor::Black);
    place(&mut g, 1, 7, PieceType::Pawn(PawnData::default()), PieceColor::Black);
    place(&mut g, 7, 0, PieceType::Rook(true), PieceColor::White);
    place(&mut g, 7, 4, PieceType::King(true), PieceColor::White);
    let r = g.play_turn(Coordinates(7, 0), Coordinates(0, 0));
    assert_eq!(r, Ok(TurnReport { result: GameResult::Normal, checkmate: true }));
    assert!(g.is_king_in_check(PieceColor::Black));
    assert!(g.check_checkmate(PieceColor::White));
    assert_eq!(g.move_num, 0);
}

#[test]
fn king_with_a_free_square_is_not_mated() {
    let mut g = empty_game();
    place(&mut g, 0, 7, PieceType::King(true), PieceColor::Black);
    place(&mut g, 1, 7, PieceType::Pawn(PawnData::default()), PieceColor::Black);
    place(&mut g, 0, 0, PieceType::Rook(true), PieceColor::White);
    place(&mut g, 7, 4, PieceType::King(true), PieceColor::White);
    assert!(g.is_king_in_check(PieceColor::Black));
    assert!(!g.check_checkmate(PieceColor::White));
}

#[test]
fn notation_is_read() {
    assert_eq!(chess_notation_to_array_notation("E2"), Ok(Coordinates(6, 4)));
    assert_eq!(chess_notation_to_array_notation("a8"), Ok(Coordinates(0, 0)));
    assert_eq!(chess_notation_to_array_notation("h1\n"), Ok(Coordinates(7, 7)));
    assert_eq!(chess_notation_to_array_notation("I1"), Err(ConversionError));
    assert_eq!(chess_notation_to_array_notation("A9"), Err(ConversionError));
    assert_eq!(chess_notation_to_array_notation("A0"), Err(ConversionError));
    assert_eq!(chess_notation_to_array_notation("E"), Err(ConversionError));
    assert_eq!(chess_notation_to_array_notation(""), Err(ConversionError));
}

#[test]
fn signed_to_byte() {
    assert_eq!(5i8.convert_to_u8(), Ok(5));
    assert_eq!(0i8.convert_to_u8(), Ok(0));
    assert_eq!((-1i8).convert_to_u8(), Err(ConversionError));
}

#[test]
fn error_messages() {
    assert_eq!(GameError::SameColorCapture.message(), "Cannot capture same color");
    assert_eq!(GameError::GenericError.message(), "Generic Placeholder Error");
    assert_eq!(ConversionError.message(), "Conversion Error");
}
