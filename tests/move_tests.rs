use chess::board::Board;
use chess::errors::{GameError, GameResult};
use chess::game::Game;
use chess::piece::{build_piece, Coordinates, PawnData, Piece, PieceColor, PieceType};

fn empty_game() -> Game {
    Game { board: Board { board: [[None; 8]; 8] }, turn: PieceColor::White, move_num: 0, turn_num: 0 }
}

fn place(g: &mut Game, r: u8, f: u8, kind: PieceType, color: PieceColor) {
    g.board.board[r as usize][f as usize] = build_piece(kind, color, Coordinates(r, f));
}

fn pawn() -> PieceType {
    PieceType::Pawn(PawnData::default())
}

#[test]
fn castle_swaps_king_and_rook() {
    let mut g = empty_game();
    place(&mut g, 7, 4, PieceType::King(false), PieceColor::White);
    place(&mut g, 7, 7, PieceType::Rook(false), PieceColor::White);
    place(&mut g, 0, 4, PieceType::King(false), PieceColor::Black);
    let before = g.board;
    assert_eq!(g.make_move(Coordinates(7, 4), Coordinates(7, 7)), Ok(GameResult::Castle));
    assert_eq!(
        g.board.board[7][7],
        Some(Piece { piece_type: PieceType::King(true), color: PieceColor::White, coordinates: Coordinates(7, 7) })
    );
    assert_eq!(
        g.board.board[7][4],
        Some(Piece { piece_type: PieceType::Rook(true), color: PieceColor::White, coordinates: Coordinates(7, 4) })
    );
    for r in 0..8 {
        for f in 0..8 {
            if r == 7 && (f == 4 || f == 7) {
                continue;
            }
            assert_eq!(g.board.board[r][f], before.board[r][f]);
        }
    }
}

#[test]
fn castle_blocked_and_attacked_is_refused() {
    let mut g = empty_game();
    place(&mut g, 7, 4, PieceType::King(false), PieceColor::White);
    place(&mut g, 7, 7, PieceType::Rook(false), PieceColor::White);
    place(&mut g, 7, 6, PieceType::Knight, PieceColor::White);
    place(&mut g, 0, 5, PieceType::Rook(false), PieceColor::Black);
    place(&mut g, 0, 6, PieceType::Rook(false), PieceColor::Black);
    // (7,6) is occupied, so the path is not clear, and both (7,5) and (7,6) are attacked
    let before = g.board;
    let r = g.make_move(Coordinates(7, 4), Coordinates(7, 7));
    assert_eq!(r, Err(GameError::InvalidMove));
    assert_eq!(g.board.board, before.board);
}

#[test]
fn castle_blocked_but_not_attacked_goes_ahead() {
    let mut g = empty_game();
    place(&mut g, 7, 4, PieceType::King(false), PieceColor::White);
    place(&mut g, 7, 7, PieceType::Rook(false), PieceColor::White);
    place(&mut g, 7, 6, PieceType::Knight, PieceColor::White);
    assert_eq!(g.make_move(Coordinates(7, 4), Coordinates(7, 7)), Ok(GameResult::Castle));
}

#[test]
fn double_advance_then_en_passant() {
    let mut g = empty_game();
    place(&mut g, 6, 4, pawn(), PieceColor::White);
    place(&mut g, 4, 3, PieceType::Pawn(PawnData { has_moved: true, can_en_pessant: false }), PieceColor::Black);
    assert_eq!(g.make_move(Coordinates(6, 4), Coordinates(4, 4)), Ok(GameResult::DoublePawn));
    assert_eq!(
        g.board.board[4][3].unwrap().piece_type,
        PieceType::Pawn(PawnData { has_moved: true, can_en_pessant: true })
    );
    assert_eq!(
        g.board.board[4][4].unwrap().piece_type,
        PieceType::Pawn(PawnData { has_moved: true, can_en_pessant: false })
    );
    assert!(g.board.board[6][4].is_none());
    assert_eq!(g.make_move(Coordinates(4, 3), Coordinates(5, 4)), Ok(GameResult::EnPessant));
    assert!(g.board.board[4][4].is_none());
    assert!(g.board.board[4][3].is_none());
    let p = g.board.board[5][4].unwrap();
    assert_eq!(p.color, PieceColor::Black);
    assert_eq!(p.coordinates, Coordinates(5, 4));
}

#[test]
fn double_advance_leaves_own_pawns_alone() {
    let mut g = empty_game();
    place(&mut g, 6, 0, pawn(), PieceColor::White);
    place(&mut g, 4, 1, pawn(), PieceColor::White);
    assert_eq!(g.make_move(Coordinates(6, 0), Coordinates(4, 0)), Ok(GameResult::DoublePawn));
    assert_eq!(g.board.board[4][1].unwrap().piece_type, pawn());
}

#[test]
fn double_advance_blocked_is_generic_error() {
    let mut g = empty_game();
    place(&mut g, 6, 2, pawn(), PieceColor::White);
    place(&mut g, 5, 2, PieceType::Knight, PieceColor::Black);
    assert_eq!(g.make_move(Coordinates(6, 2), Coordinates(4, 2)), Err(GameError::GenericError));
}

#[test]
fn pawn_promotes_on_capture_and_advance() {
    let mut g = empty_game();
    place(&mut g, 1, 1, pawn(), PieceColor::White);
    place(&mut g, 0, 0, PieceType::Rook(false), PieceColor::Black);
    assert_eq!(g.make_move(Coordinates(1, 1), Coordinates(0, 0)), Ok(GameResult::Promotion));
    assert_eq!(g.board.board[0][0].unwrap().color, PieceColor::White);

    let mut h = empty_game();
    place(&mut h, 1, 0, pawn(), PieceColor::White);
    assert_eq!(h.make_move(Coordinates(1, 0), Coordinates(0, 0)), Ok(GameResult::Promotion));

    let mut k = empty_game();
    place(&mut k, 6, 7, pawn(), PieceColor::Black);
    place(&mut k, 7, 6, PieceType::Knight, PieceColor::White);
    assert_eq!(k.make_move(Coordinates(6, 7), Coordinates(7, 6)), Ok(GameResult::Promotion));
    k.handle_promotion(Coordinates(7, 6));
    assert_eq!(
        k.board.board[7][6],
        Some(Piece { piece_type: PieceType::Queen, color: PieceColor::Black, coordinates: Coordinates(7, 6) })
    );
}

#[test]
fn pawn_cannot_capture_straight_ahead() {
    let mut g = empty_game();
    place(&mut g, 1, 0, pawn(), PieceColor::White);
    place(&mut g, 0, 0, PieceType::Knight, PieceColor::Black);
    assert_eq!(g.make_move(Coordinates(1, 0), Coordinates(0, 0)), Err(GameError::GenericError));
}

#[test]
fn pawn_capture_and_forward_results() {
    let mut g = empty_game();
    place(&mut g, 5, 3, pawn(), PieceColor::White);
    place(&mut g, 4, 4, PieceType::Bishop, PieceColor::Black);
    assert_eq!(g.make_move(Coordinates(5, 3), Coordinates(4, 4)), Ok(GameResult::Capture));
    assert_eq!(g.board.board[4][4].unwrap().color, PieceColor::White);
    assert_eq!(g.make_move(Coordinates(4, 4), Coordinates(3, 4)), Ok(GameResult::Normal));
    assert_eq!(g.make_move(Coordinates(3, 4), Coordinates(2, 5)), Err(GameError::GenericError));
}

#[test]
fn same_color_capture_is_refused() {
    let mut g = empty_game();
    place(&mut g, 7, 0, PieceType::Rook(false), PieceColor::White);
    place(&mut g, 7, 1, PieceType::Knight, PieceColor::White);
    let before = g.board;
    assert_eq!(g.make_move(Coordinates(7, 0), Coordinates(7, 1)), Err(GameError::SameColorCapture));
    assert_eq!(g.board.board, before.board);
}

#[test]
fn empty_start_is_refused() {
    let mut g = empty_game();
    assert_eq!(g.make_move(Coordinates(3, 3), Coordinates(4, 4)), Err(GameError::NoPieceOnStartSquare));
}

#[test]
fn pieces_move_by_their_geometry() {
    let mut g = empty_game();
    place(&mut g, 7, 1, PieceType::Knight, PieceColor::White);
    assert_eq!(g.make_move(Coordinates(7, 1), Coordinates(5, 2)), Ok(GameResult::Normal));
    assert_eq!(g.make_move(Coordinates(5, 2), Coordinates(5, 3)), Err(GameError::InvalidMove));
    place(&mut g, 2, 5, PieceType::Rook(false), PieceColor::Black);
    place(&mut g, 5, 5, PieceType::Bishop, PieceColor::White);
    assert_eq!(g.make_move(Coordinates(5, 5), Coordinates(2, 5)), Err(GameError::InvalidMove));
    assert_eq!(g.make_move(Coordinates(2, 5), Coordinates(5, 5)), Ok(GameResult::Capture));
    assert_eq!(g.board.board[5][5].unwrap().color, PieceColor::Black);
    assert!(g.board.board[2][5].is_none());
}

#[test]
fn king_may_not_step_into_attack() {
    let mut g = empty_game();
    place(&mut g, 7, 4, PieceType::King(false), PieceColor::White);
    place(&mut g, 0, 3, PieceType::Rook(false), PieceColor::Black);
    let before = g.board;
    assert_eq!(g.make_move(Coordinates(7, 4), Coordinates(7, 3)), Err(GameError::InvalidMoveCheck));
    assert_eq!(g.make_move(Coordinates(7, 4), Coordinates(5, 4)), Err(GameError::InvalidMoveCheck));
    assert_eq!(g.board.board, before.board);
    assert_eq!(g.make_move(Coordinates(7, 4), Coordinates(6, 5)), Ok(GameResult::Normal));
}

#[test]
fn normal_move_round_trip() {
    let mut g = Game::default();
    let before = g.board;
    assert_eq!(g.make_move(Coordinates(7, 1), Coordinates(5, 2)), Ok(GameResult::Normal));
    assert_eq!(g.make_move(Coordinates(5, 2), Coordinates(7, 1)), Ok(GameResult::Normal));
    for r in 0..8 {
        for f in 0..8 {
            assert_eq!(g.board.board[r][f].map(|p| p.color), before.board[r][f].map(|p| p.color));
        }
    }
    let mut h = empty_game();
    place(&mut h, 4, 4, PieceType::Queen, PieceColor::Black);
    assert_eq!(h.make_move(Coordinates(4, 4), Coordinates(1, 1)), Ok(GameResult::Normal));
    assert_eq!(h.make_move(Coordinates(1, 1), Coordinates(4, 4)), Ok(GameResult::Normal));
    assert_eq!(h.board.board[4][4].unwrap().piece_type, PieceType::Queen);
    assert!(h.board.board[1][1].is_none());
}

#[test]
fn moved_rook_and_king_are_marked() {
    let mut g = empty_game();
    place(&mut g, 7, 4, PieceType::King(false), PieceColor::White);
    place(&mut g, 7, 7, PieceType::Rook(false), PieceColor::White);
    assert_eq!(g.make_move(Coordinates(7, 7), Coordinates(5, 7)), Ok(GameResult::Normal));
    assert_eq!(
        g.board.board[5][7],
        Some(Piece { piece_type: PieceType::Rook(true), color: PieceColor::White, coordinates: Coordinates(5, 7) })
    );
    assert_eq!(g.make_move(Coordinates(7, 4), Coordinates(7, 5)), Ok(GameResult::Normal));
    assert_eq!(g.board.board[7][5].unwrap().piece_type, PieceType::King(true));
}

#[test]
fn king_that_moved_may_not_castle() {
    let mut g = empty_game();
    place(&mut g, 7, 4, PieceType::King(false), PieceColor::White);
    place(&mut g, 7, 7, PieceType::Rook(false), PieceColor::White);
    assert_eq!(g.make_move(Coordinates(7, 4), Coordinates(6, 4)), Ok(GameResult::Normal));
    assert_eq!(g.make_move(Coordinates(6, 4), Coordinates(7, 4)), Ok(GameResult::Normal));
    assert_eq!(g.make_move(Coordinates(7, 4), Coordinates(7, 7)), Err(GameError::SameColorCapture));
}
