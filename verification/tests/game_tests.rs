use chess_engine::board::{Board, GameError, GameState};
use chess_engine::moves::Move;
use chess_engine::pieces::{Colour, King, Knight, Pawn, PieceType, Queen, Rook};

fn kings_and_rook() -> Board {
    let mut board = Board::empty();
    board.place(0, 4, PieceType::King(King::config(0, 4, Colour::White)));
    board.place(7, 4, PieceType::King(King::config(7, 4, Colour::Black)));
    board.place(7, 0, PieceType::Rook(Rook::config(7, 0, Colour::White)));
    board
}

#[test]
fn the_initial_position_is_neutral() {
    let mut board = Board::init();
    assert!(board.eval_gamestate() == GameState::Neutral);
    assert!(!board.is_in_check());
    assert!(!board.king_attacked());
    assert!(board.has_legal_move());
    board.flip_turn();
    assert!(board.eval_gamestate() == GameState::Neutral);
    assert!(!board.is_in_check());
}

#[test]
fn rook_with_a_clear_rank_gives_check() {
    let mut board = kings_and_rook();
    board.flip_turn();
    assert!(board.king_attacked());
    assert!(board.eval_gamestate() == GameState::Check(Colour::Black));
    assert!(board.is_in_check());
}

#[test]
fn rook_with_a_clear_file_gives_check() {
    let mut board = Board::empty();
    board.place(0, 0, PieceType::King(King::config(0, 0, Colour::White)));
    board.place(6, 3, PieceType::King(King::config(6, 3, Colour::Black)));
    board.place(1, 0, PieceType::Rook(Rook::config(1, 0, Colour::Black)));
    assert!(board.eval_gamestate() == GameState::Check(Colour::White));
    assert!(board.is_in_check());
}

#[test]
fn a_blocker_on_the_line_lifts_the_check() {
    let mut board = kings_and_rook();
    board.place(7, 2, PieceType::Knight(Knight::config(7, 2, Colour::Black)));
    board.flip_turn();
    assert!(!board.king_attacked());
    assert!(board.eval_gamestate() == GameState::Neutral);
    assert!(!board.is_in_check());
}

#[test]
fn the_side_that_gives_check_is_not_in_check() {
    let mut board = kings_and_rook();
    assert_eq!(board.turn(), Colour::White);
    assert!(!board.king_attacked());
    assert!(board.eval_gamestate() == GameState::Neutral);
    assert!(!board.is_in_check());
}

#[test]
fn the_check_flag_is_cleared_when_the_check_is_over() {
    let mut board = kings_and_rook();
    board.flip_turn();
    assert!(board.eval_gamestate() == GameState::Check(Colour::Black));
    assert!(board.is_in_check());
    assert_eq!(board.make_move(Move::construct((6, 4), (7, 4))), Ok(()));
    assert!(board.is_in_check());
    assert!(board.eval_gamestate() == GameState::Neutral);
    assert!(!board.is_in_check());
}

#[test]
fn back_rank_mate_is_checkmate() {
    let mut board = Board::empty();
    board.place(7, 7, PieceType::King(King::config(7, 7, Colour::Black)));
    board.place(5, 6, PieceType::King(King::config(5, 6, Colour::White)));
    board.place(7, 0, PieceType::Rook(Rook::config(7, 0, Colour::White)));
    board.flip_turn();
    assert!(board.king_attacked());
    assert!(!board.has_legal_move());
    assert!(board.eval_gamestate() == GameState::Checkmate(Colour::Black));
    assert!(board.is_in_check());
}

#[test]
fn cornered_king_that_is_not_attacked_is_stalemate() {
    let mut board = Board::empty();
    board.place(7, 7, PieceType::King(King::config(7, 7, Colour::Black)));
    board.place(5, 6, PieceType::Queen(Queen::config(5, 6, Colour::White)));
    board.place(0, 0, PieceType::King(King::config(0, 0, Colour::White)));
    board.flip_turn();
    assert!(!board.king_attacked());
    assert!(!board.has_legal_move());
    assert!(board.eval_gamestate() == GameState::Stalemate);
    assert!(!board.is_in_check());
}

#[test]
fn eval_gamestate_only_touches_the_check_flag() {
    let mut board = kings_and_rook();
    board.flip_turn();
    let before = board.to_string();
    board.eval_gamestate();
    assert_eq!(board.to_string(), before);
    assert_eq!(board.turn(), Colour::Black);
    assert!(board.white().is_empty());
    assert!(board.black().is_empty());
}

#[test]
fn a_move_the_piece_cannot_make_is_invalid() {
    let mut board = Board::init();
    let before = board.to_string();
    assert_eq!(board.make_move(Move::construct((3, 0), (1, 0))), Err(GameError::InvalidMove));
    assert_eq!(board.make_move(Move::construct((2, 1), (1, 0))), Err(GameError::InvalidMove));
    assert_eq!(board.make_move(Move::construct((1, 0), (0, 0))), Err(GameError::InvalidMove));
    assert_eq!(board.make_move(Move::construct((1, 0), (1, 0))), Err(GameError::InvalidMove));
    assert_eq!(board.make_move(Move::construct((4, 0), (0, 0))), Err(GameError::InvalidMove));
    assert_eq!(board.to_string(), before);
    assert!(!board.is_legal(Move::construct((3, 0), (1, 0))));
    assert!(board.is_legal(Move::construct((2, 0), (1, 0))));
    assert!(!board.is_legal(Move::construct((5, 0), (6, 0))));
    assert!(!board.is_legal(Move::construct((4, 0), (3, 0))));
}

#[test]
fn a_legal_move_is_played() {
    let mut board = Board::init();
    assert_eq!(board.make_move(Move::construct((2, 0), (1, 0))), Ok(()));
    assert_eq!(board.get(2, 0), PieceType::Pawn(Pawn::config(2, 0, Colour::White)));
    assert_eq!(board.get(1, 0), PieceType::Empty);
    assert_eq!(board.turn(), Colour::White);
    assert_eq!(board.make_move(Move::construct((2, 2), (0, 1))), Ok(()));
    assert_eq!(board.get(2, 2), PieceType::Knight(Knight::config(2, 2, Colour::White)));
}

#[test]
fn a_move_that_uncovers_the_king_is_invalid() {
    let mut board = Board::empty();
    board.place(0, 4, PieceType::King(King::config(0, 4, Colour::White)));
    board.place(1, 4, PieceType::Rook(Rook::config(1, 4, Colour::White)));
    board.place(7, 4, PieceType::Rook(Rook::config(7, 4, Colour::Black)));
    board.place(7, 0, PieceType::King(King::config(7, 0, Colour::Black)));
    let before = board.to_string();
    assert!(!board.is_legal(Move::construct((1, 0), (1, 4))));
    assert_eq!(board.make_move(Move::construct((1, 0), (1, 4))), Err(GameError::InvalidMove));
    assert_eq!(board.to_string(), before);
    assert!(board.is_legal(Move::construct((2, 4), (1, 4))));
    assert!(board.is_legal(Move::construct((7, 4), (1, 4))));
    assert_eq!(board.make_move(Move::construct((7, 4), (1, 4))), Ok(()));
    assert_eq!(board.white(), &[PieceType::Rook(Rook::config(7, 4, Colour::Black))][..]);
    assert_eq!(board.get(7, 4), PieceType::Rook(Rook::config(7, 4, Colour::White)));
}

#[test]
fn a_king_may_not_step_into_an_attack() {
    let mut board = kings_and_rook();
    board.flip_turn();
    assert!(!board.is_legal(Move::construct((7, 3), (7, 4))));
    assert!(!board.is_legal(Move::construct((7, 5), (7, 4))));
    assert!(board.is_legal(Move::construct((6, 3), (7, 4))));
    assert!(board.is_legal(Move::construct((6, 4), (7, 4))));
    assert!(board.is_legal(Move::construct((6, 5), (7, 4))));
    assert_eq!(board.make_move(Move::construct((7, 3), (7, 4))), Err(GameError::InvalidMove));
    assert_eq!(board.make_move(Move::construct((6, 3), (7, 4))), Ok(()));
    assert_eq!(board.find_king(Colour::Black).as_tuple(), (6, 3));
}

#[test]
fn a_piece_that_attacks_the_king_has_no_move_of_its_own() {
    let mut board = kings_and_rook();
    assert!(board.get(7, 0).evaluate_moves(&board).is_checking());
    assert!(!board.is_legal(Move::construct((6, 0), (7, 0))));
    assert!(!board.is_legal(Move::construct((7, 4), (7, 0))));
    assert_eq!(board.make_move(Move::construct((7, 4), (7, 0))), Err(GameError::InvalidMove));
    assert_eq!(board.find_king(Colour::Black).as_tuple(), (7, 4));
}

#[test]
fn a_game_of_a_few_moves() {
    let mut board = Board::init();
    assert_eq!(board.make_move(Move::construct((2, 4), (1, 4))), Ok(()));
    board.flip_turn();
    assert!(board.eval_gamestate() == GameState::Neutral);
    assert_eq!(board.make_move(Move::construct((5, 3), (6, 3))), Ok(()));
    board.flip_turn();
    assert_eq!(board.make_move(Move::construct((3, 4), (2, 4))), Ok(()));
    board.flip_turn();
    assert_eq!(board.make_move(Move::construct((4, 3), (5, 3))), Ok(()));
    board.flip_turn();
    assert_eq!(board.make_move(Move::construct((4, 3), (3, 4))), Ok(()));
    assert_eq!(board.white(), &[PieceType::Pawn(Pawn::config(4, 3, Colour::Black))][..]);
    board.flip_turn();
    assert!(board.eval_gamestate() == GameState::Neutral);
    let text = "|r|n|b|q|k|b|n|r|\n\
                |p|p|p| |p|p|p|p|\n\
                | | | | | | | | |\n\
                | | | |P| | | | |\n\
                | | | | | | | | |\n\
                | | | | | | | | |\n\
                |P|P|P|P| |P|P|P|\n\
                |R|N|B|Q|K|B|N|R|\n";
    assert_eq!(board.to_string(), text);
}
