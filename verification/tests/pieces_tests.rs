use chess_engine::board::Board;
use chess_engine::moves::Move;
use chess_engine::pieces::{
    Bishop, Colour, King, Knight, Pawn, Piece, PieceType, Position, Queen, Rook,
};

fn targets(set: &chess_engine::moves::MoveSet) -> Vec<(usize, usize)> {
    set.as_slice().iter().map(|m| m.target).collect()
}

fn all_from(set: &chess_engine::moves::MoveSet, origin: (usize, usize)) -> bool {
    set.as_slice().iter().all(|m| m.origin == origin)
}

#[test]
fn colours_are_opposite() {
    assert_eq!(Colour::White.opposite(), Colour::Black);
    assert_eq!(Colour::Black.opposite(), Colour::White);
}

#[test]
fn position_as_tuple() {
    assert_eq!(Position { row: 3, col: 6 }.as_tuple(), (3, 6));
}

#[test]
fn config_stores_colour_and_square() {
    let p = Pawn::config(1, 2, Colour::White);
    assert_eq!(p.colour(), Colour::White);
    assert_eq!(p.position(), Position { row: 1, col: 2 });
    let k = King::config(7, 4, Colour::Black);
    assert_eq!(k.colour(), Colour::Black);
    assert_eq!(k.position(), Position { row: 7, col: 4 });
    assert_eq!(Rook::config(0, 7, Colour::White).position().as_tuple(), (0, 7));
    assert_eq!(Knight::config(0, 1, Colour::Black).colour(), Colour::Black);
    assert_eq!(Bishop::config(2, 2, Colour::White).position().as_tuple(), (2, 2));
    assert_eq!(Queen::config(5, 3, Colour::Black).position().as_tuple(), (5, 3));
}

#[test]
fn points_of_the_pieces() {
    assert_eq!(chess_engine::pieces::pawn::POINTS, 1);
    assert_eq!(chess_engine::pieces::knight::POINTS, 3);
    assert_eq!(chess_engine::pieces::bishop::POINTS, 3);
    assert_eq!(chess_engine::pieces::rook::POINTS, 5);
    assert_eq!(chess_engine::pieces::queen::POINTS, 9);
}

#[test]
fn piece_type_queries() {
    let king = PieceType::King(King::config(0, 4, Colour::White));
    let pawn = PieceType::Pawn(Pawn::config(6, 0, Colour::Black));
    assert_eq!(king.colour(), Some(Colour::White));
    assert_eq!(pawn.colour(), Some(Colour::Black));
    assert_eq!(PieceType::Empty.colour(), None);
    assert!(king.is_king());
    assert!(!pawn.is_king());
    assert!(!PieceType::Empty.is_king());
    assert!(PieceType::Empty.is_empty());
    assert!(!king.is_empty());
    assert_eq!(king.position(), Some(Position { row: 0, col: 4 }));
    assert_eq!(PieceType::Empty.position(), None);
    assert!(king.belongs_to(Colour::White));
    assert!(!king.belongs_to(Colour::Black));
    assert!(!PieceType::Empty.belongs_to(Colour::White));
}

#[test]
fn piece_letters() {
    let w = Colour::White;
    let b = Colour::Black;
    assert_eq!(PieceType::Pawn(Pawn::config(0, 0, w)).as_char(), 'P');
    assert_eq!(PieceType::Pawn(Pawn::config(0, 0, b)).as_char(), 'p');
    assert_eq!(PieceType::Rook(Rook::config(0, 0, w)).as_char(), 'R');
    assert_eq!(PieceType::Rook(Rook::config(0, 0, b)).as_char(), 'r');
    assert_eq!(PieceType::Knight(Knight::config(0, 0, w)).as_char(), 'N');
    assert_eq!(PieceType::Knight(Knight::config(0, 0, b)).as_char(), 'n');
    assert_eq!(PieceType::Bishop(Bishop::config(0, 0, w)).as_char(), 'B');
    assert_eq!(PieceType::Bishop(Bishop::config(0, 0, b)).as_char(), 'b');
    assert_eq!(PieceType::Queen(Queen::config(0, 0, w)).as_char(), 'Q');
    assert_eq!(PieceType::Queen(Queen::config(0, 0, b)).as_char(), 'q');
    assert_eq!(PieceType::King(King::config(0, 0, w)).as_char(), 'K');
    assert_eq!(PieceType::King(King::config(0, 0, b)).as_char(), 'k');
    assert_eq!(PieceType::Empty.as_char(), ' ');
    assert_eq!(PieceType::Queen(Queen::config(0, 0, b)).as_str(), "q");
    assert_eq!(PieceType::Knight(Knight::config(0, 0, w)).as_str(), "N");
    assert_eq!(PieceType::Empty.as_str(), " ");
}

#[test]
fn moved_to_keeps_kind_and_colour() {
    let rook = PieceType::Rook(Rook::config(0, 0, Colour::Black));
    assert_eq!(
        rook.moved_to(Position { row: 5, col: 6 }),
        PieceType::Rook(Rook::config(5, 6, Colour::Black))
    );
    assert_eq!(PieceType::Empty.moved_to(Position { row: 5, col: 6 }), PieceType::Empty);
}

#[test]
fn white_pawn_steps_one_square_up() {
    let board = Board::init();
    let set = Pawn::config(1, 3, Colour::White).evaluate_moves(&board);
    assert!(!set.is_checking());
    assert_eq!(set.len(), 1);
    assert_eq!(set.get(0), Move::construct((2, 3), (1, 3)));
}

#[test]
fn black_pawn_steps_one_square_down() {
    let board = Board::init();
    let set = Pawn::config(6, 3, Colour::Black).evaluate_moves(&board);
    assert!(!set.is_checking());
    assert_eq!(targets(&set), vec![(5, 3)]);
    assert!(all_from(&set, (6, 3)));
}

#[test]
fn blocked_pawn_has_no_move() {
    let mut board = Board::empty();
    board.place(3, 3, PieceType::Pawn(Pawn::config(3, 3, Colour::White)));
    board.place(4, 3, PieceType::Pawn(Pawn::config(4, 3, Colour::Black)));
    let set = board.get(3, 3).evaluate_moves(&board);
    assert!(set.is_empty());
    assert!(!set.is_checking());
    let set = board.get(4, 3).evaluate_moves(&board);
    assert!(set.is_empty());
    assert!(!set.is_checking());
}

#[test]
fn pawn_captures_diagonally_ahead_only_enemies() {
    let mut board = Board::empty();
    board.place(3, 3, PieceType::Pawn(Pawn::config(3, 3, Colour::White)));
    board.place(4, 4, PieceType::Knight(Knight::config(4, 4, Colour::Black)));
    board.place(4, 2, PieceType::Knight(Knight::config(4, 2, Colour::Black)));
    let set = board.get(3, 3).evaluate_moves(&board);
    assert_eq!(targets(&set), vec![(4, 3), (4, 4), (4, 2)]);
    assert!(all_from(&set, (3, 3)));
    board.place(4, 2, PieceType::Knight(Knight::config(4, 2, Colour::White)));
    let set = board.get(3, 3).evaluate_moves(&board);
    assert_eq!(targets(&set), vec![(4, 3), (4, 4)]);
    board.place(4, 4, PieceType::Empty);
    let set = board.get(3, 3).evaluate_moves(&board);
    assert_eq!(targets(&set), vec![(4, 3)]);
}

#[test]
fn black_pawn_captures_downwards() {
    let mut board = Board::empty();
    board.place(4, 0, PieceType::Pawn(Pawn::config(4, 0, Colour::Black)));
    board.place(3, 1, PieceType::Rook(Rook::config(3, 1, Colour::White)));
    let set = board.get(4, 0).evaluate_moves(&board);
    assert_eq!(targets(&set), vec![(3, 0), (3, 1)]);
}

#[test]
fn pawn_on_the_edge_files_stays_on_the_board() {
    let mut board = Board::empty();
    board.place(2, 0, PieceType::Pawn(Pawn::config(2, 0, Colour::White)));
    board.place(2, 7, PieceType::Pawn(Pawn::config(2, 7, Colour::White)));
    board.place(3, 1, PieceType::Pawn(Pawn::config(3, 1, Colour::Black)));
    board.place(3, 6, PieceType::Pawn(Pawn::config(3, 6, Colour::Black)));
    assert_eq!(targets(&board.get(2, 0).evaluate_moves(&board)), vec![(3, 0), (3, 1)]);
    assert_eq!(targets(&board.get(2, 7).evaluate_moves(&board)), vec![(3, 7), (3, 6)]);
}

#[test]
fn pawn_on_the_last_rank_has_no_move_and_stays_a_pawn() {
    let mut board = Board::empty();
    board.place(6, 2, PieceType::Pawn(Pawn::config(6, 2, Colour::White)));
    board.place(7, 3, PieceType::Rook(Rook::config(7, 3, Colour::Black)));
    assert_eq!(board.make_move(Move::construct((7, 2), (6, 2))), Ok(()));
    assert_eq!(board.get(7, 2), PieceType::Pawn(Pawn::config(7, 2, Colour::White)));
    let set = board.get(7, 2).evaluate_moves(&board);
    assert!(set.is_empty());
    assert!(!set.is_checking());

    let mut board = Board::empty();
    board.place(0, 5, PieceType::Pawn(Pawn::config(0, 5, Colour::Black)));
    let set = board.get(0, 5).evaluate_moves(&board);
    assert!(set.is_empty());
    assert!(!set.is_checking());
}

#[test]
fn pawn_that_attacks_the_king_signals_check() {
    let mut board = Board::empty();
    board.place(3, 3, PieceType::Pawn(Pawn::config(3, 3, Colour::White)));
    board.place(4, 4, PieceType::King(King::config(4, 4, Colour::Black)));
    let set = board.get(3, 3).evaluate_moves(&board);
    assert!(set.is_checking());
    assert!(set.is_empty());
    assert_eq!(set.len(), 0);
}

#[test]
fn pawn_does_not_attack_straight_ahead_nor_its_own_king() {
    let mut board = Board::empty();
    board.place(3, 3, PieceType::Pawn(Pawn::config(3, 3, Colour::White)));
    board.place(4, 3, PieceType::King(King::config(4, 3, Colour::Black)));
    board.place(4, 4, PieceType::King(King::config(4, 4, Colour::White)));
    let set = board.get(3, 3).evaluate_moves(&board);
    assert!(!set.is_checking());
    assert!(set.is_empty());
}

#[test]
fn knight_moves_from_the_initial_square() {
    let board = Board::init();
    let set = Knight::config(0, 1, Colour::White).evaluate_moves(&board);
    assert!(!set.is_checking());
    assert_eq!(targets(&set), vec![(2, 2), (2, 0)]);
    assert!(all_from(&set, (0, 1)));
}

#[test]
fn knight_in_the_open_has_eight_jumps() {
    let mut board = Board::empty();
    board.place(4, 4, PieceType::Knight(Knight::config(4, 4, Colour::Black)));
    let set = board.get(4, 4).evaluate_moves(&board);
    assert_eq!(
        targets(&set),
        vec![(6, 5), (6, 3), (2, 5), (2, 3), (5, 6), (5, 2), (3, 6), (3, 2)]
    );
}

#[test]
fn knight_jumps_over_pieces_and_takes_enemies() {
    let mut board = Board::empty();
    board.place(0, 0, PieceType::Knight(Knight::config(0, 0, Colour::White)));
    board.place(0, 1, PieceType::Pawn(Pawn::config(0, 1, Colour::White)));
    board.place(1, 0, PieceType::Pawn(Pawn::config(1, 0, Colour::White)));
    board.place(1, 1, PieceType::Pawn(Pawn::config(1, 1, Colour::White)));
    board.place(2, 1, PieceType::Pawn(Pawn::config(2, 1, Colour::Black)));
    board.place(1, 2, PieceType::Pawn(Pawn::config(1, 2, Colour::White)));
    let set = board.get(0, 0).evaluate_moves(&board);
    assert_eq!(targets(&set), vec![(2, 1)]);
}

#[test]
fn rook_in_the_open() {
    let mut board = Board::empty();
    board.place(3, 3, PieceType::Rook(Rook::config(3, 3, Colour::White)));
    let set = board.get(3, 3).evaluate_moves(&board);
    assert!(!set.is_checking());
    assert_eq!(
        targets(&set),
        vec![
            (4, 3), (5, 3), (6, 3), (7, 3),
            (2, 3), (1, 3), (0, 3),
            (3, 4), (3, 5), (3, 6), (3, 7),
            (3, 2), (3, 1), (3, 0),
        ]
    );
    assert!(all_from(&set, (3, 3)));
}

#[test]
fn rook_stops_at_the_first_piece() {
    let mut board = Board::empty();
    board.place(3, 3, PieceType::Rook(Rook::config(3, 3, Colour::White)));
    board.place(5, 3, PieceType::Pawn(Pawn::config(5, 3, Colour::Black)));
    board.place(6, 3, PieceType::Pawn(Pawn::config(6, 3, Colour::Black)));
    board.place(3, 5, PieceType::Pawn(Pawn::config(3, 5, Colour::White)));
    board.place(2, 3, PieceType::Pawn(Pawn::config(2, 3, Colour::White)));
    let set = board.get(3, 3).evaluate_moves(&board);
    assert_eq!(targets(&set), vec![(4, 3), (5, 3), (3, 4), (3, 2), (3, 1), (3, 0)]);
}

#[test]
fn rook_in_the_initial_position_cannot_move() {
    let board = Board::init();
    let set = board.get(0, 0).evaluate_moves(&board);
    assert!(set.is_empty());
    assert!(!set.is_checking());
}

#[test]
fn rook_with_a_clear_line_to_the_king_signals_check() {
    let mut board = Board::empty();
    board.place(2, 6, PieceType::Rook(Rook::config(2, 6, Colour::Black)));
    board.place(2, 1, PieceType::King(King::config(2, 1, Colour::White)));
    let set = board.get(2, 6).evaluate_moves(&board);
    assert!(set.is_checking());
    assert_eq!(set.len(), 0);
    board.place(2, 3, PieceType::Pawn(Pawn::config(2, 3, Colour::White)));
    let set = board.get(2, 6).evaluate_moves(&board);
    assert!(!set.is_checking());
    assert!(!set.is_empty());
}

#[test]
fn rook_does_not_threaten_its_own_king() {
    let mut board = Board::empty();
    board.place(2, 6, PieceType::Rook(Rook::config(2, 6, Colour::White)));
    board.place(2, 1, PieceType::King(King::config(2, 1, Colour::White)));
    let set = board.get(2, 6).evaluate_moves(&board);
    assert!(!set.is_checking());
    assert_eq!(set.len(), 4 + 7 + 1);
}

#[test]
fn bishop_in_the_open() {
    let mut board = Board::empty();
    board.place(2, 2, PieceType::Bishop(Bishop::config(2, 2, Colour::Black)));
    let set = board.get(2, 2).evaluate_moves(&board);
    assert_eq!(
        targets(&set),
        vec![
            (3, 3), (4, 4), (5, 5), (6, 6), (7, 7),
            (3, 1), (4, 0),
            (1, 3), (0, 4),
            (1, 1), (0, 0),
        ]
    );
}

#[test]
fn bishop_takes_the_first_enemy_and_stops_before_a_friend() {
    let mut board = Board::empty();
    board.place(2, 2, PieceType::Bishop(Bishop::config(2, 2, Colour::Black)));
    board.place(4, 4, PieceType::Pawn(Pawn::config(4, 4, Colour::White)));
    board.place(1, 1, PieceType::Pawn(Pawn::config(1, 1, Colour::Black)));
    let set = board.get(2, 2).evaluate_moves(&board);
    assert_eq!(targets(&set), vec![(3, 3), (4, 4), (3, 1), (4, 0), (1, 3), (0, 4)]);
}

#[test]
fn queen_in_a_corner() {
    let mut board = Board::empty();
    board.place(0, 0, PieceType::Queen(Queen::config(0, 0, Colour::White)));
    let set = board.get(0, 0).evaluate_moves(&board);
    assert_eq!(
        targets(&set),
        vec![
            (1, 0), (2, 0), (3, 0), (4, 0), (5, 0), (6, 0), (7, 0),
            (0, 1), (0, 2), (0, 3), (0, 4), (0, 5), (0, 6), (0, 7),
            (1, 1), (2, 2), (3, 3), (4, 4), (5, 5), (6, 6), (7, 7),
        ]
    );
}

#[test]
fn queen_on_a_diagonal_with_the_king_signals_check() {
    let mut board = Board::empty();
    board.place(0, 0, PieceType::Queen(Queen::config(0, 0, Colour::White)));
    board.place(5, 5, PieceType::King(King::config(5, 5, Colour::Black)));
    assert!(board.get(0, 0).evaluate_moves(&board).is_checking());
}

#[test]
fn king_in_the_open_and_in_a_corner() {
    let mut board = Board::empty();
    board.place(4, 4, PieceType::King(King::config(4, 4, Colour::White)));
    let set = board.get(4, 4).evaluate_moves(&board);
    assert_eq!(
        targets(&set),
        vec![(5, 4), (3, 4), (4, 5), (4, 3), (5, 5), (5, 3), (3, 5), (3, 3)]
    );
    board.place(7, 7, PieceType::King(King::config(7, 7, Colour::Black)));
    let set = board.get(7, 7).evaluate_moves(&board);
    assert_eq!(targets(&set), vec![(6, 7), (7, 6), (6, 6)]);
}

#[test]
fn king_leaves_friends_alone_and_takes_enemies() {
    let mut board = Board::empty();
    board.place(0, 4, PieceType::King(King::config(0, 4, Colour::White)));
    board.place(1, 4, PieceType::Pawn(Pawn::config(1, 4, Colour::White)));
    board.place(0, 5, PieceType::Pawn(Pawn::config(0, 5, Colour::Black)));
    let set = board.get(0, 4).evaluate_moves(&board);
    assert_eq!(targets(&set), vec![(0, 5), (0, 3), (1, 5), (1, 3)]);
}

#[test]
fn empty_square_has_no_moves() {
    let board = Board::init();
    let set = PieceType::Empty.evaluate_moves(&board);
    assert!(set.is_empty());
    assert!(!set.is_checking());
}

#[test]
fn dispatch_agrees_with_the_piece() {
    let board = Board::init();
    let knight = Knight::config(0, 6, Colour::White);
    let by_piece = knight.evaluate_moves(&board);
    let by_square = PieceType::Knight(knight).evaluate_moves(&board);
    assert_eq!(by_piece.as_slice(), by_square.as_slice());
    assert_eq!(targets(&by_piece), vec![(2, 7), (2, 5)]);
}
