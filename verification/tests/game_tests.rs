use checkers_core::{
    Board, GameError, GameManager, Move, MoveType, PieceData, Position, Side,
};

fn pos(row: usize, col: usize) -> Position {
    Position { row, col }
}

fn step(from: Position, to: Position) -> Move {
    Move { from, to, move_type: MoveType::Move }
}

fn jump(from: Position, to: Position) -> Move {
    Move { from, to, move_type: MoveType::Jump }
}

/// A board that holds exactly the pieces given as (row, column, owner, king).
fn board_with(pieces: &[(usize, usize, Side, bool)]) -> Board {
    let mut board = Board::setup();
    let mut computer_home: Vec<Position> =
        board.all_pieces_of_side(Side::AI).iter().map(|p| p.position).collect();
    let mut player_home: Vec<Position> =
        board.all_pieces_of_side(Side::Player).iter().map(|p| p.position).collect();
    // Light squares away from both edges hold the pieces until every home square is free.
    let mut waiting: Vec<Position> = Vec::new();
    for row in 1..7 {
        for col in 0..8 {
            if (row + col) % 2 == 0 {
                waiting.push(pos(row, col));
            }
        }
    }
    let mut placed: Vec<(Position, Position)> = Vec::new();
    for &(row, col, owner, is_king) in pieces {
        let home = match owner {
            Side::AI => computer_home.pop().unwrap(),
            Side::Player => player_home.pop().unwrap(),
        };
        let wait = waiting.pop().unwrap();
        if is_king {
            let far = match owner {
                Side::AI => pos(7, 7),
                Side::Player => pos(0, 0),
            };
            board.apply_move(&step(home, far)).unwrap();
            board.apply_move(&step(far, wait)).unwrap();
        } else {
            board.apply_move(&step(home, wait)).unwrap();
        }
        placed.push((wait, pos(row, col)));
    }
    for home in computer_home.into_iter().chain(player_home) {
        board.apply_move(&jump(home, home)).unwrap();
    }
    for (wait, target) in placed {
        board.apply_move(&step(wait, target)).unwrap();
    }
    for &(row, col, owner, is_king) in pieces {
        assert_eq!(board.get_square(&pos(row, col)), Some(&PieceData { owner, is_king }));
    }
    board
}

fn game_on(board: Board, turn: Side) -> GameManager {
    GameManager { board, current_turn: turn, game_over: false, winner: None }
}

#[test]
fn a_new_game_starts_with_the_player() {
    let game = GameManager::new();
    assert_eq!(game.board, Board::setup());
    assert_eq!(game.current_turn, Side::Player);
    assert!(!game.game_over);
    assert_eq!(game.winner, None);
}

#[test]
fn opening_moves_of_the_edge_piece() {
    let game = GameManager::new();
    assert_eq!(game.get_possible_moves(pos(5, 0)), vec![step(pos(5, 0), pos(4, 1))]);
}

#[test]
fn possible_moves_are_empty_for_the_other_side_and_for_empty_squares() {
    let game = GameManager::new();
    assert_eq!(game.get_possible_moves(pos(2, 1)), vec![]);
    assert_eq!(game.get_possible_moves(pos(4, 1)), vec![]);
    assert_eq!(game.get_possible_moves(pos(4, 4)), vec![]);
    assert_eq!(game.get_possible_moves(pos(6, 1)), vec![]);
    assert_eq!(
        game.get_possible_moves(pos(5, 2)),
        vec![step(pos(5, 2), pos(4, 1)), step(pos(5, 2), pos(4, 3))]
    );
}

#[test]
fn an_illegal_move_is_rejected_and_changes_nothing() {
    let mut game = GameManager::new();
    let before = game;
    assert_eq!(game.make_move(step(pos(5, 0), pos(3, 0))), Err(GameError::InvalidMove));
    assert_eq!(game, before);
    assert_eq!(game.board, Board::setup());
    assert_eq!(game.current_turn, Side::Player);
}

#[test]
fn a_move_of_the_wrong_kind_is_rejected() {
    let mut game = GameManager::new();
    let before = game;
    // The step (5,0) -> (4,1) is legal; the same squares named as a jump are not.
    assert_eq!(game.make_move(jump(pos(5, 0), pos(4, 1))), Err(GameError::InvalidMove));
    assert_eq!(game, before);
}

#[test]
fn a_move_from_an_empty_square_is_invalid() {
    let mut game = GameManager::new();
    let before = game;
    assert_eq!(game.make_move(step(pos(4, 1), pos(3, 2))), Err(GameError::InvalidMove));
    assert_eq!(game, before);
}

#[test]
fn a_move_with_the_other_sides_piece_is_not_your_turn() {
    let mut game = GameManager::new();
    let before = game;
    assert_eq!(game.make_move(step(pos(2, 1), pos(3, 0))), Err(GameError::NotYourTurn));
    assert_eq!(game, before);
}

#[test]
fn plain_moves_pass_the_turn_back_and_forth() {
    let mut game = GameManager::new();
    assert_eq!(game.make_move(step(pos(5, 0), pos(4, 1))), Ok(()));
    assert_eq!(game.current_turn, Side::AI);
    assert!(!game.game_over);
    assert_eq!(game.board.get_square(&pos(4, 1)), Some(&PieceData { owner: Side::Player, is_king: false }));
    assert_eq!(game.board.get_square(&pos(5, 0)), None);
    assert_eq!(game.make_move(step(pos(2, 1), pos(3, 0))), Ok(()));
    assert_eq!(game.current_turn, Side::Player);
    assert!(!game.game_over);
    assert_eq!(game.winner, None);
}

#[test]
fn a_plain_move_is_refused_while_a_jump_is_open() {
    let board = board_with(&[
        (5, 0, Side::Player, false),
        (5, 6, Side::Player, false),
        (4, 5, Side::AI, false),
        (0, 1, Side::AI, false),
    ]);
    let mut game = game_on(board, Side::Player);
    let before = game;
    assert_eq!(game.get_possible_moves(pos(5, 0)), vec![]);
    assert_eq!(game.make_move(step(pos(5, 0), pos(4, 1))), Err(GameError::InvalidMove));
    assert_eq!(game.make_move(step(pos(5, 6), pos(4, 7))), Err(GameError::InvalidMove));
    assert_eq!(game, before);
    assert_eq!(game.make_move(jump(pos(5, 6), pos(3, 4))), Ok(()));
}

#[test]
fn forced_multi_jump_keeps_the_turn_until_no_jump_is_left() {
    let board = board_with(&[
        (5, 6, Side::Player, false),
        (4, 5, Side::AI, false),
        (2, 3, Side::AI, false),
        (0, 1, Side::AI, false),
    ]);
    let mut game = game_on(board, Side::Player);
    assert_eq!(game.get_possible_moves(pos(5, 6)), vec![jump(pos(5, 6), pos(3, 4))]);

    assert_eq!(game.make_move(jump(pos(5, 6), pos(3, 4))), Ok(()));
    assert_eq!(game.board.get_square(&pos(4, 5)), None);
    // The piece on (3,4) can jump over (2,3) to (1,2): the player moves again.
    assert_eq!(game.current_turn, Side::Player);
    assert!(!game.game_over);
    assert_eq!(game.get_possible_moves(pos(3, 4)), vec![jump(pos(3, 4), pos(1, 2))]);

    assert_eq!(game.make_move(jump(pos(3, 4), pos(1, 2))), Ok(()));
    assert_eq!(game.board.get_square(&pos(2, 3)), None);
    assert_eq!(game.board.get_square(&pos(3, 4)), None);
    assert_eq!(game.board.get_square(&pos(1, 2)), Some(&PieceData { owner: Side::Player, is_king: false }));
    // No jump is left: the turn passes.
    assert_eq!(game.current_turn, Side::AI);
    assert!(!game.game_over);
    assert_eq!(game.winner, None);
}

#[test]
fn a_jump_of_another_piece_keeps_the_turn_too() {
    // After (5,2) has jumped, the piece on (5,6) has a jump: the check looks at the side.
    let board = board_with(&[
        (5, 2, Side::Player, false),
        (4, 1, Side::AI, false),
        (5, 6, Side::Player, false),
        (4, 5, Side::AI, false),
        (0, 1, Side::AI, false),
    ]);
    let mut game = game_on(board, Side::Player);
    assert_eq!(game.make_move(jump(pos(5, 2), pos(3, 0))), Ok(()));
    assert_eq!(game.current_turn, Side::Player);
    assert_eq!(game.get_possible_moves(pos(3, 0)), vec![]);
    assert_eq!(game.get_possible_moves(pos(5, 6)), vec![jump(pos(5, 6), pos(3, 4))]);
    assert_eq!(game.make_move(jump(pos(5, 6), pos(3, 4))), Ok(()));
    assert_eq!(game.current_turn, Side::AI);
}

#[test]
fn the_game_ends_when_the_next_side_is_blocked() {
    let board = board_with(&[
        (6, 1, Side::AI, false),
        (7, 0, Side::Player, false),
        (7, 2, Side::Player, false),
        (5, 0, Side::Player, false),
        (5, 2, Side::Player, false),
    ]);
    let mut game = game_on(board, Side::Player);
    assert_eq!(game.make_move(step(pos(5, 0), pos(4, 1))), Ok(()));
    assert_eq!(game.current_turn, Side::AI);
    assert!(game.game_over);
    assert_eq!(game.winner, Some(Side::Player));
}

#[test]
fn the_game_ends_when_the_last_piece_is_captured() {
    let board = board_with(&[(3, 4, Side::Player, false), (2, 3, Side::AI, false)]);
    let mut game = game_on(board, Side::Player);
    assert_eq!(game.make_move(jump(pos(3, 4), pos(1, 2))), Ok(()));
    assert_eq!(game.current_turn, Side::AI);
    assert!(game.game_over);
    assert_eq!(game.winner, Some(Side::Player));
}

#[test]
fn nothing_is_accepted_after_the_end() {
    let board = board_with(&[(3, 4, Side::Player, false), (2, 3, Side::AI, false)]);
    let mut game = game_on(board, Side::Player);
    assert_eq!(game.make_move(jump(pos(3, 4), pos(1, 2))), Ok(()));
    let finished = game;
    assert_eq!(game.make_move(step(pos(1, 2), pos(0, 1))), Err(GameError::GameOver));
    assert_eq!(game.make_ai_move(), Err(GameError::GameOver));
    assert_eq!(game, finished);
}

#[test]
fn the_computer_does_not_move_on_the_players_turn() {
    let mut game = GameManager::new();
    let before = game;
    assert_eq!(game.make_ai_move(), Err(GameError::NotAiTurn));
    assert_eq!(game, before);
}

#[test]
fn the_computer_without_moves_reports_it() {
    let board = board_with(&[(3, 4, Side::Player, false)]);
    let mut game = game_on(board, Side::AI);
    let before = game;
    assert_eq!(game.make_ai_move(), Err(GameError::NoMovesAvailable));
    assert_eq!(game, before);
}

#[test]
fn the_computer_takes_the_only_jump_and_wins() {
    let board = board_with(&[(0, 1, Side::AI, false), (1, 2, Side::Player, false)]);
    let mut game = game_on(board, Side::AI);
    assert_eq!(game.make_ai_move(), Ok(()));
    assert_eq!(game.board.get_square(&pos(2, 3)), Some(&PieceData { owner: Side::AI, is_king: false }));
    assert_eq!(game.board.get_square(&pos(1, 2)), None);
    assert_eq!(game.board.get_square(&pos(0, 1)), None);
    assert_eq!(game.current_turn, Side::Player);
    assert!(game.game_over);
    assert_eq!(game.winner, Some(Side::AI));
}

#[test]
fn the_computer_answers_the_opening() {
    let mut game = GameManager::new();
    assert_eq!(game.make_move(step(pos(5, 2), pos(4, 3))), Ok(()));
    assert_eq!(game.make_ai_move(), Ok(()));
    assert_eq!(game.current_turn, Side::Player);
    assert!(!game.game_over);
    assert_eq!(game.board.all_pieces_of_side(Side::AI).len(), 12);
    assert_eq!(game.board.all_pieces_of_side(Side::Player).len(), 12);
    // One computer piece has left row 2 for row 3.
    let in_row_three = game
        .board
        .all_pieces_of_side(Side::AI)
        .iter()
        .filter(|piece| piece.position.row == 3)
        .count();
    assert_eq!(in_row_three, 1);
}

#[test]
fn a_piece_is_crowned_in_play() {
    let board = board_with(&[(1, 2, Side::Player, false), (7, 0, Side::AI, true)]);
    let mut game = game_on(board, Side::Player);
    assert_eq!(game.make_move(step(pos(1, 2), pos(0, 1))), Ok(()));
    assert_eq!(game.board.get_square(&pos(0, 1)), Some(&PieceData { owner: Side::Player, is_king: true }));
    assert_eq!(game.current_turn, Side::AI);
    assert_eq!(game.make_move(step(pos(7, 0), pos(6, 1))), Ok(()));
    // The new king may go back down.
    assert_eq!(
        game.get_possible_moves(pos(0, 1)),
        vec![step(pos(0, 1), pos(1, 0)), step(pos(0, 1), pos(1, 2))]
    );
    assert_eq!(game.make_move(step(pos(0, 1), pos(1, 2))), Ok(()));
    assert_eq!(game.board.get_square(&pos(1, 2)), Some(&PieceData { owner: Side::Player, is_king: true }));
}

#[test]
fn game_errors_from_board_and_move_errors() {
    assert_eq!(
        GameError::from(checkers_core::MoveError::IncorrectStartPosition),
        GameError::MoveError(checkers_core::MoveError::IncorrectStartPosition)
    );
    assert_eq!(
        GameError::from(checkers_core::BoardError::EmptySquare),
        GameError::BoardError(checkers_core::BoardError::EmptySquare)
    );
}
