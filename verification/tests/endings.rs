use connect_four::{Game, MoveError, Player};

const N: Player = Player::Nobody;
const A: Player = Player::One;
const B: Player = Player::Two;

const DRAWN_GAME: [usize; 42] = [
    4, 3, 6, 0, 1, 4, 5, 5, 1, 1, 5, 0, 1, 6, 0, 1, 5, 5, 1, 0, 4, 6, 3, 2, 6, 6, 0, 4, 6, 5, 2, 0,
    4, 2, 4, 2, 2, 2, 3, 3, 3, 3,
];

const WON_ON_LAST_CELL: [usize; 42] = [
    4, 5, 6, 4, 4, 4, 3, 4, 1, 2, 3, 2, 5, 3, 0, 6, 1, 1, 4, 6, 0, 2, 2, 3, 0, 5, 6, 0, 3, 1, 1, 0,
    0, 5, 3, 6, 1, 2, 6, 2, 5, 5,
];

fn game_after(columns: &[usize]) -> Game {
    let mut game = Game::default();
    for column in columns {
        assert!(!game.is_finished());
        assert_eq!(game.play_move(*column), Ok(()));
    }
    game
}

#[test]
fn four_stacked_in_column_zero_win_on_the_seventh_move() {
    let mut game = Game::default();
    for column in [0, 1, 0, 1, 0, 1] {
        assert_eq!(game.play_move(column), Ok(()));
        assert!(!game.is_finished());
        assert_eq!(game.winner(), N);
    }
    assert_eq!(game.play_move(0), Ok(()));
    assert!(game.is_finished());
    assert_eq!(game.winner(), A);
    assert_eq!(game.move_count(), 7);
    assert_eq!(game.current_player(), A);
    assert_eq!(
        *game.board(),
        [
            [N, N, N, N, N, N, N],
            [N, N, N, N, N, N, N],
            [A, N, N, N, N, N, N],
            [A, B, N, N, N, N, N],
            [A, B, N, N, N, N, N],
            [A, B, N, N, N, N, N],
        ]
    );
}

#[test]
fn four_in_the_bottom_row_win() {
    let game = game_after(&[0, 0, 1, 1, 2, 2, 3]);
    assert!(game.is_finished());
    assert_eq!(game.winner(), A);
    assert_eq!(game.move_count(), 7);
    assert_eq!(game.current_player(), A);
    assert_eq!(game.board()[5], [A, A, A, A, N, N, N]);
    assert_eq!(game.board()[4], [B, B, B, N, N, N, N]);
}

#[test]
fn four_on_the_rising_diagonal_win() {
    let game = game_after(&[0, 1, 1, 2, 2, 3, 2, 3, 3, 6, 3]);
    assert!(game.is_finished());
    assert_eq!(game.winner(), A);
    assert_eq!(game.move_count(), 11);
    assert_eq!(
        *game.board(),
        [
            [N, N, N, N, N, N, N],
            [N, N, N, N, N, N, N],
            [N, N, N, A, N, N, N],
            [N, N, A, A, N, N, N],
            [N, A, A, B, N, N, N],
            [A, B, B, B, N, N, B],
        ]
    );
}

#[test]
fn four_on_the_falling_diagonal_win() {
    let game = game_after(&[3, 2, 2, 1, 1, 0, 1, 0, 0, 6, 0]);
    assert!(game.is_finished());
    assert_eq!(game.winner(), A);
    assert_eq!(game.move_count(), 11);
    assert_eq!(
        *game.board(),
        [
            [N, N, N, N, N, N, N],
            [N, N, N, N, N, N, N],
            [A, N, N, N, N, N, N],
            [A, A, N, N, N, N, N],
            [B, A, A, N, N, N, N],
            [B, B, B, A, N, N, B],
        ]
    );
}

#[test]
fn second_player_can_win() {
    let game = game_after(&[0, 1, 0, 1, 0, 1, 2, 1]);
    assert!(game.is_finished());
    assert_eq!(game.winner(), B);
    assert_eq!(game.move_count(), 8);
    assert_eq!(game.current_player(), B);
}

#[test]
fn three_in_a_row_do_not_win() {
    let game = game_after(&[0, 0, 1, 1, 2, 2]);
    assert!(!game.is_finished());
    assert_eq!(game.winner(), N);
    assert_eq!(game.calculate_winner(), N);
    assert_eq!(game.current_player(), A);
}

#[test]
fn four_in_a_line_with_a_gap_do_not_win() {
    let game = game_after(&[0, 0, 1, 1, 3, 3, 4, 4]);
    assert_eq!(game.board()[5], [A, A, N, A, A, N, N]);
    assert!(!game.is_finished());
    assert_eq!(game.winner(), N);
}

#[test]
fn finished_game_refuses_every_move() {
    let mut game = game_after(&[0, 1, 0, 1, 0, 1, 0]);
    let before = *game.board();
    for column in [0, 1, 2, 6, 7, 100, usize::MAX] {
        assert_eq!(game.play_move(column), Err(MoveError::GameFinished));
        assert_eq!(*game.board(), before);
        assert_eq!(game.move_count(), 7);
        assert_eq!(game.current_player(), A);
        assert!(game.is_finished());
        assert_eq!(game.winner(), A);
    }
}

#[test]
fn full_board_without_a_line_is_a_draw() {
    let mut game = Game::default();
    for (made, column) in DRAWN_GAME.iter().enumerate() {
        assert!(!game.is_finished());
        assert_eq!(game.winner(), N);
        assert_eq!(game.current_player(), if made % 2 == 0 { A } else { B });
        assert_eq!(game.play_move(*column), Ok(()));
    }
    assert!(game.is_finished());
    assert_eq!(game.winner(), N);
    assert_eq!(game.calculate_winner(), N);
    assert_eq!(game.move_count(), 42);
    assert_eq!(game.current_player(), B);
    assert_eq!(
        *game.board(),
        [
            [B, A, B, B, A, B, A],
            [A, B, A, A, A, B, B],
            [B, A, B, B, B, A, A],
            [A, B, B, A, A, A, B],
            [B, A, A, A, B, B, B],
            [B, A, B, B, A, A, A],
        ]
    );
}

#[test]
fn drawn_game_refuses_further_moves_as_finished() {
    let mut game = game_after(&DRAWN_GAME);
    let before = *game.board();
    assert_eq!(game.play_move(0), Err(MoveError::GameFinished));
    assert_eq!(game.play_move(7), Err(MoveError::GameFinished));
    assert_eq!(*game.board(), before);
    assert_eq!(game.move_count(), 42);
    assert_eq!(game.winner(), N);
    assert!(game.is_finished());
}

#[test]
fn line_completed_on_the_last_cell_is_a_win() {
    let game = game_after(&WON_ON_LAST_CELL);
    assert!(game.is_finished());
    assert_eq!(game.winner(), B);
    assert_eq!(game.move_count(), 42);
    assert_eq!(game.current_player(), B);
    assert_eq!(
        *game.board(),
        [
            [A, A, B, A, A, B, A],
            [B, A, B, A, B, A, B],
            [B, B, A, B, B, B, A],
            [A, B, B, B, A, B, B],
            [A, A, B, A, B, A, B],
            [A, A, B, A, A, B, A],
        ]
    );
}

#[test]
fn calculate_winner_agrees_with_winner_throughout() {
    let mut game = Game::default();
    assert_eq!(game.calculate_winner(), N);
    for column in [0, 1, 1, 2, 2, 3, 2, 3, 3, 6, 3] {
        assert_eq!(game.play_move(column), Ok(()));
        assert_eq!(game.calculate_winner(), game.winner());
    }
    assert_eq!(game.calculate_winner(), A);
}
