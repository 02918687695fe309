//! The game as played: a board, the player to move, and whether and how the
//! game has ended.

use vstd::prelude::*;
use crate::grid::{
    empty_grid, grid_of, is_landing_row, landing_row, lemma_counts, lemma_landing_row, place, Board,
    BOARD_CELLS, BOARD_HEIGHT, BOARD_WIDTH,
};
use crate::lines::{evaluate, first_line_owner};
use crate::player::{MoveError, Player};
use crate::rules::{
    after_move, initial, lemma_evaluation_finds_first_line, lemma_initial_well_formed,
    lemma_move_keeps_well_formed, lemma_running_game, move_error, well_formed, GameState,
};

verus! {

/// A game of Connect Four.
///
/// A game starts empty with `One` to move and changes only through
/// `play_move`, so every game is in a state that play can reach.
pub struct Game {
    move_count: u8,
    current_player: Player,
    board: Board,
    is_finished: bool,
    winner: Player,
}

impl View for Game {
    type V = GameState;

    closed spec fn view(&self) -> GameState {
        GameState {
            board: grid_of(self.board),
            move_count: self.move_count as nat,
            current_player: self.current_player,
            is_finished: self.is_finished,
            winner: self.winner,
        }
    }
}

/// The row in which a piece dropped into `column` comes to rest: the lowest
/// empty cell, searched from the bottom row upward.
fn lowest_empty_row(board: &Board, column: usize) -> (found: Option<usize>)
    requires
        column < 7,
    ensures
        match found {
            Some(row) => row == landing_row(grid_of(*board), column as int),
            None => landing_row(grid_of(*board), column as int) == -1,
        },
{
    let ghost g = grid_of(*board);
    let mut row: usize = BOARD_HEIGHT;
    while row > 0
        invariant
            g == grid_of(*board),
            column < 7,
            row <= 6,
            forall|r: int| row <= r < 6 ==> (#[trigger] g[r])[column as int] != Player::Nobody,
        decreases row,
    {
        row -= 1;
        assert(g[row as int][column as int] == board[row as int][column as int]);
        if board[row][column] == Player::Nobody {
            proof {
                assert(is_landing_row(g, column as int, row as int));
                lemma_landing_row(g, column as int);
            }
            return Some(row);
        }
    }
    proof {
        lemma_landing_row(g, column as int);
    }
    None
}

impl Game {
    #[verifier::type_invariant]
    spec fn valid(self) -> bool {
        well_formed(self@)
    }

    /// A new game: an empty board, no piece played, `One` to move.
    pub fn default() -> (game: Game)
        ensures
            game@ == initial(),
            well_formed(game@),
    {
        let board = [[Player::Nobody; BOARD_WIDTH]; BOARD_HEIGHT];
        proof {
            assert(grid_of(board) =~~= empty_grid());
            lemma_initial_well_formed();
        }
        Game {
            move_count: 0,
            current_player: Player::One,
            board,
            is_finished: false,
            winner: Player::Nobody,
        }
    }

    /// How many pieces were placed so far.
    pub fn move_count(&self) -> (count: u8)
        ensures
            count == self@.move_count,
            count <= 42,
    {
        proof {
            use_type_invariant(self);
            lemma_counts(self@.board);
        }
        self.move_count
    }

    /// Who moves next while the game runs; who moved last once it has ended.
    pub fn current_player(&self) -> (player: Player)
        ensures
            player == self@.current_player,
            player != Player::Nobody,
    {
        proof {
            use_type_invariant(self);
        }
        self.current_player
    }

    /// The cells of the board, rows from top to bottom.
    pub fn board(&self) -> (board: &Board)
        ensures
            grid_of(*board) == self@.board,
    {
        &self.board
    }

    /// Whether the game has ended.
    pub fn is_finished(&self) -> (finished: bool)
        ensures
            finished == self@.is_finished,
    {
        self.is_finished
    }

    /// Who won, or `Nobody` while the game runs and after a draw.
    pub fn winner(&self) -> (winner: Player)
        ensures
            winner == self@.winner,
    {
        self.winner
    }

    /// Looks for four in a row on the board and reports its owner, or `Nobody`
    /// when there is none. Of several lines the one that a scan row by row
    /// from the top left meets first decides.
    pub fn calculate_winner(&self) -> (owner: Player)
        ensures
            well_formed(self@),
            owner == first_line_owner(self@.board),
            owner == self@.winner,
    {
        proof {
            use_type_invariant(self);
            lemma_evaluation_finds_first_line(self@);
        }
        evaluate(&self.board, self.move_count)
    }

    /// Drops the current player's piece into `column`, counted from 0 at the
    /// left.
    ///
    /// The move is refused, and the game left as it was, when the game has
    /// ended, when the column is not on the board, or when the column is full,
    /// tested in this order. Otherwise the piece comes to rest on the lowest
    /// empty cell of the column. Four in a row ends the game with the mover as
    /// winner, a full board ends it in a draw, and otherwise the turn passes
    /// to the other player.
    pub fn play_move(&mut self, column: usize) -> (result: Result<(), MoveError>)
        ensures
            well_formed(old(self)@),
            well_formed(final(self)@),
            final(self)@ == after_move(old(self)@, column as int),
            match move_error(old(self)@, column as int) {
                Some(error) => result == Err::<(), MoveError>(error),
                None => result == Ok::<(), MoveError>(()),
            },
    {
        proof {
            use_type_invariant(&*self);
            lemma_running_game(self@);
            lemma_move_keeps_well_formed(self@, column as int);
        }
        if self.is_finished {
            return Err(MoveError::GameFinished);
        }
        if column >= BOARD_WIDTH {
            return Err(MoveError::InvalidColumn);
        }
        proof {
            lemma_landing_row(self@.board, column as int);
        }
        let row = match lowest_empty_row(&self.board, column) {
            Some(row) => row,
            None => {
                return Err(MoveError::ColumnFull);
            },
        };
        let mut board = self.board;
        board[row][column] = self.current_player;
        let move_count = self.move_count + 1;
        assert(grid_of(board) =~~= place(
            self@.board,
            row as int,
            column as int,
            self.current_player,
        ));
        proof {
            lemma_evaluation_finds_first_line(after_move(self@, column as int));
        }
        let found = evaluate(&board, move_count);
        if found != Player::Nobody {
            *self = Game {
                move_count,
                current_player: self.current_player,
                board,
                is_finished: true,
                winner: found,
            };
        } else if move_count >= BOARD_CELLS {
            *self = Game {
                move_count,
                current_player: self.current_player,
                board,
                is_finished: true,
                winner: self.winner,
            };
        } else {
            let next = match self.current_player {
                Player::One => Player::Two,
                _ => Player::One,
            };
            *self = Game {
                move_count,
                current_player: next,
                board,
                is_finished: false,
                winner: self.winner,
            };
        }
        Ok(())
    }
}

} // verus!
