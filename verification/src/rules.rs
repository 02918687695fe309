//! The rules of the game over its mathematical state: which moves are
//! refused, what an accepted move does, what holds of every state that play
//! can reach, and the laws that follow.

use vstd::prelude::*;
use crate::grid::{
    cell_at, column_full, count_of, empty_grid, in_bounds, landing_row, lemma_counts,
    lemma_empty_grid, lemma_full_grid, lemma_landing_row, lemma_place_counts, lemma_place_stacked,
    occupied_count, place, stacked, well_shaped, Grid,
};
use crate::lines::{
    evaluation, first_line_owner, has_line, lemma_first_line_owner_has_line,
    lemma_line_needs_four, lemma_no_line_no_owner, line_at, step_of,
};
use crate::player::{MoveError, Player};

verus! {

/// The state of a game.
pub struct GameState {
    /// The cells, rows from top to bottom.
    pub board: Grid,
    /// How many pieces were placed so far.
    pub move_count: nat,
    /// Who moves next while the game runs; who moved last once it has ended.
    pub current_player: Player,
    /// Whether the game has ended, by a win or by a full board.
    pub is_finished: bool,
    /// Who won, or `Nobody` while the game runs and after a draw.
    pub winner: Player,
}

/// The state in which every game starts.
pub open spec fn initial() -> GameState {
    GameState {
        board: empty_grid(),
        move_count: 0,
        current_player: Player::One,
        is_finished: false,
        winner: Player::Nobody,
    }
}

/// Who places the piece number `n`, counting from 0: `One` opens, and the
/// players take turns.
pub open spec fn mover(n: int) -> Player {
    if n % 2 == 0 {
        Player::One
    } else {
        Player::Two
    }
}

/// Why a move into `column` is refused in state `s`, if it is. The checks are
/// made in this order: the game has ended, the column is off the board, the
/// column is full.
pub open spec fn move_error(s: GameState, column: int) -> Option<MoveError> {
    if s.is_finished {
        Some(MoveError::GameFinished)
    } else if !(0 <= column < 7) {
        Some(MoveError::InvalidColumn)
    } else if column_full(s.board, column) {
        Some(MoveError::ColumnFull)
    } else {
        None
    }
}

/// The state after a move into `column` was attempted in state `s`.
///
/// A refused move changes nothing. An accepted one drops the current player's
/// piece to the lowest empty cell of the column and counts it. If the board
/// then holds a line, its owner has won and the game ends; if the board is
/// full, the game ends without a winner; in both cases the turn stays.
/// Otherwise the turn passes to the other player.
pub open spec fn after_move(s: GameState, column: int) -> GameState {
    if move_error(s, column) is Some {
        s
    } else {
        let board = place(s.board, landing_row(s.board, column), column, s.current_player);
        let move_count = s.move_count + 1;
        let found = first_line_owner(board);
        if found != Player::Nobody {
            GameState {
                board,
                move_count,
                current_player: s.current_player,
                is_finished: true,
                winner: found,
            }
        } else if move_count == 42 {
            GameState {
                board,
                move_count,
                current_player: s.current_player,
                is_finished: true,
                winner: s.winner,
            }
        } else {
            GameState {
                board,
                move_count,
                current_player: s.current_player.opponent(),
                is_finished: false,
                winner: s.winner,
            }
        }
    }
}

/// What holds of every state that play can reach.
pub open spec fn well_formed(s: GameState) -> bool {
    &&& well_shaped(s.board)
    &&& stacked(s.board)
    &&& s.move_count == occupied_count(s.board)
    &&& count_of(s.board, Player::One) == (s.move_count + 1) / 2
    &&& count_of(s.board, Player::Two) == s.move_count / 2
    &&& s.winner == first_line_owner(s.board)
    &&& forall|r: int, c: int, d: int| #[trigger]
        line_at(s.board, r, c, d) ==> s.board[r][c] == s.winner
    &&& s.is_finished == (s.winner != Player::Nobody || s.move_count == 42)
    &&& s.current_player == if s.is_finished {
        mover(s.move_count - 1)
    } else {
        mover(s.move_count as int)
    }
}

/// The state after attempting moves into the given columns from state `s`.
pub open spec fn after_all(s: GameState, columns: Seq<int>) -> GameState
    decreases columns.len(),
{
    if columns.len() == 0 {
        s
    } else {
        after_move(after_all(s, columns.drop_last()), columns.last())
    }
}

/// The state reached from the start by attempting moves into the given
/// columns, one after another.
pub open spec fn replay(columns: Seq<int>) -> GameState {
    after_all(initial(), columns)
}

/// Every move of the sequence, attempted in turn from the start, is accepted.
pub open spec fn all_accepted(columns: Seq<int>) -> bool
    decreases columns.len(),
{
    columns.len() == 0 || (all_accepted(columns.drop_last()) && move_error(
        replay(columns.drop_last()),
        columns.last(),
    ) is None)
}

/// The start state is well formed.
pub proof fn lemma_initial_well_formed()
    ensures
        well_formed(initial()),
{
    lemma_empty_grid();
    lemma_no_line_no_owner(empty_grid());
    let g = empty_grid();
    assert forall|r: int, c: int, d: int| !line_at(g, r, c, d) by {
        if line_at(g, r, c, d) {
            assert(g[r][c] == Player::Nobody);
        }
    }
}

/// A well-formed state holds at most 42 pieces, and while it is not finished
/// it holds fewer, has no winner and no line, and the player to move is the
/// one whose turn the count gives.
pub proof fn lemma_running_game(s: GameState)
    requires
        well_formed(s),
    ensures
        s.move_count <= 42,
        !s.is_finished ==> s.move_count < 42,
        !s.is_finished ==> s.winner == Player::Nobody && !has_line(s.board),
        !s.is_finished ==> s.current_player == mover(s.move_count as int),
        s.is_finished ==> s.move_count >= 7,
{
    lemma_counts(s.board);
    lemma_no_line_no_owner(s.board);
    if s.winner != Player::Nobody {
        let (r, c, d) = choose|r: int, c: int, d: int| line_at(s.board, r, c, d);
        lemma_line_needs_four(s.board, r, c, d);
    }
}

/// A piece placed on a board without a line can only complete lines of its
/// own: every line on the new board belongs to the player who moved.
pub proof fn lemma_new_lines_belong_to_mover(g: Grid, row: int, col: int, p: Player)
    requires
        well_shaped(g),
        in_bounds(row, col),
        g[row][col] == Player::Nobody,
        p != Player::Nobody,
        !has_line(g),
    ensures
        forall|r: int, c: int, d: int| #[trigger]
            line_at(place(g, row, col, p), r, c, d) ==> place(g, row, col, p)[r][c] == p,
{
    let h = place(g, row, col, p);
    lemma_place_counts(g, row, col, p);
    assert forall|r: int, c: int, d: int| #[trigger] line_at(h, r, c, d) implies h[r][c] == p by {
        let (dr, dc) = step_of(d);
        let on_line = (r == row && c == col) || (r + dr == row && c + dc == col) || (r + 2 * dr
            == row && c + 2 * dc == col) || (r + 3 * dr == row && c + 3 * dc == col);
        if !on_line {
            assert(h[r][c] == g[r][c]);
            assert(h[r + dr][c + dc] == g[r + dr][c + dc]);
            assert(h[r + 2 * dr][c + 2 * dc] == g[r + 2 * dr][c + 2 * dc]);
            assert(h[r + 3 * dr][c + 3 * dc] == g[r + 3 * dr][c + 3 * dc]);
            assert(line_at(g, r, c, d));
        }
    }
}

/// Whatever move is attempted in a well-formed state, the state that follows
/// is well formed.
pub proof fn lemma_move_keeps_well_formed(s: GameState, column: int)
    requires
        well_formed(s),
    ensures
        well_formed(after_move(s, column)),
{
    if move_error(s, column) is None {
        let g = s.board;
        let p = s.current_player;
        let row = landing_row(g, column);
        let h = place(g, row, column, p);
        lemma_running_game(s);
        lemma_landing_row(g, column);
        lemma_place_counts(g, row, column, p);
        lemma_place_stacked(g, column, p);
        lemma_new_lines_belong_to_mover(g, row, column, p);
        lemma_no_line_no_owner(h);
        lemma_first_line_owner_has_line(h);
        let found = first_line_owner(h);
        if found != Player::Nobody {
            let (r, c, d) = choose|r: int, c: int, d: int| #[trigger]
                line_at(h, r, c, d) && h[r][c] == found;
            assert(found == p);
        } else {
            assert forall|r: int, c: int, d: int| #[trigger] line_at(h, r, c, d) implies h[r][c]
                == s.winner by {
                assert(has_line(h));
            }
        }
    }
}

/// However many moves are attempted from a well-formed state, the state
/// that follows is well formed.
pub proof fn lemma_moves_keep_well_formed(s: GameState, columns: Seq<int>)
    requires
        well_formed(s),
    ensures
        well_formed(after_all(s, columns)),
    decreases columns.len(),
{
    if columns.len() > 0 {
        lemma_moves_keep_well_formed(s, columns.drop_last());
        lemma_move_keeps_well_formed(after_all(s, columns.drop_last()), columns.last());
    }
}

/// The count of pieces played equals the number of occupied cells after every
/// sequence of attempted moves, and each state so reached is well formed.
pub proof fn lemma_replay_well_formed(columns: Seq<int>)
    ensures
        well_formed(replay(columns)),
        replay(columns).move_count == occupied_count(replay(columns).board),
{
    lemma_initial_well_formed();
    lemma_moves_keep_well_formed(initial(), columns);
}

/// A move into a full column of a running game is refused as `ColumnFull` and
/// changes nothing.
pub proof fn lemma_full_column_refused(s: GameState, column: int)
    requires
        !s.is_finished,
        0 <= column < 7,
        column_full(s.board, column),
    ensures
        move_error(s, column) == Some(MoveError::ColumnFull),
        after_move(s, column) == s,
{
}

/// A move into a column that is off the board is refused by a running game as
/// `InvalidColumn` and changes nothing.
pub proof fn lemma_invalid_column_refused(s: GameState, column: int)
    requires
        !s.is_finished,
        column < 0 || column >= 7,
    ensures
        move_error(s, column) == Some(MoveError::InvalidColumn),
        after_move(s, column) == s,
{
}

/// Once a game has ended, every move is refused as `GameFinished` and changes
/// nothing, however many are attempted.
pub proof fn lemma_finished_game_refuses(s: GameState, columns: Seq<int>)
    requires
        s.is_finished,
    ensures
        forall|i: int| 0 <= i < columns.len() ==> move_error(s, #[trigger] columns[i]) == Some(
            MoveError::GameFinished,
        ),
        forall|i: int| 0 <= i < columns.len() ==> after_move(s, #[trigger] columns[i]) == s,
        after_all(s, columns) == s,
    decreases columns.len(),
{
    if columns.len() > 0 {
        lemma_finished_game_refuses(s, columns.drop_last());
    }
}

/// After a sequence of moves that were all accepted, as many pieces lie on
/// the board as moves were made.
pub proof fn lemma_accepted_moves_count(columns: Seq<int>)
    requires
        all_accepted(columns),
    ensures
        replay(columns).move_count == columns.len(),
    decreases columns.len(),
{
    if columns.len() > 0 {
        lemma_accepted_moves_count(columns.drop_last());
    }
}

/// The turn alternates: after N accepted moves from the start, none of which
/// ended the game, `One` is to move if N is even and `Two` if N is odd.
pub proof fn lemma_turns_alternate(columns: Seq<int>)
    requires
        all_accepted(columns),
        !replay(columns).is_finished,
    ensures
        replay(columns).current_player == (if columns.len() % 2 == 0 {
            Player::One
        } else {
            Player::Two
        }),
{
    lemma_accepted_moves_count(columns);
    lemma_replay_well_formed(columns);
}

/// An accepted move that does not end the game hands the turn from one of the
/// two players to the other.
pub proof fn lemma_turn_passes(s: GameState, column: int)
    requires
        well_formed(s),
        move_error(s, column) is None,
        !after_move(s, column).is_finished,
    ensures
        s.current_player == Player::One ==> after_move(s, column).current_player == Player::Two,
        s.current_player == Player::Two ==> after_move(s, column).current_player == Player::One,
        s.current_player != Player::Nobody,
{
    lemma_running_game(s);
}

/// The move that completes four in a row wins: if a line lies on the board
/// after an accepted move, the game has ended and the winner is the owner of
/// that line, who is the player that moved.
pub proof fn lemma_four_in_a_row_wins(s: GameState, column: int, r: int, c: int, d: int)
    requires
        well_formed(s),
        move_error(s, column) is None,
        line_at(after_move(s, column).board, r, c, d),
    ensures
        after_move(s, column).is_finished,
        after_move(s, column).winner == after_move(s, column).board[r][c],
        after_move(s, column).winner == s.current_player,
        after_move(s, column).current_player == s.current_player,
{
    lemma_running_game(s);
    lemma_move_keeps_well_formed(s, column);
    lemma_landing_row(s.board, column);
    lemma_new_lines_belong_to_mover(
        s.board,
        landing_row(s.board, column),
        column,
        s.current_player,
    );
    lemma_no_line_no_owner(after_move(s, column).board);
}

/// The move that fills the last cell without completing a line ends the game
/// in a draw.
pub proof fn lemma_full_board_without_line_is_draw(s: GameState, column: int)
    requires
        well_formed(s),
        move_error(s, column) is None,
        !has_line(after_move(s, column).board),
        forall|i: int| 0 <= i < 42 ==> cell_at(after_move(s, column).board, i) != Player::Nobody,
    ensures
        after_move(s, column).is_finished,
        after_move(s, column).winner == Player::Nobody,
        after_move(s, column).move_count == 42,
{
    lemma_running_game(s);
    lemma_move_keeps_well_formed(s, column);
    lemma_full_grid(after_move(s, column).board);
    lemma_no_line_no_owner(after_move(s, column).board);
}

/// A game ends exactly when a line lies on the board or no cell is empty, and
/// it has a winner exactly when a line lies on the board.
pub proof fn lemma_end_of_game(s: GameState)
    requires
        well_formed(s),
    ensures
        s.winner != Player::Nobody <==> has_line(s.board),
        s.is_finished <==> has_line(s.board) || (forall|i: int|
            0 <= i < 42 ==> cell_at(s.board, i) != Player::Nobody),
{
    lemma_no_line_no_owner(s.board);
    lemma_full_grid(s.board);
}

/// A piece, once placed, stays where it is and keeps its owner, and a game
/// that has ended stays ended.
pub proof fn lemma_moves_only_add(s: GameState, column: int, r: int, c: int)
    requires
        well_formed(s),
        in_bounds(r, c),
    ensures
        s.board[r][c] != Player::Nobody ==> after_move(s, column).board[r][c] == s.board[r][c],
        s.is_finished ==> after_move(s, column).is_finished,
        after_move(s, column).move_count >= s.move_count,
{
    if move_error(s, column) is None {
        lemma_running_game(s);
        lemma_landing_row(s.board, column);
        lemma_place_counts(s.board, landing_row(s.board, column), column, s.current_player);
    }
}

/// Skipping the scan while fewer than seven pieces lie on the board loses
/// nothing: in a well-formed state the detection reports the first line on
/// the board, if there is one.
pub proof fn lemma_evaluation_finds_first_line(s: GameState)
    requires
        well_formed(s),
    ensures
        evaluation(s.board, s.move_count as int) == first_line_owner(s.board),
        evaluation(s.board, s.move_count as int) == s.winner,
{
    lemma_no_line_no_owner(s.board);
    if s.winner != Player::Nobody {
        let (r, c, d) = choose|r: int, c: int, d: int| line_at(s.board, r, c, d);
        lemma_line_needs_four(s.board, r, c, d);
    }
}

} // verus!
