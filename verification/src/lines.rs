//! Four in a row: what a winning line is, which one a scan of the board meets
//! first, and the scan itself.

use vstd::prelude::*;
use vstd::set_lib::*;
use crate::grid::{
    cells_of, count_of, grid_of, in_bounds, lemma_counts, Board, Grid, BOARD_HEIGHT, BOARD_WIDTH,
};
use crate::player::Player;

verus! {

/// The step, as (rows, columns), of each of the four directions in which a
/// line is looked for: 0 runs right, 1 runs down, 2 runs down and right,
/// 3 runs up and right.
pub open spec fn step_of(d: int) -> (int, int) {
    if d == 0 {
        (0, 1)
    } else if d == 1 {
        (1, 0)
    } else if d == 2 {
        (1, 1)
    } else {
        (-1, 1)
    }
}

/// Four cells of one owner lie on the board in direction `d`, the first of
/// them at row `r`, column `c`.
pub open spec fn line_at(g: Grid, r: int, c: int, d: int) -> bool {
    let (dr, dc) = step_of(d);
    &&& 0 <= d < 4
    &&& in_bounds(r, c)
    &&& in_bounds(r + 3 * dr, c + 3 * dc)
    &&& g[r][c] != Player::Nobody
    &&& g[r + dr][c + dc] == g[r][c]
    &&& g[r + 2 * dr][c + 2 * dc] == g[r][c]
    &&& g[r + 3 * dr][c + 3 * dc] == g[r][c]
}

/// Some line of four lies on the board.
pub open spec fn has_line(g: Grid) -> bool {
    exists|r: int, c: int, d: int| line_at(g, r, c, d)
}

/// The place of a start cell and a direction in the order of the scan: cells
/// row by row from the top left, and at each cell the four directions in turn.
pub open spec fn scan_position(r: int, c: int, d: int) -> int {
    (r * 7 + c) * 4 + d
}

/// A line starts at the cell and in the direction that come `k`-th in the scan.
pub open spec fn line_at_position(g: Grid, k: int) -> bool {
    line_at(g, k / 28, (k / 4) % 7, k % 4)
}

/// The owner of the first line that the scan meets from its `k`-th place
/// onward, or `Nobody` when there is none.
pub open spec fn first_line_from(g: Grid, k: int) -> Player
    decreases 168 - k,
{
    if k < 0 || k >= 168 {
        Player::Nobody
    } else if line_at_position(g, k) {
        g[k / 28][(k / 4) % 7]
    } else {
        first_line_from(g, k + 1)
    }
}

/// The owner of the first line that a full scan meets, or `Nobody` when the
/// board holds no line.
pub open spec fn first_line_owner(g: Grid) -> Player {
    first_line_from(g, 0)
}

/// What the win detection reports for a board and a count of pieces played:
/// `Nobody` while the count is below seven, whatever the board holds, and
/// from then on the owner of the first line found.
pub open spec fn evaluation(g: Grid, move_count: int) -> Player {
    if move_count < 7 {
        Player::Nobody
    } else {
        first_line_owner(g)
    }
}

proof fn lemma_first_line_from(g: Grid, k: int)
    requires
        0 <= k <= 168,
    ensures
        first_line_from(g, k) == Player::Nobody ==> forall|j: int|
            k <= j < 168 ==> !line_at_position(g, j),
        first_line_from(g, k) != Player::Nobody ==> exists|j: int|
            {
                &&& k <= j < 168
                &&& #[trigger] line_at_position(g, j)
                &&& g[j / 28][(j / 4) % 7] == first_line_from(g, k)
                &&& forall|i: int| k <= i < j ==> !line_at_position(g, i)
            },
    decreases 168 - k,
{
    if k < 168 {
        if line_at_position(g, k) {
            assert(forall|i: int| k <= i < k ==> !line_at_position(g, i));
        } else {
            lemma_first_line_from(g, k + 1);
            if first_line_from(g, k) != Player::Nobody {
                let j = choose|j: int|
                    {
                        &&& k + 1 <= j < 168
                        &&& #[trigger] line_at_position(g, j)
                        &&& g[j / 28][(j / 4) % 7] == first_line_from(g, k + 1)
                        &&& forall|i: int| k + 1 <= i < j ==> !line_at_position(g, i)
                    };
                assert forall|i: int| k <= i < j implies !line_at_position(g, i) by {}
            }
        }
    }
}

/// The scan reports `Nobody` exactly when the board holds no line.
pub proof fn lemma_no_line_no_owner(g: Grid)
    ensures
        first_line_owner(g) == Player::Nobody <==> !has_line(g),
{
    lemma_first_line_from(g, 0);
    if first_line_owner(g) == Player::Nobody {
        assert forall|r: int, c: int, d: int| !line_at(g, r, c, d) by {
            if line_at(g, r, c, d) {
                let k = scan_position(r, c, d);
                assert(k / 28 == r && (k / 4) % 7 == c && k % 4 == d);
                assert(line_at_position(g, k));
            }
        }
    } else {
        lemma_first_line_owner_has_line(g);
    }
}

/// Whoever the scan reports owns a line on the board.
pub proof fn lemma_first_line_owner_has_line(g: Grid)
    ensures
        first_line_owner(g) != Player::Nobody ==> exists|r: int, c: int, d: int| #[trigger]
            line_at(g, r, c, d) && g[r][c] == first_line_owner(g),
{
    lemma_first_line_from(g, 0);
    if first_line_owner(g) != Player::Nobody {
        let j = choose|j: int|
            0 <= j < 168 && #[trigger] line_at_position(g, j) && g[j / 28][(j / 4) % 7]
                == first_line_owner(g);
        assert(line_at(g, j / 28, (j / 4) % 7, j % 4));
    }
}

/// The scan reports the owner of the line before which, in scan order, no
/// line starts.
pub proof fn lemma_first_line_is_first(g: Grid, r: int, c: int, d: int)
    requires
        line_at(g, r, c, d),
        forall|r2: int, c2: int, d2: int|
            scan_position(r2, c2, d2) < scan_position(r, c, d) ==> !#[trigger] line_at(
                g,
                r2,
                c2,
                d2,
            ),
    ensures
        first_line_owner(g) == g[r][c],
{
    lemma_first_line_from(g, 0);
    let k = scan_position(r, c, d);
    assert(0 <= k < 168);
    assert(k / 28 == r && (k / 4) % 7 == c && k % 4 == d);
    assert(line_at_position(g, k));
    let j = choose|j: int|
        {
            &&& 0 <= j < 168
            &&& #[trigger] line_at_position(g, j)
            &&& g[j / 28][(j / 4) % 7] == first_line_owner(g)
            &&& forall|i: int| 0 <= i < j ==> !line_at_position(g, i)
        };
    if j < k {
        let (r2, c2, d2) = (j / 28, (j / 4) % 7, j % 4);
        assert(line_at(g, r2, c2, d2));
        assert(scan_position(r2, c2, d2) == j);
    }
}

/// The owner of a line holds at least four cells.
pub proof fn lemma_line_needs_four(g: Grid, r: int, c: int, d: int)
    requires
        line_at(g, r, c, d),
    ensures
        count_of(g, g[r][c]) >= 4,
{
    let (dr, dc) = step_of(d);
    let p = g[r][c];
    let k0 = r * 7 + c;
    let k1 = (r + dr) * 7 + (c + dc);
    let k2 = (r + 2 * dr) * 7 + (c + 2 * dc);
    let k3 = (r + 3 * dr) * 7 + (c + 3 * dc);
    assert(k0 / 7 == r && k0 % 7 == c);
    assert(k1 / 7 == r + dr && k1 % 7 == c + dc);
    assert(k2 / 7 == r + 2 * dr && k2 % 7 == c + 2 * dc);
    assert(k3 / 7 == r + 3 * dr && k3 % 7 == c + 3 * dc);
    let four = Set::<int>::empty().insert(k0).insert(k1).insert(k2).insert(k3);
    assert(four.len() == 4);
    assert(four.subset_of(cells_of(g, p)));
    lemma_counts(g);
    assert(p == Player::One || p == Player::Two);
    lemma_len_subset(four, cells_of(g, p));
}

/// The step of a direction, as the scan walks it.
fn direction_step(dir: usize) -> (step: (isize, isize))
    requires
        dir < 4,
    ensures
        step.0 == step_of(dir as int).0,
        step.1 == step_of(dir as int).1,
{
    if dir == 0 {
        (0, 1)
    } else if dir == 1 {
        (1, 0)
    } else if dir == 2 {
        (1, 1)
    } else {
        (-1, 1)
    }
}

/// Walks from an occupied cell in one direction and tells whether the run of
/// cells of the same owner, the start cell counted, reaches four.
fn four_from(board: &Board, row: usize, col: usize, dir: usize) -> (found: bool)
    requires
        row < 6,
        col < 7,
        dir < 4,
        board[row as int][col as int] != Player::Nobody,
    ensures
        found == line_at(grid_of(*board), row as int, col as int, dir as int),
{
    let ghost g = grid_of(*board);
    let (row_step, col_step) = direction_step(dir);
    let cell = board[row][col];
    let mut run: u8 = 1;
    let mut r: isize = row as isize + row_step;
    let mut c: isize = col as isize + col_step;
    while r >= 0 && r < BOARD_HEIGHT as isize && c >= 0 && c < BOARD_WIDTH as isize
        invariant
            g == grid_of(*board),
            row < 6,
            col < 7,
            dir < 4,
            row_step == step_of(dir as int).0,
            col_step == step_of(dir as int).1,
            cell == g[row as int][col as int],
            cell != Player::Nobody,
            1 <= run <= 3,
            run == 1 ==> r == row + row_step && c == col + col_step,
            run == 2 ==> r == row + 2 * row_step && c == col + 2 * col_step,
            run == 3 ==> r == row + 3 * row_step && c == col + 3 * col_step,
            run >= 2 ==> g[row + row_step][col + col_step] == cell,
            run >= 3 ==> g[row + 2 * row_step][col + 2 * col_step] == cell,
        decreases 4 - run,
    {
        if board[r as usize][c as usize] == cell {
            run += 1;
            if run == 4 {
                return true;
            }
        } else {
            return false;
        }
        r += row_step;
        c += col_step;
    }
    false
}

/// Some line starts at row `r`, column `c`.
pub open spec fn line_starts_at(g: Grid, r: int, c: int) -> bool {
    line_at(g, r, c, 0) || line_at(g, r, c, 1) || line_at(g, r, c, 2) || line_at(g, r, c, 3)
}

/// Where the scan stands at a cell: it reports the owner of the cell when a
/// line starts there, and otherwise goes on to the next cell.
proof fn lemma_scan_cell(g: Grid, r: int, c: int)
    requires
        in_bounds(r, c),
    ensures
        line_starts_at(g, r, c) ==> first_line_from(g, scan_position(r, c, 0)) == g[r][c],
        !line_starts_at(g, r, c) ==> first_line_from(g, scan_position(r, c, 0))
            == first_line_from(g, scan_position(r, c, 0) + 4),
{
    let k = scan_position(r, c, 0);
    assert(0 <= k && k + 3 < 168);
    assert(k / 28 == r && (k / 4) % 7 == c && k % 4 == 0);
    assert((k + 1) / 28 == r && ((k + 1) / 4) % 7 == c && (k + 1) % 4 == 1);
    assert((k + 2) / 28 == r && ((k + 2) / 4) % 7 == c && (k + 2) % 4 == 2);
    assert((k + 3) / 28 == r && ((k + 3) / 4) % 7 == c && (k + 3) % 4 == 3);
    assert(line_at_position(g, k) == line_at(g, r, c, 0));
    assert(line_at_position(g, k + 1) == line_at(g, r, c, 1));
    assert(line_at_position(g, k + 2) == line_at(g, r, c, 2));
    assert(line_at_position(g, k + 3) == line_at(g, r, c, 3));
    reveal_with_fuel(first_line_from, 5);
}

/// Probes the four directions from one cell.
fn line_from(board: &Board, row: usize, col: usize) -> (found: bool)
    requires
        row < 6,
        col < 7,
    ensures
        found == line_starts_at(grid_of(*board), row as int, col as int),
{
    if board[row][col] == Player::Nobody {
        return false;
    }
    let mut dir: usize = 0;
    while dir < 4
        invariant
            row < 6,
            col < 7,
            dir <= 4,
            board[row as int][col as int] != Player::Nobody,
            forall|d: int| 0 <= d < dir ==> !line_at(grid_of(*board), row as int, col as int, d),
        decreases 4 - dir,
    {
        if four_from(board, row, col, dir) {
            return true;
        }
        dir += 1;
    }
    false
}

/// Looks for a winner on a board on which `move_count` pieces were played.
///
/// With a count below seven the board is not looked at, whatever it holds,
/// and `Nobody` is reported. Otherwise every occupied cell is visited row by
/// row from the top left and probed to the right, downward, and along both
/// diagonals; the owner of the first run of four that is met is reported.
pub fn evaluate(board: &Board, move_count: u8) -> (owner: Player)
    ensures
        owner == evaluation(grid_of(*board), move_count as int),
{
    if move_count < 7 {
        return Player::Nobody;
    }
    let ghost g = grid_of(*board);
    let mut row: usize = 0;
    while row < BOARD_HEIGHT
        invariant
            move_count >= 7,
            g == grid_of(*board),
            row <= 6,
            first_line_owner(g) == first_line_from(g, scan_position(row as int, 0, 0)),
        decreases 6 - row,
    {
        let mut col: usize = 0;
        while col < BOARD_WIDTH
            invariant
                move_count >= 7,
                g == grid_of(*board),
                row < 6,
                col <= 7,
                first_line_owner(g) == first_line_from(g, scan_position(row as int, col as int, 0)),
            decreases 7 - col,
        {
            proof {
                lemma_scan_cell(g, row as int, col as int);
            }
            if line_from(board, row, col) {
                return board[row][col];
            }
            col += 1;
        }
        row += 1;
    }
    Player::Nobody
}

} // verus!
