//! The board as a mathematical object: a sequence of six rows of seven cells,
//! row 0 at the top, together with what it means to count pieces and to drop
//! one into a column.

use vstd::prelude::*;
use vstd::set_lib::*;
use crate::player::Player;

verus! {

/// Number of columns.
pub const BOARD_WIDTH: usize = 7;

/// Number of rows.
pub const BOARD_HEIGHT: usize = 6;

/// Number of cells on the board.
pub const BOARD_CELLS: u8 = 42;

/// The board as stored: rows from top to bottom, cells from left to right.
pub type Board = [[Player; BOARD_WIDTH]; BOARD_HEIGHT];

/// The board as reasoned about.
pub type Grid = Seq<Seq<Player>>;

/// The grid that a stored board stands for.
pub open spec fn grid_of(board: Board) -> Grid {
    Seq::new(6, |r: int| board[r]@)
}

/// Row `r`, column `c` lies on the board.
pub open spec fn in_bounds(r: int, c: int) -> bool {
    0 <= r < 6 && 0 <= c < 7
}

/// The grid has six rows of seven cells each.
pub open spec fn well_shaped(g: Grid) -> bool {
    &&& g.len() == 6
    &&& forall|r: int| 0 <= r < 6 ==> (#[trigger] g[r]).len() == 7
}

/// The grid with no piece on it.
pub open spec fn empty_grid() -> Grid {
    Seq::new(6, |r: int| Seq::new(7, |c: int| Player::Nobody))
}

/// The grid `g` with the cell at row `r`, column `c` set to `p`.
pub open spec fn place(g: Grid, r: int, c: int, p: Player) -> Grid {
    g.update(r, g[r].update(c, p))
}

/// The cell with running number `i`, counting row by row from the top left.
pub open spec fn cell_at(g: Grid, i: int) -> Player {
    g[i / 7][i % 7]
}

/// The running numbers of the cells that hold `p`.
pub open spec fn cells_of(g: Grid, p: Player) -> Set<int> {
    Set::new(|i: int| 0 <= i < 42 && cell_at(g, i) == p)
}

/// How many cells hold `p`.
pub open spec fn count_of(g: Grid, p: Player) -> nat {
    cells_of(g, p).len()
}

/// The running numbers of the cells that hold a piece.
pub open spec fn occupied_cells(g: Grid) -> Set<int> {
    Set::new(|i: int| 0 <= i < 42 && cell_at(g, i) != Player::Nobody)
}

/// How many cells hold a piece.
pub open spec fn occupied_count(g: Grid) -> nat {
    occupied_cells(g).len()
}

/// Every cell of column `c` holds a piece.
pub open spec fn column_full(g: Grid, c: int) -> bool {
    forall|r: int| 0 <= r < 6 ==> (#[trigger] g[r])[c] != Player::Nobody
}

/// Row `r` is where a piece dropped into column `c` comes to rest: the cell is
/// empty and every cell below it is taken.
pub open spec fn is_landing_row(g: Grid, c: int, r: int) -> bool {
    &&& 0 <= r < 6
    &&& g[r][c] == Player::Nobody
    &&& forall|below: int| r < below < 6 ==> (#[trigger] g[below])[c] != Player::Nobody
}

/// The lowest empty row of column `c` among rows `0..=from`, or -1 when all of
/// them are taken.
pub open spec fn lowest_empty_from(g: Grid, c: int, from: int) -> int
    decreases from + 1,
{
    if from < 0 {
        -1
    } else if g[from][c] == Player::Nobody {
        from
    } else {
        lowest_empty_from(g, c, from - 1)
    }
}

/// The row in which a piece dropped into column `c` comes to rest, or -1 when
/// the column is full.
pub open spec fn landing_row(g: Grid, c: int) -> int {
    lowest_empty_from(g, c, 5)
}

/// In every column the pieces sit on one another with no gap: below a piece
/// there is no empty cell.
pub open spec fn stacked(g: Grid) -> bool {
    forall|r: int, below: int, c: int|
        #![trigger g[r][c], g[below][c]]
        0 <= r <= below < 6 && 0 <= c < 7 && g[r][c] != Player::Nobody ==> g[below][c]
            != Player::Nobody
}

/// The landing row is -1 exactly on a full column, and is otherwise the one
/// row that `is_landing_row` describes.
pub proof fn lemma_landing_row(g: Grid, c: int)
    ensures
        -1 <= landing_row(g, c) < 6,
        landing_row(g, c) == -1 <==> column_full(g, c),
        landing_row(g, c) >= 0 ==> is_landing_row(g, c, landing_row(g, c)),
        forall|r: int| is_landing_row(g, c, r) ==> r == landing_row(g, c),
{
    lemma_lowest_empty_from(g, c, 5);
    let row = landing_row(g, c);
    if row == -1 {
        assert forall|r: int| 0 <= r < 6 implies (#[trigger] g[r])[c] != Player::Nobody by {}
    } else {
        assert(g[row][c] == Player::Nobody);
    }
    assert forall|r: int| is_landing_row(g, c, r) implies r == row by {
        if r < row {
            assert(g[row][c] == Player::Nobody);
        }
    }
}

proof fn lemma_lowest_empty_from(g: Grid, c: int, from: int)
    requires
        -1 <= from,
    ensures
        -1 <= lowest_empty_from(g, c, from) <= from,
        lowest_empty_from(g, c, from) >= 0 ==> g[lowest_empty_from(g, c, from)][c]
            == Player::Nobody,
        forall|r: int|
            lowest_empty_from(g, c, from) < r <= from ==> (#[trigger] g[r])[c] != Player::Nobody,
    decreases from + 1,
{
    if from >= 0 && g[from][c] != Player::Nobody {
        lemma_lowest_empty_from(g, c, from - 1);
    }
}

/// The empty grid is well shaped and holds no piece.
pub proof fn lemma_empty_grid()
    ensures
        well_shaped(empty_grid()),
        stacked(empty_grid()),
        occupied_count(empty_grid()) == 0,
        count_of(empty_grid(), Player::One) == 0,
        count_of(empty_grid(), Player::Two) == 0,
        forall|c: int| 0 <= c < 7 ==> landing_row(empty_grid(), c) == 5,
{
    let g = empty_grid();
    assert forall|i: int| 0 <= i < 42 implies cell_at(g, i) == Player::Nobody by {
        assert(0 <= i / 7 < 6 && 0 <= i % 7 < 7);
    }
    assert(occupied_cells(g) =~= Set::<int>::empty());
    assert(cells_of(g, Player::One) =~= Set::<int>::empty());
    assert(cells_of(g, Player::Two) =~= Set::<int>::empty());
}

/// No count exceeds the number of cells, and the pieces of the two players
/// together are the occupied cells.
pub proof fn lemma_counts(g: Grid)
    ensures
        occupied_cells(g).finite(),
        cells_of(g, Player::One).finite(),
        cells_of(g, Player::Two).finite(),
        occupied_count(g) <= 42,
        occupied_count(g) == count_of(g, Player::One) + count_of(g, Player::Two),
{
    let all = set_int_range(0, 42);
    lemma_int_range(0, 42);
    let ones = cells_of(g, Player::One);
    let twos = cells_of(g, Player::Two);
    let taken = occupied_cells(g);
    lemma_len_subset(taken, all);
    lemma_len_subset(ones, all);
    lemma_len_subset(twos, all);
    assert(ones.disjoint(twos));
    assert(ones.union(twos) =~= taken);
    lemma_set_disjoint_lens(ones, twos);
}

/// A grid whose occupied cells number 42 has no empty cell, and the other way
/// round.
pub proof fn lemma_full_grid(g: Grid)
    ensures
        occupied_count(g) == 42 <==> (forall|i: int| 0 <= i < 42 ==> cell_at(g, i)
            != Player::Nobody),
{
    let all = set_int_range(0, 42);
    lemma_int_range(0, 42);
    let taken = occupied_cells(g);
    lemma_len_subset(taken, all);
    if occupied_count(g) == 42 {
        lemma_subset_equality(taken, all);
        assert forall|i: int| 0 <= i < 42 implies cell_at(g, i) != Player::Nobody by {
            assert(all.contains(i));
        }
    }
    if forall|i: int| 0 <= i < 42 ==> cell_at(g, i) != Player::Nobody {
        assert(taken =~= all);
    }
}

/// Placing a piece on an empty cell adds one to its owner's count and to the
/// occupied count, and leaves the other player's count alone.
pub proof fn lemma_place_counts(g: Grid, r: int, c: int, p: Player)
    requires
        well_shaped(g),
        in_bounds(r, c),
        g[r][c] == Player::Nobody,
        p != Player::Nobody,
    ensures
        well_shaped(place(g, r, c, p)),
        place(g, r, c, p)[r][c] == p,
        forall|r2: int, c2: int|
            in_bounds(r2, c2) && !(r2 == r && c2 == c) ==> #[trigger] place(g, r, c, p)[r2][c2]
                == g[r2][c2],
        occupied_count(place(g, r, c, p)) == occupied_count(g) + 1,
        count_of(place(g, r, c, p), p) == count_of(g, p) + 1,
        count_of(place(g, r, c, p), p.opponent()) == count_of(g, p.opponent()),
{
    let h = place(g, r, c, p);
    let k = r * 7 + c;
    lemma_counts(g);
    assert forall|i: int| 0 <= i < 42 implies #[trigger] cell_at(h, i) == (if i == k {
        p
    } else {
        cell_at(g, i)
    }) by {
        assert(0 <= i / 7 < 6 && 0 <= i % 7 < 7);
        if i == k {
            assert(i / 7 == r && i % 7 == c);
        } else {
            assert(!(i / 7 == r && i % 7 == c));
        }
    }
    assert(cell_at(g, k) == Player::Nobody) by {
        assert(k / 7 == r && k % 7 == c);
    }
    assert(occupied_cells(h) =~= occupied_cells(g).insert(k));
    assert(cells_of(h, p) =~= cells_of(g, p).insert(k));
    assert(cells_of(h, p.opponent()) =~= cells_of(g, p.opponent()));
}

/// A piece that comes to rest on its landing row keeps the columns stacked.
pub proof fn lemma_place_stacked(g: Grid, c: int, p: Player)
    requires
        well_shaped(g),
        stacked(g),
        0 <= c < 7,
        !column_full(g, c),
        p != Player::Nobody,
    ensures
        stacked(place(g, landing_row(g, c), c, p)),
{
    lemma_landing_row(g, c);
    let row = landing_row(g, c);
    let h = place(g, row, c, p);
    assert forall|r: int, below: int, c2: int|
        #![trigger h[r][c2], h[below][c2]]
        0 <= r <= below < 6 && 0 <= c2 < 7 && h[r][c2] != Player::Nobody implies h[below][c2]
        != Player::Nobody by {
        if c2 == c {
            if r == row {
                assert(below > row ==> g[below][c] != Player::Nobody);
            } else {
                assert(g[r][c] != Player::Nobody);
                assert(g[below][c] != Player::Nobody);
            }
        } else {
            assert(g[r][c2] != Player::Nobody);
            assert(g[below][c2] != Player::Nobody);
        }
    }
}

} // verus!
