//! The board: a 10x10 array of cells with a remaining-hit counter.
//!
//! A board is built once from ten lines of text and validated against the
//! fixed fleet — four ships of length 1, three of length 2, two of length 3,
//! one of length 4, all straight, no two touching even at corners — and is
//! thereafter mutated only by shot resolution.
//!
//! The validity specification works on the ship mask of the grid: a sequence
//! of 100 booleans in row-major order.  Ships may not touch diagonally, which
//! already forces every connected group of ship cells to be a straight line:
//! a bend would put the horizontal and the vertical neighbour of its corner
//! cell diagonally next to each other.  The fleet is counted by run heads: a
//! ship cell with no ship to its left or above is the top-left-most cell of
//! its run, and the run's length is measured rightward or downward from it.

use crate::cells::GameBoardCell;
use crate::cells::GameBoardCellState;
use crate::position::Position;
use crate::InvalidInputError;
use vstd::prelude::*;

verus! {

/// The character views of submitted lines.
pub open spec fn views_of(lines: Seq<String>) -> Seq<Seq<char>> {
    lines.map_values(|s: String| s@)
}

/// A character a grid line may hold: `_` for water, `#` for a ship cell.
pub open spec fn is_cell_char(c: char) -> bool {
    c == '_' || c == '#'
}

/// The submitted text has the right format: exactly 10 lines of exactly 10
/// grid characters each.
pub open spec fn lines_wf(ls: Seq<Seq<char>>) -> bool {
    &&& ls.len() == 10
    &&& forall|r: int| 0 <= r < 10 ==> (#[trigger] ls[r]).len() == 10
    &&& forall|r: int, c: int| 0 <= r < 10 && 0 <= c < 10 ==> is_cell_char(#[trigger] ls[r][c])
}

/// The ship mask of the grid: entry `i` says whether linear cell `i` holds a
/// ship.
pub open spec fn mask_of(ls: Seq<Seq<char>>) -> Seq<bool> {
    Seq::new(100, |i: int| ls[i / 10][i % 10] == '#')
}

/// Linear index `i` lies on the grid and holds a ship.
pub open spec fn ship(m: Seq<bool>, i: int) -> bool {
    0 <= i < 100 && m[i]
}

/// No two ship cells touch diagonally.  Each diagonally adjacent pair is
/// stated at its lower cell, looking up-left and up-right, which covers all
/// four corner directions.
pub open spec fn no_corner_touch(m: Seq<bool>) -> bool {
    forall|i: int|
        10 <= i < 100 && #[trigger] m[i] ==> ((i % 10 > 0 ==> !m[i - 11]) && (i % 10 < 9
            ==> !m[i - 9]))
}

/// Length of the contiguous ship run going rightward from `i`, `i` included;
/// 0 when `i` holds no ship.
pub open spec fn hlen(m: Seq<bool>, i: int) -> nat
    decreases 100 - i,
{
    if 0 <= i < 100 && m[i] {
        if i % 10 == 9 {
            1
        } else {
            (1 + hlen(m, i + 1)) as nat
        }
    } else {
        0
    }
}

/// Length of the contiguous ship run going downward from `i`, `i` included;
/// 0 when `i` holds no ship.
pub open spec fn vlen(m: Seq<bool>, i: int) -> nat
    decreases 110 - i,
{
    if 0 <= i < 100 && m[i] {
        (1 + vlen(m, i + 10)) as nat
    } else {
        0
    }
}

/// Cell `i` is the top-left-most cell of its run: a ship cell with no ship
/// directly to its left or above.
pub open spec fn head(m: Seq<bool>, i: int) -> bool {
    &&& ship(m, i)
    &&& (i % 10 == 0 || !m[i - 1])
    &&& (i < 10 || !m[i - 10])
}

/// The length of the run discovered at head `i`: rightward when a ship cell
/// follows to the right, downward otherwise (which gives 1 for a lone cell).
pub open spec fn run_len(m: Seq<bool>, i: int) -> nat {
    if i % 10 < 9 && ship(m, i + 1) {
        hlen(m, i)
    } else {
        vlen(m, i)
    }
}

/// How many heads of runs of length `k` lie among the first `n` cells.
pub open spec fn heads_upto(m: Seq<bool>, k: int, n: int) -> int
    decreases n,
{
    if n <= 0 {
        0
    } else {
        heads_upto(m, k, n - 1) + if head(m, n - 1) && run_len(m, n - 1) == k {
            1int
        } else {
            0int
        }
    }
}

/// How many ships of length `k` the grid holds.
pub open spec fn head_count(m: Seq<bool>, k: int) -> int {
    heads_upto(m, k, 100)
}

/// How many ship cells lie among the first `n` cells.
pub open spec fn ships_upto(m: Seq<bool>, n: int) -> int
    decreases n,
{
    if n <= 0 {
        0
    } else {
        ships_upto(m, n - 1) + if ship(m, n - 1) {
            1int
        } else {
            0int
        }
    }
}

/// A ship mask places exactly the fixed fleet: no diagonal touching (hence no
/// bent runs), no run longer than 4, four ships of length 1, three of length
/// 2, two of length 3, one of length 4, and 20 ship cells in all.
pub open spec fn valid_mask(m: Seq<bool>) -> bool {
    &&& no_corner_touch(m)
    &&& (forall|i: int| 0 <= i < 100 && #[trigger] head(m, i) ==> run_len(m, i) <= 4)
    &&& head_count(m, 1) == 4
    &&& head_count(m, 2) == 3
    &&& head_count(m, 3) == 2
    &&& head_count(m, 4) == 1
    &&& ships_upto(m, 100) == 20
}

/// The submitted lines are accepted: right format and a valid fleet.
pub open spec fn valid_lines(ls: Seq<Seq<char>>) -> bool {
    lines_wf(ls) && valid_mask(mask_of(ls))
}

/// The cells a freshly built board holds: the mask's ships, nothing shot.
pub open spec fn initial_cells(m: Seq<bool>) -> Seq<GameBoardCell> {
    Seq::new(
        100,
        |i: int|
            if m[i] {
                GameBoardCell::Ship(GameBoardCellState::NonShot)
            } else {
                GameBoardCell::Empty(GameBoardCellState::NonShot)
            },
    )
}

/// How many ship cells have not been shot yet.
pub open spec fn count_unshot_ship(cells: Seq<GameBoardCell>) -> int
    decreases cells.len(),
{
    if cells.len() == 0 {
        0
    } else {
        count_unshot_ship(cells.drop_last()) + if cells.last() == GameBoardCell::Ship(
            GameBoardCellState::NonShot,
        ) {
            1int
        } else {
            0int
        }
    }
}

/// The unshot-ship count is bounded by the number of cells.
pub proof fn lemma_count_unshot_bounds(cells: Seq<GameBoardCell>)
    ensures
        0 <= count_unshot_ship(cells) <= cells.len(),
    decreases cells.len(),
{
    if cells.len() > 0 {
        lemma_count_unshot_bounds(cells.drop_last());
    }
}

/// Replacing one cell moves the unshot-ship count by the difference of the
/// two cells' contributions.
pub proof fn lemma_count_unshot_update(cells: Seq<GameBoardCell>, i: int, v: GameBoardCell)
    requires
        0 <= i < cells.len(),
    ensures
        count_unshot_ship(cells.update(i, v)) == count_unshot_ship(cells) - (if cells[i]
            == GameBoardCell::Ship(GameBoardCellState::NonShot) {
            1int
        } else {
            0int
        }) + (if v == GameBoardCell::Ship(GameBoardCellState::NonShot) {
            1int
        } else {
            0int
        }),
    decreases cells.len(),
{
    let u = cells.update(i, v);
    if i == cells.len() - 1 {
        assert(u.drop_last() =~= cells.drop_last());
    } else {
        assert(u.drop_last() =~= cells.drop_last().update(i, v));
        lemma_count_unshot_update(cells.drop_last(), i, v);
    }
}

/// The counter reaches 0 exactly when every ship cell has been shot.
pub proof fn lemma_count_unshot_zero_iff(cells: Seq<GameBoardCell>)
    ensures
        count_unshot_ship(cells) == 0 <==> (forall|i: int|
            0 <= i < cells.len() ==> #[trigger] cells[i] != GameBoardCell::Ship(
                GameBoardCellState::NonShot,
            )),
    decreases cells.len(),
{
    lemma_count_unshot_bounds(cells);
    if cells.len() > 0 {
        lemma_count_unshot_zero_iff(cells.drop_last());
        lemma_count_unshot_bounds(cells.drop_last());
        if count_unshot_ship(cells) == 0 {
            assert(forall|i: int|
                0 <= i < cells.len() - 1 ==> #[trigger] cells[i] == cells.drop_last()[i]);
        }
    }
}

/// On a prefix where the cells mirror the mask and nothing is shot, the
/// unshot-ship count equals the mask's ship count.
pub proof fn lemma_count_matches_mask(cells: Seq<GameBoardCell>, m: Seq<bool>, n: int)
    requires
        0 <= n <= cells.len(),
        forall|i: int|
            0 <= i < n ==> (#[trigger] cells[i] == GameBoardCell::Ship(GameBoardCellState::NonShot)
                <==> ship(m, i)),
    ensures
        count_unshot_ship(cells.take(n)) == ships_upto(m, n),
    decreases n,
{
    if n > 0 {
        assert(cells.take(n).drop_last() =~= cells.take(n - 1));
        lemma_count_matches_mask(cells, m, n - 1);
    }
}

/// The ship-cell count of a prefix is bounded by the prefix length.
pub proof fn lemma_ships_upto_bounds(m: Seq<bool>, n: int)
    ensures
        0 <= ships_upto(m, n) <= (if n < 0 {
            0int
        } else {
            n
        }),
    decreases n,
{
    if n > 0 {
        lemma_ships_upto_bounds(m, n - 1);
    }
}

/// Head counts only grow along a prefix.
pub proof fn lemma_heads_upto_mono(m: Seq<bool>, k: int, a: int, b: int)
    requires
        a <= b,
    ensures
        heads_upto(m, k, a) <= heads_upto(m, k, b),
    decreases b - a,
{
    if a < b {
        lemma_heads_upto_mono(m, k, a, b - 1);
    }
}

/// Unfolds the run measures one step: a run is at least 1 cell long at a ship
/// cell, and extends exactly when the next cell along its axis holds a ship.
pub proof fn lemma_run_facts(m: Seq<bool>, i: int)
    requires
        ship(m, i),
    ensures
        vlen(m, i) >= 1,
        hlen(m, i) >= 1,
        vlen(m, i) >= 2 ==> ship(m, i + 10),
        vlen(m, i) == 1 ==> !ship(m, i + 10),
        hlen(m, i) >= 2 ==> (i % 10 < 9 && ship(m, i + 1)),
        hlen(m, i) == 1 ==> !(i % 10 < 9 && ship(m, i + 1)),
{
    assert(vlen(m, i) == 1 + vlen(m, i + 10));
    if ship(m, i + 10) {
        assert(vlen(m, i + 10) >= 1);
    } else {
        assert(vlen(m, i + 10) == 0);
    }
    if i % 10 == 9 {
        assert(hlen(m, i) == 1);
    } else {
        assert(hlen(m, i) == 1 + hlen(m, i + 1));
        if ship(m, i + 1) {
            assert(hlen(m, i + 1) >= 1);
        } else {
            assert(hlen(m, i + 1) == 0);
        }
    }
}

/// `i` and `j` lie in the same row and every cell between them, both included,
/// holds a ship.
pub open spec fn row_connected(cells: Seq<GameBoardCell>, i: int, j: int) -> bool {
    &&& 0 <= i < 100 && 0 <= j < 100
    &&& i / 10 == j / 10
    &&& forall|t: int|
        (if i <= j {
            i <= t <= j
        } else {
            j <= t <= i
        }) ==> (#[trigger] cells[t]) is Ship
}

/// `i` and `j` lie in the same column and every cell between them, both
/// included, holds a ship.
pub open spec fn col_connected(cells: Seq<GameBoardCell>, i: int, j: int) -> bool {
    &&& 0 <= i < 100 && 0 <= j < 100
    &&& i % 10 == j % 10
    &&& forall|t: int|
        (if i <= j {
            i <= t <= j
        } else {
            j <= t <= i
        }) && t % 10 == i % 10 ==> (#[trigger] cells[t]) is Ship
}

/// `j` belongs to the ship through `i`: the two are joined by contiguous ship
/// cells along one axis.  On a valid board, where ships are straight and do
/// not touch, this is exactly membership in one ship.
pub open spec fn same_ship(cells: Seq<GameBoardCell>, i: int, j: int) -> bool {
    row_connected(cells, i, j) || col_connected(cells, i, j)
}

/// Every cell of the ship through `i`, except `i` itself, has been shot.
pub open spec fn mates_all_shot(cells: Seq<GameBoardCell>, i: int) -> bool {
    forall|j: int| #[trigger] same_ship(cells, i, j) && j != i ==> cells[j].spec_shot()
}

/// What a shot at `i` reports: `Sunk` when it finishes a ship, `Hit` when it
/// freshly strikes one, `Miss` on water or on any already-shot cell.
pub open spec fn shot_outcome(cells: Seq<GameBoardCell>, i: int) -> GameBoardShotResult {
    if cells[i] == GameBoardCell::Ship(GameBoardCellState::NonShot) {
        if mates_all_shot(cells, i) {
            GameBoardShotResult::Sunk
        } else {
            GameBoardShotResult::Hit
        }
    } else {
        GameBoardShotResult::Miss
    }
}

/// The cells after a shot at `i`: an already-shot cell stays as it is, any
/// other cell has its shot flag raised.
pub open spec fn cells_after_shot(cells: Seq<GameBoardCell>, i: int) -> Seq<GameBoardCell> {
    if cells[i].spec_shot() {
        cells
    } else {
        cells.update(i, cells[i].spec_after_shot())
    }
}

/// Two distinct cells of one column are at least a full row apart.
proof fn lemma_col_gap(t: int, u: int)
    requires
        t % 10 == u % 10,
        t < u,
    ensures
        t + 10 <= u,
{
    vstd::arithmetic::div_mod::lemma_fundamental_div_mod(t, 10);
    vstd::arithmetic::div_mod::lemma_fundamental_div_mod(u, 10);
    assert(u - t == 10 * (u / 10 - t / 10));
}

/// A cell between two cells of one row lies in that row.
proof fn lemma_row_between(a: int, t: int, b: int)
    requires
        0 <= a <= t <= b,
        a / 10 == b / 10,
    ensures
        t / 10 == a / 10,
{
    vstd::arithmetic::div_mod::lemma_div_is_ordered(a, t, 10);
    vstd::arithmetic::div_mod::lemma_div_is_ordered(t, b, 10);
}

/// The bounds of the row around cell `i`.
proof fn lemma_row_frame(i: int)
    requires
        0 <= i < 100,
    ensures
        (i - i % 10) % 10 == 0,
        (i - i % 10) / 10 == i / 10,
        (i - i % 10 + 9) % 10 == 9,
        (i - i % 10 + 9) / 10 == i / 10,
        0 <= i % 10 <= 9,
        0 <= i / 10 <= 9,
        i - i % 10 <= i <= i - i % 10 + 9,
{
    vstd::arithmetic::div_mod::lemma_fundamental_div_mod(i, 10);
    vstd::arithmetic::div_mod::lemma_fundamental_div_mod_converse(i - i % 10, 10, i / 10, 0);
    vstd::arithmetic::div_mod::lemma_fundamental_div_mod_converse(i - i % 10 + 9, 10, i / 10, 9);
}

/// The textual dump of a board: ten rows of ten cell characters, each row
/// ended by a newline.
pub open spec fn render(cells: Seq<GameBoardCell>) -> Seq<char> {
    Seq::new(
        110,
        |k: int|
            if k % 11 == 10 {
                '\n'
            } else {
                cells[(k / 11) * 10 + k % 11].spec_char()
            },
    )
}

/// What resolving one shot reports: a miss on water or on any already-shot
/// cell, otherwise a hit, upgraded to sunk when it finished the ship.
#[derive(Debug, Copy, Clone, PartialEq, Eq, Structural)]
pub enum GameBoardShotResult {
    Miss,
    Hit,
    Sunk,
}

impl GameBoardShotResult {
    /// The protocol token for this result.
    pub open spec fn spec_str(self) -> Seq<char> {
        match self {
            GameBoardShotResult::Miss => "miss"@,
            GameBoardShotResult::Hit => "hit"@,
            GameBoardShotResult::Sunk => "sunk"@,
        }
    }

    /// The reply line's literal token: `miss`, `hit`, or `sunk`.
    pub fn as_str(&self) -> (r: &'static str)
        ensures
            r@ == self.spec_str(),
    {
        match self {
            GameBoardShotResult::Miss => "miss",
            GameBoardShotResult::Hit => "hit",
            GameBoardShotResult::Sunk => "sunk",
        }
    }
}

/// A validated 10x10 board.  `hits_left` counts the ship cells not yet shot;
/// it starts at 20 and reaches 0 exactly when the fleet is eliminated.
#[derive(Clone)]
pub struct GameBoard {
    cells: Vec<GameBoardCell>,
    hits_left: u8,
}

impl View for GameBoard {
    type V = Seq<GameBoardCell>;

    closed spec fn view(&self) -> Seq<GameBoardCell> {
        self.cells@
    }
}

impl GameBoard {
    /// The remaining-hit counter.
    pub closed spec fn spec_hits(&self) -> int {
        self.hits_left as int
    }

    /// The board's invariant: 100 cells, and the counter agrees with the
    /// number of unshot ship cells.
    pub open spec fn wf(&self) -> bool {
        self@.len() == 100 && self.spec_hits() == count_unshot_ship(self@)
    }

    /// The cell at a position.
    pub fn get(&self, pos: Position) -> (r: GameBoardCell)
        requires
            self.wf(),
            pos.wf(),
        ensures
            r == self@[pos.idx()],
    {
        self.cells[pos.yx() as usize]
    }

    /// Builds a board from submitted lines.  Succeeds exactly on a
    /// well-formatted grid that places the fixed fleet; the fresh board
    /// mirrors the grid, nothing shot, 20 hits left.
    #[verifier::loop_isolation(false)]
    #[verifier::rlimit(60)]
    pub fn from_lines(lines: &Vec<String>) -> (r: Result<GameBoard, InvalidInputError>)
        ensures
            r is Ok <==> valid_lines(views_of(lines@)),
            r matches Ok(b) ==> b.wf() && b@ == initial_cells(mask_of(views_of(lines@)))
                && b.spec_hits() == 20,
    {
        let ghost ls = views_of(lines@);
        let ghost m = mask_of(ls);
        if lines.len() != 10 {
            assert(!lines_wf(ls));
            return Err(InvalidInputError);
        }
        // Parse the text into cells, checking the format as we go.
        let mut cells: Vec<GameBoardCell> = Vec::new();
        let mut ship_cells: u8 = 0;
        let mut row: usize = 0;
        while row < 10
            invariant
                lines@.len() == 10,
                ls == views_of(lines@),
                m == mask_of(ls),
                row <= 10,
                cells@.len() == 10 * row,
                forall|rr: int| 0 <= rr < row ==> (#[trigger] ls[rr]).len() == 10,
                forall|rr: int, c: int|
                    0 <= rr < row && 0 <= c < 10 ==> is_cell_char(#[trigger] ls[rr][c]),
                forall|i: int|
                    0 <= i < cells@.len() ==> #[trigger] cells@[i] == (if m[i] {
                        GameBoardCell::Ship(GameBoardCellState::NonShot)
                    } else {
                        GameBoardCell::Empty(GameBoardCellState::NonShot)
                    }),
                ship_cells as int == ships_upto(m, 10 * row),
            decreases 10 - row,
        {
            let s: &str = lines[row].as_str();
            if s.unicode_len() != 10 {
                assert(!lines_wf(ls)) by {
                    assert(ls[row as int].len() != 10);
                };
                return Err(InvalidInputError);
            }
            let mut col: usize = 0;
            while col < 10
                invariant
                    lines@.len() == 10,
                    ls == views_of(lines@),
                    m == mask_of(ls),
                    row < 10,
                    col <= 10,
                    s@ == ls[row as int],
                    ls[row as int].len() == 10,
                    forall|rr: int| 0 <= rr < row ==> (#[trigger] ls[rr]).len() == 10,
                    forall|rr: int, c: int|
                        0 <= rr < row && 0 <= c < 10 ==> is_cell_char(#[trigger] ls[rr][c]),
                    forall|c: int| 0 <= c < col ==> is_cell_char(#[trigger] ls[row as int][c]),
                    cells@.len() == 10 * row + col,
                    forall|i: int|
                        0 <= i < cells@.len() ==> #[trigger] cells@[i] == (if m[i] {
                            GameBoardCell::Ship(GameBoardCellState::NonShot)
                        } else {
                            GameBoardCell::Empty(GameBoardCellState::NonShot)
                        }),
                    ship_cells as int == ships_upto(m, 10 * row + col),
                decreases 10 - col,
            {
                let ghost n = 10 * row + col;
                proof {
                    vstd::arithmetic::div_mod::lemma_fundamental_div_mod_converse(
                        n as int,
                        10,
                        row as int,
                        col as int,
                    );
                    assert(m[n as int] == (ls[row as int][col as int] == '#'));
                    lemma_ships_upto_bounds(m, n as int);
                }
                let ch = s.get_char(col);
                match GameBoardCell::from_char(ch) {
                    Ok(cell) => {
                        if cell.is_ship() {
                            ship_cells = ship_cells + 1;
                        }
                        cells.push(cell);
                    },
                    Err(e) => {
                        assert(!lines_wf(ls)) by {
                            assert(!is_cell_char(ls[row as int][col as int]));
                        };
                        return Err(e);
                    },
                }
                col = col + 1;
            }
            row = row + 1;
        }
        assert(lines_wf(ls));
        // Scan all cells in row-major order.  Each run is attributed to its
        // top-left-most cell; corner contacts are refused at the lower cell
        // of the diagonal pair.
        let mut rem1: u8 = 4;
        let mut rem2: u8 = 3;
        let mut rem3: u8 = 2;
        let mut rem4: u8 = 1;
        let mut n: usize = 0;
        while n < 100
            invariant
                cells@.len() == 100,
                m.len() == 100,
                n <= 100,
                forall|i: int|
                    0 <= i < 100 ==> #[trigger] cells@[i] == (if m[i] {
                        GameBoardCell::Ship(GameBoardCellState::NonShot)
                    } else {
                        GameBoardCell::Empty(GameBoardCellState::NonShot)
                    }),
                forall|i: int|
                    10 <= i < n && #[trigger] m[i] ==> ((i % 10 > 0 ==> !m[i - 11]) && (i % 10 < 9
                        ==> !m[i - 9])),
                forall|i: int| 0 <= i < n && #[trigger] head(m, i) ==> run_len(m, i) <= 4,
                rem1 as int == 4 - heads_upto(m, 1, n as int),
                rem2 as int == 3 - heads_upto(m, 2, n as int),
                rem3 as int == 2 - heads_upto(m, 3, n as int),
                rem4 as int == 1 - heads_upto(m, 4, n as int),
            decreases 100 - n,
        {
            let cur_ship = cells[n].is_ship();
            let mut skip = false;
            if n >= 10 {
                if cur_ship && n % 10 >= 1 && cells[n - 11].is_ship() {
                    assert(!no_corner_touch(m));
                    return Err(InvalidInputError);
                }
                if cur_ship && n % 10 <= 8 && cells[n - 9].is_ship() {
                    assert(!no_corner_touch(m));
                    return Err(InvalidInputError);
                }
                if cells[n - 10].is_ship() {
                    skip = true;
                }
            }
            if !skip && n % 10 >= 1 && cells[n - 1].is_ship() {
                skip = true;
            }
            if !skip && cur_ship {
                assert(head(m, n as int));
                // Measure the run downward and rightward from the head.
                let mut v: usize = 0;
                let mut j: usize = n;
                while j < 100 && cells[j].is_ship()
                    invariant
                        n <= j <= 109,
                        j == n + 10 * v,
                        vlen(m, n as int) == v + vlen(m, j as int),
                    decreases 110 - j,
                {
                    assert(vlen(m, j as int) == 1 + vlen(m, j as int + 10));
                    v = v + 1;
                    j = j + 10;
                }
                assert(vlen(m, j as int) == 0);
                assert(v as int == vlen(m, n as int));
                let row_end = n - n % 10 + 10;
                let mut h: usize = 0;
                let mut t: usize = n;
                while t < row_end && cells[t].is_ship()
                    invariant
                        n <= t <= row_end,
                        t == n + h,
                        hlen(m, n as int) == h + (if t < row_end {
                            hlen(m, t as int) as int
                        } else {
                            0int
                        }),
                    decreases row_end - t,
                {
                    proof {
                        vstd::arithmetic::div_mod::lemma_fundamental_div_mod(n as int, 10);
                        vstd::arithmetic::div_mod::lemma_fundamental_div_mod_converse(
                            t as int,
                            10,
                            n as int / 10,
                            n as int % 10 + (t - n),
                        );
                        assert(t % 10 == 9 <==> t + 1 == row_end);
                        assert(hlen(m, t as int) == if t % 10 == 9 {
                            1nat
                        } else {
                            (1 + hlen(m, t as int + 1)) as nat
                        });
                    }
                    h = h + 1;
                    t = t + 1;
                }
                assert(h as int == hlen(m, n as int)) by {
                    if t < row_end {
                        assert(hlen(m, t as int) == 0);
                    }
                };
                proof {
                    lemma_run_facts(m, n as int);
                }
                let size = if v == h {
                    if v == 1 {
                        1usize
                    } else {
                        // Both runs extend: the right and the down neighbour
                        // of the head touch diagonally.
                        proof {
                            assert(ship(m, n as int + 1) && ship(m, n as int + 10));
                            assert(!no_corner_touch(m)) by {
                                assert(m[n as int + 10] && (n as int + 10) % 10 < 9 && m[(n as int
                                    + 10) - 9]);
                            };
                        }
                        return Err(InvalidInputError);
                    }
                } else if v == 1 {
                    h
                } else if h == 1 {
                    v
                } else {
                    proof {
                        assert(ship(m, n as int + 1) && ship(m, n as int + 10));
                        assert(!no_corner_touch(m)) by {
                            assert(m[n as int + 10] && (n as int + 10) % 10 < 9 && m[(n as int + 10)
                                - 9]);
                        };
                    }
                    return Err(InvalidInputError);
                };
                assert(size == run_len(m, n as int));
                if size > 4 {
                    assert(!valid_mask(m)) by {
                        assert(head(m, n as int) && run_len(m, n as int) > 4);
                    };
                    return Err(InvalidInputError);
                }
                if size == 1 {
                    if rem1 == 0 {
                        proof {
                            lemma_heads_upto_mono(m, 1, n as int + 1, 100);
                        }
                        return Err(InvalidInputError);
                    }
                    rem1 = rem1 - 1;
                } else if size == 2 {
                    if rem2 == 0 {
                        proof {
                            lemma_heads_upto_mono(m, 2, n as int + 1, 100);
                        }
                        return Err(InvalidInputError);
                    }
                    rem2 = rem2 - 1;
                } else if size == 3 {
                    if rem3 == 0 {
                        proof {
                            lemma_heads_upto_mono(m, 3, n as int + 1, 100);
                        }
                        return Err(InvalidInputError);
                    }
                    rem3 = rem3 - 1;
                } else {
                    if rem4 == 0 {
                        proof {
                            lemma_heads_upto_mono(m, 4, n as int + 1, 100);
                        }
                        return Err(InvalidInputError);
                    }
                    rem4 = rem4 - 1;
                }
            } else {
                assert(!head(m, n as int));
            }
            n = n + 1;
        }
        if rem1 > 0 || rem2 > 0 || rem3 > 0 || rem4 > 0 {
            return Err(InvalidInputError);
        }
        if ship_cells != 20 {
            return Err(InvalidInputError);
        }
        proof {
            assert(valid_mask(m));
            assert(cells@ =~= initial_cells(m));
            lemma_count_matches_mask(cells@, m, 100);
            assert(cells@.take(100) =~= cells@);
        }
        Ok(GameBoard { cells, hits_left: ship_cells })
    }

    /// Resolves a shot at `pos`.  A fresh ship cell is marked shot, the
    /// counter drops by one, and the result is `Sunk` when every other cell
    /// of that ship was already shot, else `Hit`.  Fresh water is marked shot
    /// and reported `Miss`.  A shot at any already-shot cell changes nothing
    /// and reports `Miss`.
    #[verifier::loop_isolation(false)]
    #[verifier::rlimit(60)]
    pub fn shoot(&mut self, pos: Position) -> (r: GameBoardShotResult)
        requires
            old(self).wf(),
            pos.wf(),
        ensures
            final(self).wf(),
            final(self)@ == cells_after_shot(old(self)@, pos.idx()),
            r == shot_outcome(old(self)@, pos.idx()),
            final(self).spec_hits() == old(self).spec_hits() - (if old(self)@[pos.idx()]
                == GameBoardCell::Ship(GameBoardCellState::NonShot) {
                1int
            } else {
                0int
            }),
    {
        let i = pos.yx() as usize;
        let ghost prev = self.cells@;
        let ghost ii = i as int;
        let cell = self.cells[i];
        match cell {
            GameBoardCell::Ship(GameBoardCellState::NonShot) => {
                self.cells[i] = GameBoardCell::Ship(GameBoardCellState::Shot);
                proof {
                    lemma_count_unshot_update(
                        prev,
                        ii,
                        GameBoardCell::Ship(GameBoardCellState::Shot),
                    );
                    lemma_count_unshot_zero_iff(prev);
                    lemma_count_unshot_bounds(prev);
                    lemma_row_frame(ii);
                }
                self.hits_left = self.hits_left - 1;
                let ghost cur = self.cells@;
                // Walk outward in the four directions while cells stay ship;
                // ships are straight, so the walks cover the whole ship
                // without a stored identity.
                let mut all_left = true;
                let mut lo = i;
                while lo % 10 != 0 && self.cells[lo - 1].is_ship()
                    invariant
                        ii - ii % 10 <= lo <= ii,
                        forall|t: int| lo <= t <= ii ==> (#[trigger] cur[t]) is Ship,
                        all_left <==> (forall|t: int|
                            lo <= t < ii ==> (#[trigger] cur[t]).spec_shot()),
                    decreases lo,
                {
                    lo = lo - 1;
                    if !self.cells[lo].is_shot() {
                        all_left = false;
                    }
                }
                let mut all_right = true;
                let mut hi = i;
                while hi % 10 != 9 && self.cells[hi + 1].is_ship()
                    invariant
                        ii <= hi <= ii - ii % 10 + 9,
                        forall|t: int| ii <= t <= hi ==> (#[trigger] cur[t]) is Ship,
                        all_right <==> (forall|t: int|
                            ii < t <= hi ==> (#[trigger] cur[t]).spec_shot()),
                    decreases 100 - hi,
                {
                    hi = hi + 1;
                    if !self.cells[hi].is_shot() {
                        all_right = false;
                    }
                }
                let mut all_up = true;
                let mut up = i;
                while up >= 10 && self.cells[up - 10].is_ship()
                    invariant
                        0 <= up <= ii,
                        up % 10 == ii % 10,
                        forall|t: int|
                            up <= t <= ii && t % 10 == ii % 10 ==> (#[trigger] cur[t]) is Ship,
                        all_up <==> (forall|t: int|
                            up <= t < ii && t % 10 == ii % 10 ==> (#[trigger] cur[t]).spec_shot()),
                    decreases up,
                {
                    proof {
                        vstd::arithmetic::div_mod::lemma_mod_multiples_vanish(-1, up as int, 10);
                        assert forall|t: int| #![trigger t % 10] up - 10 < t < up implies t % 10
                            != ii % 10 by {
                            if t % 10 == ii % 10 {
                                lemma_col_gap(t, up as int);
                            }
                        };
                    }
                    up = up - 10;
                    if !self.cells[up].is_shot() {
                        all_up = false;
                    }
                }
                let mut all_down = true;
                let mut dn = i;
                while dn < 90 && self.cells[dn + 10].is_ship()
                    invariant
                        ii <= dn < 100,
                        dn % 10 == ii % 10,
                        forall|t: int|
                            ii <= t <= dn && t % 10 == ii % 10 ==> (#[trigger] cur[t]) is Ship,
                        all_down <==> (forall|t: int|
                            ii < t <= dn && t % 10 == ii % 10 ==> (#[trigger] cur[t]).spec_shot()),
                    decreases 100 - dn,
                {
                    proof {
                        vstd::arithmetic::div_mod::lemma_mod_multiples_vanish(1, dn as int, 10);
                        assert forall|t: int| #![trigger t % 10] dn < t < dn + 10 implies t % 10
                            != ii % 10 by {
                            if t % 10 == ii % 10 {
                                lemma_col_gap(dn as int, t);
                            }
                        };
                    }
                    dn = dn + 10;
                    if !self.cells[dn].is_shot() {
                        all_down = false;
                    }
                }
                let sunk = all_left && all_right && all_up && all_down;
                proof {
                    if sunk {
                        assert forall|j: int|
                            #[trigger] same_ship(prev, ii, j) && j != ii implies prev[
                        j].spec_shot() by {
                            if row_connected(prev, ii, j) {
                                lemma_row_between(ii - ii % 10, lo as int, ii);
                                if j < ii {
                                    if j < lo {
                                        if lo % 10 == 0 {
                                            vstd::arithmetic::div_mod::lemma_fundamental_div_mod(
                                                j,
                                                10,
                                            );
                                            vstd::arithmetic::div_mod::lemma_fundamental_div_mod(
                                                lo as int,
                                                10,
                                            );
                                            assert(false);
                                        } else {
                                            assert(prev[lo - 1] is Ship);
                                            assert(cur[lo - 1] is Ship);
                                            assert(false);
                                        }
                                    }
                                    assert(cur[j].spec_shot());
                                } else {
                                    lemma_row_between(ii, hi as int, ii - ii % 10 + 9);
                                    if j > hi {
                                        if hi % 10 == 9 {
                                            vstd::arithmetic::div_mod::lemma_fundamental_div_mod(
                                                j,
                                                10,
                                            );
                                            vstd::arithmetic::div_mod::lemma_fundamental_div_mod(
                                                hi as int,
                                                10,
                                            );
                                            assert(false);
                                        } else {
                                            assert(prev[hi + 1] is Ship);
                                            assert(cur[hi + 1] is Ship);
                                            assert(false);
                                        }
                                    }
                                    assert(cur[j].spec_shot());
                                }
                            } else {
                                if j < ii {
                                    if j < up {
                                        lemma_col_gap(j, up as int);
                                        if up < 10 {
                                            assert(false);
                                        } else {
                                            assert(prev[up - 10] is Ship);
                                            assert(cur[up - 10] is Ship);
                                            assert(false);
                                        }
                                    }
                                    assert(cur[j].spec_shot());
                                } else {
                                    if j > dn {
                                        lemma_col_gap(dn as int, j);
                                        if dn >= 90 {
                                            assert(false);
                                        } else {
                                            assert(prev[dn + 10] is Ship);
                                            assert(cur[dn + 10] is Ship);
                                            assert(false);
                                        }
                                    }
                                    assert(cur[j].spec_shot());
                                }
                            }
                        };
                        assert(mates_all_shot(prev, ii));
                    } else {
                        if !all_left {
                            let t = choose|t: int|
                                lo <= t < ii && !((#[trigger] cur[t]).spec_shot());
                            assert forall|s: int| t <= s <= ii implies (#[trigger] prev[
                            s]) is Ship by {
                                assert(cur[s] is Ship);
                            };
                            lemma_row_between(ii - ii % 10, t, ii);
                            assert(row_connected(prev, ii, t));
                            assert(!mates_all_shot(prev, ii)) by {
                                assert(same_ship(prev, ii, t) && t != ii && !prev[t].spec_shot());
                            };
                        } else if !all_right {
                            let t = choose|t: int|
                                ii < t <= hi && !((#[trigger] cur[t]).spec_shot());
                            assert forall|s: int| ii <= s <= t implies (#[trigger] prev[
                            s]) is Ship by {
                                assert(cur[s] is Ship);
                            };
                            lemma_row_between(ii, t, ii - ii % 10 + 9);
                            assert(row_connected(prev, ii, t));
                            assert(!mates_all_shot(prev, ii)) by {
                                assert(same_ship(prev, ii, t) && t != ii && !prev[t].spec_shot());
                            };
                        } else if !all_up {
                            let t = choose|t: int|
                                up <= t < ii && t % 10 == ii % 10 && !((#[trigger] cur[
                                t]).spec_shot());
                            assert forall|s: int|
                                t <= s <= ii && s % 10 == ii % 10 implies (#[trigger] prev[
                            s]) is Ship by {
                                assert(cur[s] is Ship);
                            };
                            assert(col_connected(prev, ii, t));
                            assert(!mates_all_shot(prev, ii)) by {
                                assert(same_ship(prev, ii, t) && t != ii && !prev[t].spec_shot());
                            };
                        } else {
                            let t = choose|t: int|
                                ii < t <= dn && t % 10 == ii % 10 && !((#[trigger] cur[
                                t]).spec_shot());
                            assert forall|s: int|
                                ii <= s <= t && s % 10 == ii % 10 implies (#[trigger] prev[
                            s]) is Ship by {
                                assert(cur[s] is Ship);
                            };
                            assert(col_connected(prev, ii, t));
                            assert(!mates_all_shot(prev, ii)) by {
                                assert(same_ship(prev, ii, t) && t != ii && !prev[t].spec_shot());
                            };
                        }
                    }
                }
                if sunk {
                    GameBoardShotResult::Sunk
                } else {
                    GameBoardShotResult::Hit
                }
            },
            GameBoardCell::Empty(GameBoardCellState::NonShot) => {
                self.cells[i] = GameBoardCell::Empty(GameBoardCellState::Shot);
                proof {
                    lemma_count_unshot_update(
                        prev,
                        ii,
                        GameBoardCell::Empty(GameBoardCellState::Shot),
                    );
                }
                GameBoardShotResult::Miss
            },
            _ => { GameBoardShotResult::Miss },
        }
    }

    /// How many ship cells are still unshot; 0 signals total elimination.
    pub fn hits_left(&self) -> (r: u8)
        ensures
            r as int == self.spec_hits(),
    {
        self.hits_left
    }

    /// The textual dump of the board: ten rows of ten cell characters, each
    /// row ended by a newline.
    #[verifier::loop_isolation(false)]
    pub fn to_string(&self) -> (r: String)
        requires
            self.wf(),
        ensures
            r@ == render(self@),
    {
        let mut s = String::new();
        let mut row: usize = 0;
        while row < 10
            invariant
                row <= 10,
                s@ == render(self@).take(11 * row as int),
            decreases 10 - row,
        {
            let mut col: usize = 0;
            while col < 10
                invariant
                    row < 10,
                    col <= 10,
                    s@ == render(self@).take(11 * row as int + col as int),
                decreases 10 - col,
            {
                let cell = self.cells[10 * row + col];
                match cell {
                    GameBoardCell::Empty(GameBoardCellState::NonShot) => s.append("_"),
                    GameBoardCell::Empty(GameBoardCellState::Shot) => s.append("O"),
                    GameBoardCell::Ship(GameBoardCellState::NonShot) => s.append("#"),
                    GameBoardCell::Ship(GameBoardCellState::Shot) => s.append("$"),
                }
                proof {
                    reveal_strlit("_");
                    reveal_strlit("O");
                    reveal_strlit("#");
                    reveal_strlit("$");
                    let k = 11 * row as int + col as int;
                    vstd::arithmetic::div_mod::lemma_fundamental_div_mod_converse(
                        k,
                        11,
                        row as int,
                        col as int,
                    );
                    assert(render(self@)[k] == self@[10 * row as int + col as int].spec_char());
                    assert(s@ =~= render(self@).take(k + 1));
                }
                col = col + 1;
            }
            s.append("\n");
            proof {
                reveal_strlit("\n");
                let k = 11 * row as int + 10;
                vstd::arithmetic::div_mod::lemma_fundamental_div_mod_converse(
                    k,
                    11,
                    row as int,
                    10,
                );
                assert(render(self@)[k] == '\n');
                assert(s@ =~= render(self@).take(k + 1));
            }
            row = row + 1;
        }
        proof {
            assert(render(self@).take(110) =~= render(self@));
        }
        s
    }
}

/// Two ship cells that touch only at a corner — `j` one row below `i` and one
/// column aside — make the grid invalid, so building a board from it fails.
pub proof fn lemma_corner_touch_rejected(ls: Seq<Seq<char>>, i: int, j: int)
    requires
        ship(mask_of(ls), i),
        ship(mask_of(ls), j),
        j / 10 == i / 10 + 1,
        j % 10 == i % 10 + 1 || j % 10 + 1 == i % 10,
    ensures
        !valid_lines(ls),
{
    let m = mask_of(ls);
    vstd::arithmetic::div_mod::lemma_fundamental_div_mod(i, 10);
    vstd::arithmetic::div_mod::lemma_fundamental_div_mod(j, 10);
    if j % 10 == i % 10 + 1 {
        assert(j == i + 11);
        assert(!no_corner_touch(m)) by {
            assert(m[j] && j % 10 > 0 && m[j - 11]);
        };
    } else {
        assert(j == i + 9);
        assert(!no_corner_touch(m)) by {
            assert(m[j] && j % 10 < 9 && m[j - 9]);
        };
    }
}

/// A ship cell with both a horizontal and a vertical ship neighbour — the
/// corner of an L, T or plus shape — makes the grid invalid: the two
/// neighbours touch diagonally.
pub proof fn lemma_bent_shape_rejected(ls: Seq<Seq<char>>, i: int, h: int, v: int)
    requires
        ship(mask_of(ls), i),
        ship(mask_of(ls), h),
        (h == i - 1 && i % 10 > 0) || (h == i + 1 && i % 10 < 9),
        ship(mask_of(ls), v),
        v == i - 10 || v == i + 10,
    ensures
        !valid_lines(ls),
{
    vstd::arithmetic::div_mod::lemma_fundamental_div_mod(i, 10);
    vstd::arithmetic::div_mod::lemma_fundamental_div_mod(h, 10);
    vstd::arithmetic::div_mod::lemma_fundamental_div_mod(v, 10);
    if v == i + 10 {
        lemma_corner_touch_rejected(ls, h, v);
    } else {
        lemma_corner_touch_rejected(ls, v, h);
    }
}

/// Shooting a fresh length-1 ship — no ship on any of its four sides — sinks
/// it and costs exactly one remaining hit.
pub proof fn lemma_lone_ship_sunk(cells: Seq<GameBoardCell>, i: int)
    requires
        cells.len() == 100,
        0 <= i < 100,
        cells[i] == GameBoardCell::Ship(GameBoardCellState::NonShot),
        i % 10 > 0 ==> !(cells[i - 1] is Ship),
        i % 10 < 9 ==> !(cells[i + 1] is Ship),
        i >= 10 ==> !(cells[i - 10] is Ship),
        i < 90 ==> !(cells[i + 10] is Ship),
    ensures
        shot_outcome(cells, i) == GameBoardShotResult::Sunk,
        count_unshot_ship(cells_after_shot(cells, i)) == count_unshot_ship(cells) - 1,
{
    assert forall|j: int| #[trigger] same_ship(cells, i, j) && j != i implies cells[
    j].spec_shot() by {
        vstd::arithmetic::div_mod::lemma_fundamental_div_mod(i, 10);
        vstd::arithmetic::div_mod::lemma_fundamental_div_mod(j, 10);
        if row_connected(cells, i, j) {
            if j < i {
                assert(cells[i - 1] is Ship);
                assert(false);
            } else {
                assert(cells[i + 1] is Ship);
                assert(false);
            }
        } else {
            if j < i {
                lemma_col_gap(j, i);
                vstd::arithmetic::div_mod::lemma_mod_multiples_vanish(-1, i, 10);
                assert(cells[i - 10] is Ship);
                assert(false);
            } else {
                lemma_col_gap(i, j);
                vstd::arithmetic::div_mod::lemma_mod_multiples_vanish(1, i, 10);
                assert(cells[i + 10] is Ship);
                assert(false);
            }
        }
    };
    assert(mates_all_shot(cells, i));
    lemma_count_unshot_update(cells, i, GameBoardCell::Ship(GameBoardCellState::Shot));
}

/// Shooting a fresh ship cell while another cell of the same ship is still
/// unshot reports a plain hit, and still costs one remaining hit.
pub proof fn lemma_unfinished_ship_hit(cells: Seq<GameBoardCell>, i: int, j: int)
    requires
        cells.len() == 100,
        cells[i] == GameBoardCell::Ship(GameBoardCellState::NonShot),
        same_ship(cells, i, j),
        j != i,
        !cells[j].spec_shot(),
    ensures
        shot_outcome(cells, i) == GameBoardShotResult::Hit,
        count_unshot_ship(cells_after_shot(cells, i)) == count_unshot_ship(cells) - 1,
{
    assert(!mates_all_shot(cells, i)) by {
        assert(same_ship(cells, i, j) && j != i && !cells[j].spec_shot());
    };
    lemma_count_unshot_update(cells, i, GameBoardCell::Ship(GameBoardCellState::Shot));
}

/// Shooting the last unshot cell of a ship sinks it.
pub proof fn lemma_last_cell_sunk(cells: Seq<GameBoardCell>, i: int)
    requires
        cells.len() == 100,
        0 <= i < 100,
        cells[i] == GameBoardCell::Ship(GameBoardCellState::NonShot),
        forall|j: int| #[trigger] same_ship(cells, i, j) && j != i ==> cells[j].spec_shot(),
    ensures
        shot_outcome(cells, i) == GameBoardShotResult::Sunk,
{
}

/// Re-shooting an already-shot cell, ship or water, reports a miss and
/// changes nothing.
pub proof fn lemma_reshoot_idempotent(cells: Seq<GameBoardCell>, i: int)
    requires
        0 <= i < cells.len(),
        cells[i].spec_shot(),
    ensures
        shot_outcome(cells, i) == GameBoardShotResult::Miss,
        cells_after_shot(cells, i) == cells,
{
}

/// Shooting water always reports a miss and never moves the hit counter.
pub proof fn lemma_water_miss(cells: Seq<GameBoardCell>, i: int)
    requires
        0 <= i < cells.len(),
        cells[i] is Empty,
    ensures
        shot_outcome(cells, i) == GameBoardShotResult::Miss,
        count_unshot_ship(cells_after_shot(cells, i)) == count_unshot_ship(cells),
{
    if !cells[i].spec_shot() {
        lemma_count_unshot_update(cells, i, GameBoardCell::Empty(GameBoardCellState::Shot));
    }
}

} // verus!
