//! The mathematical vocabulary of a rectangular grid: which addresses lie on
//! it, how many there are, and what a list of writes leaves in each cell.

use crate::utils::Coordinates;
use vstd::prelude::*;
use vstd::set_lib::lemma_len_subset;
use vstd::set_lib::lemma_set_disjoint_lens;

verus! {

/// Whether `pos` addresses a cell of a grid with `width` columns and `height` rows.
pub open spec fn in_bounds(pos: Coordinates, width: nat, height: nat) -> bool {
    pos.x < width && pos.y < height
}

/// Every cell address of a grid with `width` columns and `height` rows.
pub open spec fn all_cells(width: nat, height: nat) -> Set<Coordinates> {
    Set::new(|p: Coordinates| in_bounds(p, width, height))
}

/// The cell addresses of row `y` that lie left of column `width`.
pub open spec fn row_cells(width: nat, y: usize) -> Set<Coordinates> {
    Set::new(|p: Coordinates| p.x < width && p.y == y)
}

/// Whether `rows` holds exactly `height` rows of `width` cells each.
pub open spec fn is_grid<T>(rows: Seq<Vec<T>>, width: nat, height: nat) -> bool {
    &&& rows.len() == height
    &&& forall|y: int| 0 <= y < height ==> (#[trigger] rows[y]).len() == width
}

/// The value that `rows` holds at `pos`.
pub open spec fn cell_of<T>(rows: Seq<Vec<T>>, pos: Coordinates) -> T {
    rows[pos.y as int][pos.x as int]
}

/// What the writes in `values`, applied in order, leave at `pos`: the value of
/// the last write addressed to it, or `None` when no write is.
pub open spec fn last_write<T>(values: Seq<(Coordinates, T)>, pos: Coordinates) -> Option<T>
    decreases values.len(),
{
    if values.len() == 0 {
        None
    } else if values.last().0 == pos {
        Some(values.last().1)
    } else {
        last_write(values.drop_last(), pos)
    }
}

/// What a cell that started as `default_value` holds at `pos` after the writes in `values`.
pub open spec fn written<T>(values: Seq<(Coordinates, T)>, pos: Coordinates, default_value: T) -> T {
    match last_write(values, pos) {
        Some(value) => value,
        None => default_value,
    }
}

/// Whether every write in `values` is addressed to a cell of the grid.
pub open spec fn writes_in_bounds<T>(values: Seq<(Coordinates, T)>, width: nat, height: nat) -> bool {
    forall|i: int| 0 <= i < values.len() ==> in_bounds((#[trigger] values[i]).0, width, height)
}

/// A row of `width` cells is a finite set of `width` addresses.
pub proof fn lemma_row_cells(width: nat, y: usize)
    requires
        width <= usize::MAX + 1,
    ensures
        row_cells(width, y).finite(),
        row_cells(width, y).len() == width,
    decreases width,
{
    if width == 0 {
        assert(row_cells(width, y) =~= Set::<Coordinates>::empty());
    } else {
        let shorter = (width - 1) as nat;
        lemma_row_cells(shorter, y);
        let last = Coordinates { x: shorter as usize, y };
        assert(row_cells(width, y) =~= row_cells(shorter, y).insert(last));
    }
}

/// A grid of `width` by `height` cells is a finite set of `width * height` addresses.
pub proof fn lemma_all_cells(width: nat, height: nat)
    requires
        width <= usize::MAX + 1,
        height <= usize::MAX + 1,
    ensures
        all_cells(width, height).finite(),
        all_cells(width, height).len() == width * height,
    decreases height,
{
    if height == 0 {
        assert(all_cells(width, height) =~= Set::<Coordinates>::empty());
        assert(width * height == 0) by (nonlinear_arith)
            requires
                height == 0,
        ;
    } else {
        let above = (height - 1) as nat;
        let y = above as usize;
        lemma_all_cells(width, above);
        lemma_row_cells(width, y);
        assert(all_cells(width, height) =~= all_cells(width, above).union(row_cells(width, y)));
        assert(all_cells(width, above).disjoint(row_cells(width, y)));
        lemma_set_disjoint_lens(all_cells(width, above), row_cells(width, y));
        assert(width * above + width == width * height) by (nonlinear_arith)
            requires
                above + 1 == height,
        ;
    }
}

/// A set of addresses that all lie on the grid is finite and no larger than the grid.
pub proof fn lemma_cells_on_grid(cells: Set<Coordinates>, width: nat, height: nat)
    requires
        width <= usize::MAX + 1,
        height <= usize::MAX + 1,
        cells.subset_of(all_cells(width, height)),
    ensures
        cells.finite(),
        cells.len() <= width * height,
{
    lemma_all_cells(width, height);
    lemma_len_subset(cells, all_cells(width, height));
}

/// Builds a grid of `height` rows of `width` cells that all hold `value`.
pub fn filled_grid<T: Copy>(width: usize, height: usize, value: T) -> (rows: Vec<Vec<T>>)
    ensures
        is_grid(rows@, width as nat, height as nat),
        forall|p: Coordinates|
            in_bounds(p, width as nat, height as nat) ==> #[trigger] cell_of(rows@, p) == value,
{
    let mut rows: Vec<Vec<T>> = Vec::new();
    let mut y: usize = 0;
    while y < height
        invariant
            y <= height,
            is_grid(rows@, width as nat, y as nat),
            forall|i: int, j: int| 0 <= i < width && 0 <= j < y ==> rows[j][i] == value,
        decreases height - y,
    {
        let mut row: Vec<T> = Vec::new();
        let mut x: usize = 0;
        while x < width
            invariant
                x <= width,
                row.len() == x,
                forall|i: int| 0 <= i < x ==> row[i] == value,
            decreases width - x,
        {
            row.push(value);
            x += 1;
        }
        rows.push(row);
        y += 1;
    }
    rows
}

/// A cell value that either counts towards its layer's tally or does not.
pub trait ActiveCell: Copy {
    /// Whether this value counts as active.
    spec fn is_active(self) -> bool;

    /// Tests whether this value counts as active.
    fn active(self) -> (b: bool)
        ensures
            b == self.is_active(),
    ;
}

/// A boolean cell is active when it is set.
impl ActiveCell for bool {
    open spec fn is_active(self) -> bool {
        self
    }

    fn active(self) -> (b: bool) {
        self
    }
}

/// A number cell is active when it is positive.
impl ActiveCell for i32 {
    open spec fn is_active(self) -> bool {
        self > 0
    }

    fn active(self) -> (b: bool) {
        self > 0
    }
}

/// The addresses on a `width` by `height` grid at which `rows` holds an active value.
pub open spec fn active_in<T: ActiveCell>(rows: Seq<Vec<T>>, width: nat, height: nat) -> Set<
    Coordinates,
> {
    Set::new(|p: Coordinates| in_bounds(p, width, height) && cell_of(rows, p).is_active())
}

/// Whether `pos` comes before column `x` of row `y` when the grid is read row
/// by row, each row left to right.
pub open spec fn read_before(pos: Coordinates, x: nat, y: nat) -> bool {
    pos.y < y || (pos.y == y && pos.x < x)
}

/// The members of `cells` that come before column `x` of row `y`.
pub open spec fn cells_before(cells: Set<Coordinates>, x: nat, y: nat) -> Set<Coordinates> {
    cells.filter(|p: Coordinates| read_before(p, x, y))
}

/// Counts the active cells of `rows` by reading the whole grid once.
pub fn count_active<T: ActiveCell>(rows: &Vec<Vec<T>>, width: usize, height: usize) -> (count: usize)
    requires
        is_grid(rows@, width as nat, height as nat),
        width * height <= usize::MAX,
    ensures
        count == active_in(rows@, width as nat, height as nat).len(),
{
    let ghost all = active_in(rows@, width as nat, height as nat);
    let mut count: usize = 0;
    let mut y: usize = 0;
    proof {
        assert(cells_before(all, 0, 0) =~= Set::<Coordinates>::empty());
    }
    while y < height
        invariant
            y <= height,
            is_grid(rows@, width as nat, height as nat),
            width * height <= usize::MAX,
            all == active_in(rows@, width as nat, height as nat),
            count == cells_before(all, 0, y as nat).len(),
        decreases height - y,
    {
        let mut x: usize = 0;
        while x < width
            invariant
                y < height,
                x <= width,
                is_grid(rows@, width as nat, height as nat),
                width * height <= usize::MAX,
                all == active_in(rows@, width as nat, height as nat),
                count == cells_before(all, x as nat, y as nat).len(),
            decreases width - x,
        {
            let ghost seen = cells_before(all, x as nat, y as nat);
            let ghost next = cells_before(all, (x + 1) as nat, y as nat);
            let ghost here = Coordinates { x, y };
            proof {
                assert(next.subset_of(all_cells(width as nat, height as nat)));
                assert(seen.subset_of(all_cells(width as nat, height as nat)));
                lemma_cells_on_grid(next, width as nat, height as nat);
                lemma_cells_on_grid(seen, width as nat, height as nat);
                assert(cell_of(rows@, here) == rows@[y as int]@[x as int]);
            }
            if rows[y][x].active() {
                proof {
                    assert(next =~= seen.insert(here));
                }
                count += 1;
            } else {
                proof {
                    assert(next =~= seen);
                }
            }
            x += 1;
        }
        proof {
            assert(cells_before(all, width as nat, y as nat) =~= cells_before(
                all,
                0,
                (y + 1) as nat,
            ));
        }
        y += 1;
    }
    proof {
        assert(cells_before(all, 0, height as nat) =~= all);
    }
    count
}

} // verus!
