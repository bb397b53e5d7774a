//! The numbers of the board: for each cell, how many of its neighbours hold a
//! mine. They are derived from the mine layer once and never change.

use crate::mineboard::cells::{
    active_in, all_cells, cell_of, count_active, in_bounds, is_grid, last_write,
    lemma_cells_on_grid, writes_in_bounds, written,
};
use crate::mineboard::field::{BoardError, Field};
use crate::mineboard::layers::LandmineField;
use crate::utils::Coordinates;
use vstd::prelude::*;

verus! {

/// Whether `a` and `b` are different cells that touch, side to side or corner
/// to corner.
pub open spec fn adjacent(a: Coordinates, b: Coordinates) -> bool {
    &&& a != b
    &&& a.x <= b.x + 1 && b.x <= a.x + 1
    &&& a.y <= b.y + 1 && b.y <= a.y + 1
}

/// The members of `mines` that touch `pos`.
pub open spec fn adjacent_mines(mines: Set<Coordinates>, pos: Coordinates) -> Set<Coordinates> {
    mines.filter(|q: Coordinates| adjacent(pos, q))
}

/// How many members of `mines` touch `pos`.
pub open spec fn mine_count(mines: Set<Coordinates>, pos: Coordinates) -> nat {
    adjacent_mines(mines, pos).len()
}

/// The mines that a `width` by `height` grid of numbers takes into account:
/// those that lie on that grid.
pub open spec fn mines_on_grid(mines: Set<Coordinates>, width: nat, height: nat) -> Set<Coordinates> {
    mines.intersect(all_cells(width, height))
}

/// Whether the numbers of a `width` by `height` grid can be derived from a
/// mine layer of `mines_width` by `mines_height` cells: every cell that is some
/// other cell's neighbour must exist in the mine layer.
pub open spec fn numbers_defined(width: nat, height: nat, mines_width: nat, mines_height: nat) -> bool {
    width * height <= 1 || (width <= mines_width && height <= mines_height)
}

/// Whether `pos` comes before row `y` of column `x` when the grid is read
/// column by column, each column top to bottom.
pub open spec fn derived_before(pos: Coordinates, x: nat, y: nat) -> bool {
    pos.x < x || (pos.x == x && pos.y < y)
}

/// The width of the rows of a grid, read off its first row.
pub open spec fn row_width<T>(rows: Seq<Vec<T>>) -> nat {
    if rows.len() > 0 {
        rows[0].len() as nat
    } else {
        0
    }
}

/// Whether every cell of the `width` by `height` grid that touches `pos`
/// exists in a mine layer of `mines_width` by `mines_height` cells.
pub open spec fn neighbours_known(
    pos: Coordinates,
    width: nat,
    height: nat,
    mines_width: nat,
    mines_height: nat,
) -> bool {
    forall|q: Coordinates|
        in_bounds(q, width, height) && #[trigger] adjacent(pos, q) ==> in_bounds(
            q,
            mines_width,
            mines_height,
        )
}

/// The members of `mines` that touch `pos` and come before row `y` of column
/// `x` when the grid is read column by column.
pub open spec fn adjacent_before(mines: Set<Coordinates>, pos: Coordinates, x: nat, y: nat) -> Set<
    Coordinates,
> {
    adjacent_mines(mines, pos).filter(|q: Coordinates| derived_before(q, x, y))
}

/// 1 when a mine lies at column `x` of row `y`, 0 when none does. Fails when
/// the mine layer has no such cell.
fn mine_at(landmines: &LandmineField, x: usize, y: usize) -> (r: Result<i32, BoardError>)
    requires
        landmines.wf(),
    ensures
        r is Ok <==> in_bounds(Coordinates { x, y }, landmines.width(), landmines.height()),
        r matches Ok(n) ==> n == (if landmines.active_cells().contains(Coordinates { x, y }) {
            1i32
        } else {
            0i32
        }),
{
    let mined = *landmines.get(&Coordinates { x, y })?;
    if mined {
        Ok(1)
    } else {
        Ok(0)
    }
}

/// The number of mines around column `i` of row `j`, looking only at cells of
/// the `width` by `height` grid. Fails when the mine layer lacks one of them.
fn count_around(landmines: &LandmineField, width: usize, height: usize, i: usize, j: usize) -> (r:
    Result<i32, BoardError>)
    requires
        landmines.wf(),
        i < width,
        j < height,
    ensures
        r is Ok <==> neighbours_known(
            Coordinates { x: i, y: j },
            width as nat,
            height as nat,
            landmines.width(),
            landmines.height(),
        ),
        r matches Ok(n) ==> 0 <= n <= 8 && n == mine_count(
            mines_on_grid(landmines.active_cells(), width as nat, height as nat),
            Coordinates { x: i, y: j },
        ),
{
    let ghost mines = mines_on_grid(landmines.active_cells(), width as nat, height as nat);
    let ghost here = Coordinates { x: i, y: j };
    let ghost lw = landmines.width();
    let ghost lh = landmines.height();
    let first_x = if i >= 1 {
        i - 1
    } else {
        0
    };
    let last_x = if i + 1 < width {
        i + 1
    } else {
        i
    };
    let first_y = if j >= 1 {
        j - 1
    } else {
        0
    };
    let last_y = if j + 1 < height {
        j + 1
    } else {
        j
    };
    let mut count: i32 = 0;
    let mut x = first_x;
    proof {
        assert(adjacent_before(mines, here, x as nat, 0) =~= Set::<Coordinates>::empty());
    }
    while x <= last_x
        invariant
            landmines.wf(),
            i < width,
            j < height,
            here == (Coordinates { x: i, y: j }),
            mines == mines_on_grid(landmines.active_cells(), width as nat, height as nat),
            lw == landmines.width(),
            lh == landmines.height(),
            first_x == (if i >= 1 { i - 1 } else { 0 }),
            last_x == (if i + 1 < width { (i + 1) as usize } else { i }),
            first_y == (if j >= 1 { j - 1 } else { 0 }),
            last_y == (if j + 1 < height { (j + 1) as usize } else { j }),
            first_x <= x <= last_x + 1,
            count == adjacent_before(mines, here, x as nat, 0).len(),
            0 <= count,
            count + (if x > i { 1int } else { 0int }) <= 3 * (x - first_x),
            forall|q: Coordinates|
                in_bounds(q, width as nat, height as nat) && #[trigger] adjacent(here, q)
                    && derived_before(q, x as nat, 0) ==> in_bounds(q, lw, lh),
        decreases last_x + 1 - x,
    {
        let mut y = first_y;
        proof {
            assert(adjacent_before(mines, here, x as nat, y as nat) =~= adjacent_before(
                mines,
                here,
                x as nat,
                0,
            ));
        }
        while y <= last_y
            invariant
                landmines.wf(),
                i < width,
                j < height,
                here == (Coordinates { x: i, y: j }),
                mines == mines_on_grid(landmines.active_cells(), width as nat, height as nat),
                lw == landmines.width(),
                lh == landmines.height(),
                first_x == (if i >= 1 { i - 1 } else { 0 }),
                last_x == (if i + 1 < width { (i + 1) as usize } else { i }),
                first_y == (if j >= 1 { j - 1 } else { 0 }),
                last_y == (if j + 1 < height { (j + 1) as usize } else { j }),
                first_x <= x <= last_x,
                first_y <= y <= last_y + 1,
                count == adjacent_before(mines, here, x as nat, y as nat).len(),
                0 <= count,
                count + (if derived_before(here, x as nat, y as nat) { 1int } else { 0int }) <= 3 * (x
                    - first_x) + (y - first_y),
                forall|q: Coordinates|
                    in_bounds(q, width as nat, height as nat) && #[trigger] adjacent(here, q)
                        && derived_before(q, x as nat, y as nat) ==> in_bounds(q, lw, lh),
            decreases last_y + 1 - y,
        {
            let ghost seen = adjacent_before(mines, here, x as nat, y as nat);
            let ghost next = adjacent_before(mines, here, x as nat, (y + 1) as nat);
            let ghost q = Coordinates { x, y };
            proof {
                assert(seen.subset_of(all_cells(width as nat, height as nat)));
                assert(next.subset_of(all_cells(width as nat, height as nat)));
                lemma_cells_on_grid(seen, width as nat, height as nat);
                lemma_cells_on_grid(next, width as nat, height as nat);
            }
            if x != i || y != j {
                proof {
                    assert(adjacent(here, q));
                }
                let n = mine_at(landmines, x, y)?;
                proof {
                    if n == 1 {
                        assert(next =~= seen.insert(q));
                    } else {
                        assert(next =~= seen);
                    }
                }
                count = count + n;
            } else {
                proof {
                    assert(next =~= seen);
                }
            }
            y += 1;
        }
        proof {
            assert(adjacent_before(mines, here, x as nat, y as nat) =~= adjacent_before(
                mines,
                here,
                (x + 1) as nat,
                0,
            ));
        }
        x += 1;
    }
    proof {
        assert(adjacent_before(mines, here, x as nat, 0) =~= adjacent_mines(mines, here));
    }
    Ok(count)
}

/// For each cell, the number of mines among its up to eight neighbours.
#[derive(Debug)]
pub struct NumberField {
    width: usize,
    height: usize,
    field: Vec<Vec<i32>>,
    count: usize,
}

impl NumberField {
    /// Derives the numbers of a `width` by `height` grid from `landmines`.
    /// Mines beyond that grid are not counted. Fails when the mine layer lacks
    /// a cell whose content a number depends on.
    pub fn new(width: usize, height: usize, landmines: &LandmineField) -> (r: Result<Self, BoardError>)
        requires
            landmines.wf(),
            width * height <= usize::MAX,
        ensures
            r is Ok <==> numbers_defined(
                width as nat,
                height as nat,
                landmines.width(),
                landmines.height(),
            ),
            r matches Ok(numbers) ==> {
                &&& numbers.wf()
                &&& numbers.width() == width
                &&& numbers.height() == height
                &&& forall|p: Coordinates|
                    in_bounds(p, width as nat, height as nat) ==> #[trigger] numbers.cell(p)
                        == mine_count(
                        mines_on_grid(landmines.active_cells(), width as nat, height as nat),
                        p,
                    )
            },
    {
        let field = NumberField::calculate_numbers(width, height, landmines)?;
        proof {
            assert(active_in(field@, row_width(field@), field@.len()) =~= active_in(
                field@,
                width as nat,
                height as nat,
            ));
            if height > 0 {
                assert(field@[0].len() == width);
            } else {
                assert(row_width(field@) * field@.len() == 0) by (nonlinear_arith)
                    requires
                        field@.len() == 0,
                ;
            }
        }
        let count = Self::get_count(&field);
        Ok(NumberField { width, height, field, count })
    }

    /// The rows of numbers for a `width` by `height` grid over `landmines`:
    /// each cell holds the number of mines on that grid that touch it.
    pub fn calculate_numbers(width: usize, height: usize, landmines: &LandmineField) -> (r: Result<
        Vec<Vec<i32>>,
        BoardError,
    >)
        requires
            landmines.wf(),
        ensures
            r is Ok <==> numbers_defined(
                width as nat,
                height as nat,
                landmines.width(),
                landmines.height(),
            ),
            r matches Ok(rows) ==> {
                &&& is_grid(rows@, width as nat, height as nat)
                &&& forall|p: Coordinates|
                    in_bounds(p, width as nat, height as nat) ==> #[trigger] cell_of(rows@, p)
                        == mine_count(
                        mines_on_grid(landmines.active_cells(), width as nat, height as nat),
                        p,
                    )
                &&& forall|p: Coordinates|
                    in_bounds(p, width as nat, height as nat) ==> 0 <= #[trigger] cell_of(rows@, p)
                        <= 8
            },
    {
        let ghost mines = mines_on_grid(landmines.active_cells(), width as nat, height as nat);
        let ghost lw = landmines.width();
        let ghost lh = landmines.height();
        let mut set_values: Vec<(Coordinates, i32)> = Vec::new();
        let mut i: usize = 0;
        while i < width
            invariant
                i <= width,
                landmines.wf(),
                mines == mines_on_grid(landmines.active_cells(), width as nat, height as nat),
                lw == landmines.width(),
                lh == landmines.height(),
                writes_in_bounds(set_values@, width as nat, height as nat),
                forall|q: Coordinates|
                    in_bounds(q, width as nat, height as nat) ==> #[trigger] last_write(
                        set_values@,
                        q,
                    ) == (if derived_before(q, i as nat, 0) {
                        Some(mine_count(mines, q) as i32)
                    } else {
                        None
                    }),
                forall|q: Coordinates|
                    in_bounds(q, width as nat, height as nat) && derived_before(q, i as nat, 0)
                        ==> #[trigger] mine_count(mines, q) <= 8,
                forall|p: Coordinates|
                    in_bounds(p, width as nat, height as nat) && derived_before(p, i as nat, 0)
                        ==> #[trigger] neighbours_known(p, width as nat, height as nat, lw, lh),
            decreases width - i,
        {
            let mut j: usize = 0;
            while j < height
                invariant
                    i < width,
                    j <= height,
                    landmines.wf(),
                    mines == mines_on_grid(landmines.active_cells(), width as nat, height as nat),
                    lw == landmines.width(),
                    lh == landmines.height(),
                    writes_in_bounds(set_values@, width as nat, height as nat),
                    forall|q: Coordinates|
                        in_bounds(q, width as nat, height as nat) ==> #[trigger] last_write(
                            set_values@,
                            q,
                        ) == (if derived_before(q, i as nat, j as nat) {
                            Some(mine_count(mines, q) as i32)
                        } else {
                            None
                        }),
                    forall|q: Coordinates|
                        in_bounds(q, width as nat, height as nat) && derived_before(
                            q,
                            i as nat,
                            j as nat,
                        ) ==> #[trigger] mine_count(mines, q) <= 8,
                    forall|p: Coordinates|
                        in_bounds(p, width as nat, height as nat) && derived_before(
                            p,
                            i as nat,
                            j as nat,
                        ) ==> #[trigger] neighbours_known(p, width as nat, height as nat, lw, lh),
                decreases height - j,
            {
                let ghost here = Coordinates { x: i, y: j };
                proof {
                    assert((width >= 2 || height >= 2) ==> width * height >= 2)
                        by (nonlinear_arith)
                        requires
                            width >= 1,
                            height >= 1,
                    ;
                }
                let count = count_around(landmines, width, height, i, j)?;
                let ghost earlier = set_values@;
                set_values.push((Coordinates { x: i, y: j }, count));
                proof {
                    assert(set_values@.drop_last() =~= earlier);
                    assert(set_values@.last() == (here, count));
                    assert forall|q: Coordinates|
                        in_bounds(q, width as nat, height as nat) implies #[trigger] last_write(
                        set_values@,
                        q,
                    ) == (if derived_before(q, i as nat, (j + 1) as nat) {
                        Some(mine_count(mines, q) as i32)
                    } else {
                        None
                    }) by {
                        assert(last_write(earlier, q) == (if derived_before(q, i as nat, j as nat) {
                            Some(mine_count(mines, q) as i32)
                        } else {
                            None
                        }));
                    }
                }
                j += 1;
            }
            i += 1;
        }
        let r = Self::set_field(set_values.as_slice(), width, height, 0);
        proof {
            if width >= 1 && height >= 1 && (width >= 2 || height >= 2) {
                let corner = Coordinates { x: (width - 1) as usize, y: (height - 1) as usize };
                let beside = if width >= 2 {
                    Coordinates { x: (width - 2) as usize, y: (height - 1) as usize }
                } else {
                    Coordinates { x: (width - 1) as usize, y: (height - 2) as usize }
                };
                assert(neighbours_known(beside, width as nat, height as nat, lw, lh));
                assert(adjacent(beside, corner));
            } else {
                assert(width * height <= 1) by (nonlinear_arith)
                    requires
                        width == 0 || height == 0 || (width == 1 && height == 1),
                ;
            }
            let rows = r->Ok_0;
            assert forall|p: Coordinates| in_bounds(p, width as nat, height as nat) implies (
            #[trigger] cell_of(rows@, p) == mine_count(mines, p) && 0 <= cell_of(rows@, p) <= 8) by {
                assert(cell_of(rows@, p) == written(set_values@, p, 0i32));
                assert(last_write(set_values@, p) == Some(mine_count(mines, p) as i32));
                assert(mine_count(mines, p) <= 8);
            }
        }
        r
    }

    /// The number of positive cells of `field`, read off the rows themselves.
    pub fn get_count(field: &Vec<Vec<i32>>) -> (count: usize)
        requires
            is_grid(field@, row_width(field@), field@.len()),
            row_width(field@) * field@.len() <= usize::MAX,
        ensures
            count == active_in(field@, row_width(field@), field@.len()).len(),
    {
        let height = field.len();
        let width = if height > 0 {
            field[0].len()
        } else {
            0
        };
        count_active(field, width, height)
    }

    /// The positive cells are the active ones, and every number on the grid
    /// lies between 0 and 8.
    pub proof fn lemma_numbers(&self)
        requires
            self.wf(),
        ensures
            forall|p: Coordinates|
                self.active_cells().contains(p) <==> in_bounds(p, self.width(), self.height())
                    && self.cell(p) > 0,
            forall|p: Coordinates|
                in_bounds(p, self.width(), self.height()) ==> 0 <= #[trigger] self.cell(p) <= 8,
            self.width() * self.height() <= usize::MAX,
    {
    }
}

impl Field<i32, BoardError> for NumberField {
    /// The rows match the dimensions, every number is between 0 and 8, and
    /// the tally is the number of positive cells.
    closed spec fn wf(&self) -> bool {
        &&& self.width * self.height <= usize::MAX
        &&& is_grid(self.field@, self.width as nat, self.height as nat)
        &&& self.count == active_in(self.field@, self.width as nat, self.height as nat).len()
        &&& forall|p: Coordinates|
            in_bounds(p, self.width as nat, self.height as nat) ==> 0 <= #[trigger] cell_of(
                self.field@,
                p,
            ) <= 8
    }

    closed spec fn width(&self) -> nat {
        self.width as nat
    }

    closed spec fn height(&self) -> nat {
        self.height as nat
    }

    closed spec fn cell(&self, pos: Coordinates) -> i32 {
        cell_of(self.field@, pos)
    }

    closed spec fn active_cells(&self) -> Set<Coordinates> {
        active_in(self.field@, self.width as nat, self.height as nat)
    }

    fn get_count(&self) -> (count: &usize) {
        &self.count
    }

    fn get_field(&self) -> (rows: &Vec<Vec<i32>>) {
        &self.field
    }

    fn get_height(&self) -> (height: &usize) {
        &self.height
    }

    fn get_width(&self) -> (width: &usize) {
        &self.width
    }

    fn get(&self, pos: &Coordinates) -> (r: Result<&i32, BoardError>) {
        if pos.x >= self.width || pos.y >= self.height {
            Err(BoardError::CoordinatesOutOffRange)
        } else {
            assert(cell_of(self.field@, *pos) == self.field@[pos.y as int]@[pos.x as int]);
            Ok(&self.field[pos.y][pos.x])
        }
    }
}

impl Clone for NumberField {
    /// A copy with the same numbers.
    fn clone(&self) -> (copy: Self)
        ensures
            copy.width() == self.width(),
            copy.height() == self.height(),
            self.wf() ==> copy.wf() && forall|p: Coordinates|
                in_bounds(p, self.width(), self.height()) ==> #[trigger] copy.cell(p) == self.cell(p),
    {
        let field = self.field.clone();
        proof {
            assert forall|y: int| 0 <= y < self.field@.len() implies #[trigger] field@[y]@
                == self.field@[y]@ by {
                let from = self.field@[y];
                let to = field@[y];
                assert(cloned::<Vec<i32>>(from, to));
                assert(to.len() == from.len());
                assert forall|x: int| 0 <= x < from.len() implies to@[x] == from@[x] by {
                    assert(cloned::<i32>(from[x], to[x]));
                }
                assert(to@ =~= from@);
            }
            if self.wf() {
                assert forall|p: Coordinates|
                    in_bounds(p, self.width as nat, self.height as nat) implies #[trigger] cell_of(
                    field@,
                    p,
                ) == cell_of(self.field@, p) by {
                    assert(field@[p.y as int]@ == self.field@[p.y as int]@);
                }
                assert(active_in(field@, self.width as nat, self.height as nat) =~= active_in(
                    self.field@,
                    self.width as nat,
                    self.height as nat,
                ));
            }
        }
        NumberField { width: self.width, height: self.height, field, count: self.count }
    }
}

} // verus!
