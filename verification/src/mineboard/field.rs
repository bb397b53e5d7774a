//! The interface shared by every layer of the board.

use crate::mineboard::cells::{cell_of, filled_grid, in_bounds, is_grid, writes_in_bounds, written};
use crate::utils::Coordinates;
use vstd::prelude::*;

verus! {

/// The one way a board operation fails: it was handed an address off the grid.
#[derive(Clone, Copy, Debug, PartialEq, Eq, Structural)]
pub enum BoardError {
    CoordinatesOutOffRange,
}

impl BoardError {
    /// The message shown for this error.
    pub fn to_string(&self) -> (message: String)
        ensures
            message@ == "coordinates out off range"@,
    {
        "coordinates out off range".to_owned()
    }
}

/// A grid of `T` with bounds-checked reads and a tally of its active cells.
pub trait Field<T: Copy, E> {
    /// Whether the rows, the dimensions and the tally of this grid agree.
    /// Constructors establish it and every operation keeps it.
    spec fn wf(&self) -> bool;

    /// The number of columns.
    spec fn width(&self) -> nat;

    /// The number of rows.
    spec fn height(&self) -> nat;

    /// The value held at `pos`, meaningful for addresses on the grid.
    spec fn cell(&self, pos: Coordinates) -> T;

    /// The addresses on the grid whose cell counts as active.
    spec fn active_cells(&self) -> Set<Coordinates>;

    /// Builds the rows of a `width` by `height` grid that holds `default_value`
    /// everywhere, then applies the writes of `set_values` in order. Fails, and
    /// builds nothing, when a write is addressed off the grid.
    fn set_field(set_values: &[(Coordinates, T)], width: usize, height: usize, default_value: T) -> (r:
        Result<Vec<Vec<T>>, BoardError>)
        ensures
            r is Ok <==> writes_in_bounds(set_values@, width as nat, height as nat),
            r matches Ok(rows) ==> {
                &&& is_grid(rows@, width as nat, height as nat)
                &&& forall|p: Coordinates|
                    in_bounds(p, width as nat, height as nat) ==> #[trigger] cell_of(rows@, p)
                        == written(set_values@, p, default_value)
            },
    {
        let mut field = filled_grid(width, height, default_value);
        let mut k: usize = 0;
        while k < set_values.len()
            invariant
                k <= set_values.len(),
                is_grid(field@, width as nat, height as nat),
                writes_in_bounds(set_values@.take(k as int), width as nat, height as nat),
                forall|p: Coordinates|
                    in_bounds(p, width as nat, height as nat) ==> #[trigger] cell_of(field@, p)
                        == written(set_values@.take(k as int), p, default_value),
            decreases set_values.len() - k,
        {
            let pos = set_values[k].0;
            let value = set_values[k].1;
            if pos.x >= width || pos.y >= height {
                return Err(BoardError::CoordinatesOutOffRange);
            }
            let ghost before = field@;
            field[pos.y][pos.x] = value;
            proof {
                let done = set_values@.take(k as int);
                let next = set_values@.take(k + 1);
                assert(next.drop_last() =~= done);
                assert(next.last() == set_values@[k as int]);
                assert forall|p: Coordinates|
                    in_bounds(p, width as nat, height as nat) implies #[trigger] cell_of(field@, p)
                    == written(next, p, default_value) by {
                    assert(cell_of(before, p) == written(done, p, default_value));
                }
            }
            k += 1;
        }
        proof {
            assert(set_values@.take(k as int) =~= set_values@);
        }
        Ok(field)
    }

    /// The number of columns.
    fn get_width(&self) -> (width: &usize)
        ensures
            *width == self.width(),
    ;

    /// The number of rows.
    fn get_height(&self) -> (height: &usize)
        ensures
            *height == self.height(),
    ;

    /// The rows of the grid, top row first.
    fn get_field(&self) -> (rows: &Vec<Vec<T>>)
        requires
            self.wf(),
        ensures
            is_grid(rows@, self.width(), self.height()),
            forall|p: Coordinates|
                in_bounds(p, self.width(), self.height()) ==> #[trigger] cell_of(rows@, p)
                    == self.cell(p),
    ;

    /// The number of active cells.
    fn get_count(&self) -> (count: &usize)
        requires
            self.wf(),
        ensures
            *count == self.active_cells().len(),
    ;

    /// Reads the cell at `pos`, or fails when `pos` is off the grid.
    fn get(&self, pos: &Coordinates) -> (r: Result<&T, E>)
        requires
            self.wf(),
        ensures
            r is Ok <==> in_bounds(*pos, self.width(), self.height()),
            r matches Ok(value) ==> *value == self.cell(*pos),
    ;
}

/// A boolean layer whose cells can be switched on and off.
pub trait ChangeableField: Field<bool, BoardError> {
    /// Switches the cell at `pos` on. Fails, and changes nothing, when `pos`
    /// is off the grid.
    fn add(&mut self, pos: &Coordinates) -> (r: Result<(), BoardError>)
        requires
            old(self).wf(),
        ensures
            final(self).wf(),
            final(self).width() == old(self).width(),
            final(self).height() == old(self).height(),
            r is Ok <==> in_bounds(*pos, old(self).width(), old(self).height()),
            r is Ok ==> final(self).active_cells() == old(self).active_cells().insert(*pos),
            r is Err ==> final(self).active_cells() == old(self).active_cells(),
    ;

    /// Switches the cell at `pos` off. Fails, and changes nothing, when `pos`
    /// is off the grid.
    fn remove(&mut self, pos: &Coordinates) -> (r: Result<(), BoardError>)
        requires
            old(self).wf(),
        ensures
            final(self).wf(),
            final(self).width() == old(self).width(),
            final(self).height() == old(self).height(),
            r is Ok <==> in_bounds(*pos, old(self).width(), old(self).height()),
            r is Ok ==> final(self).active_cells() == old(self).active_cells().remove(*pos),
            r is Err ==> final(self).active_cells() == old(self).active_cells(),
    ;
}

} // verus!
