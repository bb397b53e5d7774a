//! A grid of booleans that keeps count of the cells that are switched on.
//! The mine, flag and opened layers are each one of these under another name.

use crate::mineboard::cells::{
    active_in, all_cells, cell_of, count_active, in_bounds, is_grid, lemma_cells_on_grid,
};
use crate::mineboard::field::BoardError;
use crate::utils::Coordinates;
use vstd::prelude::*;

verus! {

/// A grid of booleans together with the number of its cells that hold `true`.
#[derive(Debug)]
pub struct Marks {
    width: usize,
    height: usize,
    field: Vec<Vec<bool>>,
    count: usize,
}

impl Marks {
    /// The tally agrees with the rows, and the rows with the dimensions.
    pub closed spec fn wf(&self) -> bool {
        &&& self.width * self.height <= usize::MAX
        &&& is_grid(self.field@, self.width as nat, self.height as nat)
        &&& self.count == self.marked().len()
    }

    /// The number of columns.
    pub closed spec fn width(&self) -> nat {
        self.width as nat
    }

    /// The number of rows.
    pub closed spec fn height(&self) -> nat {
        self.height as nat
    }

    /// The rows of cells, top row first.
    pub closed spec fn rows(&self) -> Seq<Vec<bool>> {
        self.field@
    }

    /// The addresses whose cell holds `true`.
    pub closed spec fn marked(&self) -> Set<Coordinates> {
        active_in(self.field@, self.width as nat, self.height as nat)
    }

    /// The marked cells are those of the rows that hold `true`, and they all
    /// lie on the grid.
    pub proof fn lemma_marked(&self)
        requires
            self.wf(),
        ensures
            self.marked() == active_in(self.rows(), self.width(), self.height()),
            self.marked().subset_of(all_cells(self.width(), self.height())),
            self.marked().finite(),
            self.marked().len() <= self.width() * self.height() <= usize::MAX,
            is_grid(self.rows(), self.width(), self.height()),
    {
        lemma_cells_on_grid(self.marked(), self.width(), self.height());
    }

    /// Takes over `rows` as they are and counts what they hold.
    pub fn from_rows(rows: Vec<Vec<bool>>, width: usize, height: usize) -> (marks: Marks)
        requires
            is_grid(rows@, width as nat, height as nat),
            width * height <= usize::MAX,
        ensures
            marks.wf(),
            marks.width() == width,
            marks.height() == height,
            marks.rows() == rows@,
    {
        let count = count_active(&rows, width, height);
        Marks { width, height, field: rows, count }
    }

    /// The number of columns.
    pub fn get_width(&self) -> (width: &usize)
        ensures
            *width == self.width(),
    {
        &self.width
    }

    /// The number of rows.
    pub fn get_height(&self) -> (height: &usize)
        ensures
            *height == self.height(),
    {
        &self.height
    }

    /// The rows of cells, top row first.
    pub fn get_field(&self) -> (rows: &Vec<Vec<bool>>)
        ensures
            rows@ == self.rows(),
    {
        &self.field
    }

    /// The number of cells that hold `true`.
    pub fn get_count(&self) -> (count: &usize)
        requires
            self.wf(),
        ensures
            *count == self.marked().len(),
    {
        &self.count
    }

    /// Reads the cell at `pos`, or fails when `pos` is off the grid.
    pub fn get(&self, pos: &Coordinates) -> (r: Result<&bool, BoardError>)
        requires
            self.wf(),
        ensures
            r is Ok <==> in_bounds(*pos, self.width(), self.height()),
            r matches Ok(value) ==> *value == self.marked().contains(*pos),
    {
        if pos.x >= self.width || pos.y >= self.height {
            Err(BoardError::CoordinatesOutOffRange)
        } else {
            assert(cell_of(self.field@, *pos) == self.field@[pos.y as int]@[pos.x as int]);
            Ok(&self.field[pos.y][pos.x])
        }
    }

    /// Writes `value` to the cell at `pos` and moves the tally only when the
    /// cell changes. Fails, and changes nothing, when `pos` is off the grid.
    pub fn set(&mut self, pos: &Coordinates, value: bool) -> (r: Result<(), BoardError>)
        requires
            old(self).wf(),
        ensures
            final(self).wf(),
            final(self).width() == old(self).width(),
            final(self).height() == old(self).height(),
            r is Ok <==> in_bounds(*pos, old(self).width(), old(self).height()),
            r is Ok && value ==> final(self).marked() == old(self).marked().insert(*pos),
            r is Ok && !value ==> final(self).marked() == old(self).marked().remove(*pos),
            r is Err ==> *final(self) == *old(self),
    {
        if pos.x >= self.width || pos.y >= self.height {
            return Err(BoardError::CoordinatesOutOffRange);
        }
        proof {
            self.lemma_marked();
        }
        let ghost before = self.marked();
        assert(cell_of(self.field@, *pos) == self.field@[pos.y as int]@[pos.x as int]);
        let was = self.field[pos.y][pos.x];
        if value && !was {
            self.field[pos.y][pos.x] = true;
            proof {
                assert(self.marked() =~= before.insert(*pos));
                lemma_cells_on_grid(self.marked(), self.width as nat, self.height as nat);
            }
            self.count = self.count + 1;
        } else if !value && was {
            self.field[pos.y][pos.x] = false;
            proof {
                assert(self.marked() =~= before.remove(*pos));
            }
            self.count = self.count - 1;
        } else {
            proof {
                if value {
                    assert(before.insert(*pos) =~= before);
                } else {
                    assert(before.remove(*pos) =~= before);
                }
            }
        }
        Ok(())
    }
}

impl Clone for Marks {
    /// A copy with the same cells and the same tally.
    fn clone(&self) -> (copy: Self)
        ensures
            copy.width() == self.width(),
            copy.height() == self.height(),
            self.wf() ==> copy.wf() && copy.marked() == self.marked(),
    {
        let field = self.field.clone();
        proof {
            assert forall|y: int| 0 <= y < self.field@.len() implies #[trigger] field@[y]@
                == self.field@[y]@ by {
                let from = self.field@[y];
                let to = field@[y];
                assert(cloned::<Vec<bool>>(from, to));
                assert(to.len() == from.len());
                assert forall|x: int| 0 <= x < from.len() implies to@[x] == from@[x] by {
                    assert(cloned::<bool>(from[x], to[x]));
                }
                assert(to@ =~= from@);
            }
            if self.wf() {
                assert(active_in(field@, self.width as nat, self.height as nat) =~= active_in(
                    self.field@,
                    self.width as nat,
                    self.height as nat,
                ));
            }
        }
        Marks { width: self.width, height: self.height, field, count: self.count }
    }
}

} // verus!
