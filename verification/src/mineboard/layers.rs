//! The three boolean layers of the board: where the mines lie, where the
//! player has planted flags, and which cells the player has opened.

use crate::mineboard::cells::{all_cells, in_bounds, writes_in_bounds, written};
use crate::mineboard::field::{BoardError, ChangeableField, Field};
use crate::mineboard::marks::Marks;
use crate::utils::Coordinates;
use vstd::prelude::*;

verus! {

/// A write of `true` for each of `positions`, in order.
pub open spec fn mine_writes(positions: Seq<Coordinates>) -> Seq<(Coordinates, bool)> {
    positions.map_values(|p: Coordinates| (p, true))
}

/// Writing `true` at each of `positions` onto a cleared grid leaves `true`
/// exactly at the listed addresses.
pub proof fn lemma_mine_writes(positions: Seq<Coordinates>, pos: Coordinates)
    ensures
        written(mine_writes(positions), pos, false) == positions.contains(pos),
    decreases positions.len(),
{
    let writes = mine_writes(positions);
    if positions.len() > 0 {
        let earlier = positions.drop_last();
        lemma_mine_writes(earlier, pos);
        assert(writes.drop_last() =~= mine_writes(earlier));
        assert(writes.last() == (positions.last(), true));
        if positions.last() == pos {
            assert(positions[positions.len() - 1] == pos);
        } else if positions.contains(pos) {
            let i = choose|i: int| 0 <= i < positions.len() && positions[i] == pos;
            assert(earlier[i] == pos);
        } else if earlier.contains(pos) {
            let i = choose|i: int| 0 <= i < earlier.len() && earlier[i] == pos;
            assert(positions[i] == pos);
        }
    }
}

/// Where the mines lie. Fixed once the board is built.
#[derive(Debug)]
pub struct LandmineField {
    marks: Marks,
}

impl LandmineField {
    /// A `width` by `height` layer with a mine at each of `landmine_positions`;
    /// a position listed twice is one mine. Fails when a position is off the grid.
    pub fn new(landmine_positions: &[Coordinates], width: usize, height: usize) -> (r: Result<
        LandmineField,
        BoardError,
    >)
        requires
            width * height <= usize::MAX,
        ensures
            r is Ok <==> forall|i: int|
                0 <= i < landmine_positions@.len() ==> in_bounds(
                    #[trigger] landmine_positions@[i],
                    width as nat,
                    height as nat,
                ),
            r matches Ok(mines) ==> {
                &&& mines.wf()
                &&& mines.width() == width
                &&& mines.height() == height
                &&& mines.active_cells() == landmine_positions@.to_set()
            },
    {
        let mut set_values: Vec<(Coordinates, bool)> = Vec::new();
        let mut k: usize = 0;
        while k < landmine_positions.len()
            invariant
                k <= landmine_positions.len(),
                set_values@ == mine_writes(landmine_positions@.take(k as int)),
            decreases landmine_positions.len() - k,
        {
            set_values.push((landmine_positions[k], true));
            proof {
                assert(set_values@ =~= mine_writes(landmine_positions@.take(k + 1)));
            }
            k += 1;
        }
        proof {
            assert(landmine_positions@.take(k as int) =~= landmine_positions@);
            let writes = mine_writes(landmine_positions@);
            if writes_in_bounds(writes, width as nat, height as nat) {
                assert forall|i: int| 0 <= i < landmine_positions@.len() implies in_bounds(
                    #[trigger] landmine_positions@[i],
                    width as nat,
                    height as nat,
                ) by {
                    assert(writes[i].0 == landmine_positions@[i]);
                }
            }
        }
        let rows = Self::set_field(set_values.as_slice(), width, height, false)?;
        let marks = Marks::from_rows(rows, width, height);
        proof {
            marks.lemma_marked();
            assert forall|p: Coordinates|
                marks.marked().contains(p) <==> landmine_positions@.to_set().contains(p) by {
                lemma_mine_writes(landmine_positions@, p);
                if landmine_positions@.contains(p) {
                    let i = choose|i: int|
                        0 <= i < landmine_positions@.len() && landmine_positions@[i] == p;
                    assert(in_bounds(landmine_positions@[i], width as nat, height as nat));
                }
            }
            assert(marks.marked() =~= landmine_positions@.to_set());
        }
        Ok(LandmineField { marks })
    }

    /// The mined cells all lie on the grid, so there are finitely many of them
    /// and no more than the grid has cells.
    pub proof fn lemma_cells_on_grid(&self)
        requires
            self.wf(),
        ensures
            self.active_cells().subset_of(all_cells(self.width(), self.height())),
            self.active_cells().finite(),
            self.active_cells().len() <= self.width() * self.height() <= usize::MAX,
    {
        self.marks.lemma_marked();
    }
}

impl Field<bool, BoardError> for LandmineField {
    closed spec fn wf(&self) -> bool {
        self.marks.wf()
    }

    closed spec fn width(&self) -> nat {
        self.marks.width()
    }

    closed spec fn height(&self) -> nat {
        self.marks.height()
    }

    open spec fn cell(&self, pos: Coordinates) -> bool {
        self.active_cells().contains(pos)
    }

    closed spec fn active_cells(&self) -> Set<Coordinates> {
        self.marks.marked()
    }

    fn get_width(&self) -> (width: &usize) {
        self.marks.get_width()
    }

    fn get_height(&self) -> (height: &usize) {
        self.marks.get_height()
    }

    fn get_field(&self) -> (rows: &Vec<Vec<bool>>) {
        proof {
            self.marks.lemma_marked();
        }
        self.marks.get_field()
    }

    fn get_count(&self) -> (count: &usize) {
        self.marks.get_count()
    }

    fn get(&self, pos: &Coordinates) -> (r: Result<&bool, BoardError>) {
        self.marks.get(pos)
    }
}

impl Clone for LandmineField {
    /// A copy with the same cells.
    fn clone(&self) -> (copy: Self)
        ensures
            copy.width() == self.width(),
            copy.height() == self.height(),
            self.wf() ==> copy.wf() && copy.active_cells() == self.active_cells(),
    {
        LandmineField { marks: self.marks.clone() }
    }
}

/// Where the player has planted flags, whatever lies beneath them.
#[derive(Debug)]
pub struct FlagsField {
    marks: Marks,
}

impl FlagsField {
    /// A layer of `width` by `height` cells in which nothing is flagged.
    pub fn new(width: usize, height: usize) -> (r: Result<FlagsField, BoardError>)
        requires
            width * height <= usize::MAX,
        ensures
            r matches Ok(layer) && layer.wf() && layer.width() == width && layer.height() == height
                && layer.active_cells() == Set::<Coordinates>::empty(),
    {
        let nothing: Vec<(Coordinates, bool)> = Vec::new();
        let rows = Self::set_field(nothing.as_slice(), width, height, false)?;
        let marks = Marks::from_rows(rows, width, height);
        proof {
            marks.lemma_marked();
            assert(marks.marked() =~= Set::<Coordinates>::empty());
        }
        Ok(FlagsField { marks })
    }

    /// The flagged cells all lie on the grid, so there are finitely many of them
    /// and no more than the grid has cells.
    pub proof fn lemma_cells_on_grid(&self)
        requires
            self.wf(),
        ensures
            self.active_cells().subset_of(all_cells(self.width(), self.height())),
            self.active_cells().finite(),
            self.active_cells().len() <= self.width() * self.height() <= usize::MAX,
    {
        self.marks.lemma_marked();
    }
}

impl Field<bool, BoardError> for FlagsField {
    closed spec fn wf(&self) -> bool {
        self.marks.wf()
    }

    closed spec fn width(&self) -> nat {
        self.marks.width()
    }

    closed spec fn height(&self) -> nat {
        self.marks.height()
    }

    open spec fn cell(&self, pos: Coordinates) -> bool {
        self.active_cells().contains(pos)
    }

    closed spec fn active_cells(&self) -> Set<Coordinates> {
        self.marks.marked()
    }

    fn get_width(&self) -> (width: &usize) {
        self.marks.get_width()
    }

    fn get_height(&self) -> (height: &usize) {
        self.marks.get_height()
    }

    fn get_field(&self) -> (rows: &Vec<Vec<bool>>) {
        proof {
            self.marks.lemma_marked();
        }
        self.marks.get_field()
    }

    fn get_count(&self) -> (count: &usize) {
        self.marks.get_count()
    }

    fn get(&self, pos: &Coordinates) -> (r: Result<&bool, BoardError>) {
        self.marks.get(pos)
    }
}

impl ChangeableField for FlagsField {
    fn add(&mut self, pos: &Coordinates) -> (r: Result<(), BoardError>)
        ensures
            r is Err ==> *final(self) == *old(self),
    {
        self.marks.set(pos, true)
    }

    fn remove(&mut self, pos: &Coordinates) -> (r: Result<(), BoardError>)
        ensures
            r is Err ==> *final(self) == *old(self),
    {
        self.marks.set(pos, false)
    }
}

impl Clone for FlagsField {
    /// A copy with the same cells.
    fn clone(&self) -> (copy: Self)
        ensures
            copy.width() == self.width(),
            copy.height() == self.height(),
            self.wf() ==> copy.wf() && copy.active_cells() == self.active_cells(),
    {
        FlagsField { marks: self.marks.clone() }
    }
}

/// Which cells the player has opened.
#[derive(Debug)]
pub struct OpenedField {
    marks: Marks,
}

impl OpenedField {
    /// A layer of `width` by `height` cells in which nothing is opened.
    pub fn new(width: usize, height: usize) -> (r: Result<OpenedField, BoardError>)
        requires
            width * height <= usize::MAX,
        ensures
            r matches Ok(layer) && layer.wf() && layer.width() == width && layer.height() == height
                && layer.active_cells() == Set::<Coordinates>::empty(),
    {
        let nothing: Vec<(Coordinates, bool)> = Vec::new();
        let rows = Self::set_field(nothing.as_slice(), width, height, false)?;
        let marks = Marks::from_rows(rows, width, height);
        proof {
            marks.lemma_marked();
            assert(marks.marked() =~= Set::<Coordinates>::empty());
        }
        Ok(OpenedField { marks })
    }

    /// The opened cells all lie on the grid, so there are finitely many of them
    /// and no more than the grid has cells.
    pub proof fn lemma_cells_on_grid(&self)
        requires
            self.wf(),
        ensures
            self.active_cells().subset_of(all_cells(self.width(), self.height())),
            self.active_cells().finite(),
            self.active_cells().len() <= self.width() * self.height() <= usize::MAX,
    {
        self.marks.lemma_marked();
    }
}

impl Field<bool, BoardError> for OpenedField {
    closed spec fn wf(&self) -> bool {
        self.marks.wf()
    }

    closed spec fn width(&self) -> nat {
        self.marks.width()
    }

    closed spec fn height(&self) -> nat {
        self.marks.height()
    }

    open spec fn cell(&self, pos: Coordinates) -> bool {
        self.active_cells().contains(pos)
    }

    closed spec fn active_cells(&self) -> Set<Coordinates> {
        self.marks.marked()
    }

    fn get_width(&self) -> (width: &usize) {
        self.marks.get_width()
    }

    fn get_height(&self) -> (height: &usize) {
        self.marks.get_height()
    }

    fn get_field(&self) -> (rows: &Vec<Vec<bool>>) {
        proof {
            self.marks.lemma_marked();
        }
        self.marks.get_field()
    }

    fn get_count(&self) -> (count: &usize) {
        self.marks.get_count()
    }

    fn get(&self, pos: &Coordinates) -> (r: Result<&bool, BoardError>) {
        self.marks.get(pos)
    }
}

impl ChangeableField for OpenedField {
    fn add(&mut self, pos: &Coordinates) -> (r: Result<(), BoardError>)
        ensures
            r is Err ==> *final(self) == *old(self),
    {
        self.marks.set(pos, true)
    }

    fn remove(&mut self, pos: &Coordinates) -> (r: Result<(), BoardError>)
        ensures
            r is Err ==> *final(self) == *old(self),
    {
        self.marks.set(pos, false)
    }
}

impl Clone for OpenedField {
    /// A copy with the same cells.
    fn clone(&self) -> (copy: Self)
        ensures
            copy.width() == self.width(),
            copy.height() == self.height(),
            self.wf() ==> copy.wf() && copy.active_cells() == self.active_cells(),
    {
        OpenedField { marks: self.marks.clone() }
    }
}

} // verus!
