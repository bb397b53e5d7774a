//! The board: the four layers, the configuration they are drawn with, and the
//! frame of symbols that a render sends to the terminal.

use crate::mineboard::cells::{all_cells, in_bounds, is_grid};
use crate::mineboard::config::{
    BoardConfig, CLOSED_SYMBOL, FLAG_SYMBOL, LANDMINE_SYMBOL, LINE_BREAK, NUMBER_SYMBOL,
    OPEN_SYMBOL,
};
use crate::mineboard::field::{BoardError, ChangeableField, Field};
use crate::mineboard::layers::{FlagsField, LandmineField, OpenedField};
use crate::mineboard::numbers::{derived_before, mine_count, mines_on_grid, NumberField};
use crate::utils::Coordinates;
use vstd::prelude::*;
use vstd::string::StringExecFns;

verus! {

/// What a cell truly is, whether or not the player can see it yet.
#[derive(Clone, Copy, Debug, PartialEq, Eq, Structural)]
pub enum ItemType {
    Nothing,
    Landmine,
    Number(i32),
}

/// What a cell is on a board with mines at `mines`: a mine, the positive
/// number of mines around it, or nothing.
pub open spec fn item_of(mines: Set<Coordinates>, pos: Coordinates) -> ItemType {
    if mines.contains(pos) {
        ItemType::Landmine
    } else if mine_count(mines, pos) > 0 {
        ItemType::Number(mine_count(mines, pos) as i32)
    } else {
        ItemType::Nothing
    }
}

/// The text of every cell of a frame, row by row.
pub open spec fn frame_of(rows: Seq<Vec<String>>) -> Seq<Seq<Seq<char>>> {
    rows.map_values(|row: Vec<String>| row@.map_values(|symbol: String| symbol@))
}

/// A frame of `rows` rows of `columns` cells that are all empty.
pub open spec fn blank_frame(columns: nat, rows: nat) -> Seq<Seq<Seq<char>>> {
    Seq::new(rows, |row: int| Seq::new(columns, |column: int| Seq::<char>::empty()))
}

/// The text of the cell at `column` of `row` in the frame `rows`.
pub open spec fn text_at(rows: Seq<Vec<String>>, column: int, row: int) -> Seq<char> {
    rows[row]@[column]@
}

/// The border symbol that belongs at `column` of `row` in the frame of a
/// board drawn with `config`, or `None` where the frame shows a cell of the
/// grid.
pub open spec fn border_symbol(config: BoardConfig, column: int, row: int) -> Option<Seq<char>> {
    let right = config.width + 1;
    let bottom = config.height + 1;
    if row == 0 {
        if column == 0 {
            Some(config.border_top_left_symbol@)
        } else if column == right {
            Some(config.border_top_right_symbol@)
        } else {
            Some(config.border_top@)
        }
    } else if row == bottom {
        if column == 0 {
            Some(config.border_bottom_left_symbol@)
        } else if column == right {
            Some(config.border_bottom_right_symbol@)
        } else {
            Some(config.border_bottom@)
        }
    } else if column == 0 {
        Some(config.border_left@)
    } else if column == right {
        Some(config.border_right@)
    } else {
        None
    }
}

/// The character that stands for the digit `n`.
pub open spec fn digit(n: nat) -> char {
    (48 + n) as char
}

/// The symbol of a cell, given what the layers hold at it. A flag hides all
/// else; an opened cell shows its mine, else its positive number followed by
/// a filler, else an open cell; a cell neither flagged nor opened is closed.
pub open spec fn symbol_of(flagged: bool, opened: bool, mined: bool, number: nat) -> Seq<char> {
    if flagged {
        FLAG_SYMBOL@
    } else if opened {
        if mined {
            LANDMINE_SYMBOL@
        } else if number > 0 {
            seq![digit(number)] + NUMBER_SYMBOL@
        } else {
            OPEN_SYMBOL@
        }
    } else {
        CLOSED_SYMBOL@
    }
}

/// The text of one row of a frame: its cells one after another, then a line break.
pub open spec fn line_of(row: Seq<Seq<char>>) -> Seq<char> {
    row.flatten() + LINE_BREAK@
}

/// The text of a whole frame: its rows from top to bottom, each ended by a
/// line break.
pub open spec fn frame_text(frame: Seq<Seq<Seq<char>>>) -> Seq<char> {
    frame.map_values(|row: Seq<Seq<char>>| line_of(row)).flatten()
}

/// The one-character text of a digit.
fn digit_symbol(n: i32) -> (symbol: &'static str)
    requires
        0 <= n <= 9,
    ensures
        symbol@ == seq![digit(n as nat)],
{
    proof {
        reveal_strlit("0");
        reveal_strlit("1");
        reveal_strlit("2");
        reveal_strlit("3");
        reveal_strlit("4");
        reveal_strlit("5");
        reveal_strlit("6");
        reveal_strlit("7");
        reveal_strlit("8");
        reveal_strlit("9");
    }
    let symbol = match n {
        0 => "0",
        1 => "1",
        2 => "2",
        3 => "3",
        4 => "4",
        5 => "5",
        6 => "6",
        7 => "7",
        8 => "8",
        _ => "9",
    };
    assert(symbol@ =~= seq![digit(n as nat)]);
    symbol
}

/// Writes `symbol` into the cell at `column` of `row` and leaves every other
/// cell of the frame as it is.
fn put(frame: &mut Vec<Vec<String>>, column: usize, row: usize, symbol: &str)
    requires
        row < old(frame).len(),
        column < old(frame)[row as int].len(),
    ensures
        final(frame).len() == old(frame).len(),
        forall|r: int|
            0 <= r < old(frame).len() ==> (#[trigger] final(frame)[r]).len() == old(frame)[r].len(),
        text_at(final(frame)@, column as int, row as int) == symbol@,
        forall|c: int, r: int|
            0 <= r < old(frame).len() && 0 <= c < old(frame)[r].len() && !(c == column && r == row)
                ==> #[trigger] text_at(final(frame)@, c, r) == text_at(old(frame)@, c, r),
{
    frame[row][column] = symbol.to_owned();
}

/// Whether the frame `after` shows, in each cell that `painted` picks, the
/// border symbol that belongs there, and in every other cell what `before` shows.
pub open spec fn border_painted(
    after: Seq<Vec<String>>,
    before: Seq<Vec<String>>,
    config: BoardConfig,
    painted: spec_fn(int, int) -> bool,
) -> bool {
    forall|c: int, r: int|
        0 <= r < config.height + 2 && 0 <= c < config.width + 2 ==> #[trigger] text_at(after, c, r)
            == (if painted(c, r) {
            border_symbol(config, c, r)->Some_0
        } else {
            text_at(before, c, r)
        })
}

/// Whether the frame `after` is the frame `before` with the border of
/// `config` drawn around it: the rim holds the border symbols, and the cells
/// inside it are untouched.
pub open spec fn border_drawn(
    after: Seq<Seq<Seq<char>>>,
    before: Seq<Seq<Seq<char>>>,
    config: BoardConfig,
) -> bool {
    &&& after.len() == before.len()
    &&& forall|row: int| 0 <= row < after.len() ==> (#[trigger] after[row]).len() == before[row].len()
    &&& forall|column: int, row: int|
        0 <= row < config.height + 2 && 0 <= column < config.width + 2
            ==> #[trigger] after[row][column] == (match border_symbol(config, column, row) {
            Some(symbol) => symbol,
            None => before[row][column],
        })
}

/// Draws the border of `config` around `frame`: the corners, then the top
/// and bottom edges between them and the left and right edges beside the grid.
fn draw_border_on(frame: &mut Vec<Vec<String>>, config: &BoardConfig)
    requires
        config.fits(),
        is_grid(old(frame)@, (config.width + 2) as nat, (config.height + 2) as nat),
    ensures
        is_grid(final(frame)@, (config.width + 2) as nat, (config.height + 2) as nat),
        border_painted(
            final(frame)@,
            old(frame)@,
            *config,
            |c: int, r: int| border_symbol(*config, c, r) is Some,
        ),
{
    let ghost before = frame@;
    let width = config.width;
    let height = config.height;
    // Top
    put(frame, 0, 0, config.border_top_left_symbol);
    let mut i: usize = 1;
    while i < width + 1
        invariant
            config.fits(),
            width == config.width,
            height == config.height,
            1 <= i <= width + 1,
            is_grid(frame@, (width + 2) as nat, (height + 2) as nat),
            border_painted(frame@, before, *config, |c: int, r: int| r == 0 && c < i),
        decreases width + 1 - i,
    {
        put(frame, i, 0, config.border_top);
        i += 1;
    }
    put(frame, width + 1, 0, config.border_top_right_symbol);
    assert(border_painted(frame@, before, *config, |c: int, r: int| r == 0));
    // Side
    let mut j: usize = 1;
    while j < height + 1
        invariant
            config.fits(),
            width == config.width,
            height == config.height,
            1 <= j <= height + 1,
            is_grid(frame@, (width + 2) as nat, (height + 2) as nat),
            border_painted(
                frame@,
                before,
                *config,
                |c: int, r: int| r == 0 || (r < j && (c == 0 || c == width + 1)),
            ),
        decreases height + 1 - j,
    {
        put(frame, 0, j, config.border_left);
        put(frame, width + 1, j, config.border_right);
        j += 1;
    }
    // Bottom
    put(frame, 0, height + 1, config.border_bottom_left_symbol);
    let mut i: usize = 1;
    while i < width + 1
        invariant
            config.fits(),
            width == config.width,
            height == config.height,
            1 <= i <= width + 1,
            is_grid(frame@, (width + 2) as nat, (height + 2) as nat),
            border_painted(
                frame@,
                before,
                *config,
                |c: int, r: int|
                    r == 0 || (r <= height && (c == 0 || c == width + 1)) || (r == height + 1 && c
                        < i),
            ),
        decreases width + 1 - i,
    {
        put(frame, i, height + 1, config.border_bottom);
        i += 1;
    }
    put(frame, width + 1, height + 1, config.border_bottom_right_symbol);
}

/// Builds a frame of `rows` rows of `columns` empty cells.
fn empty_frame(columns: usize, rows: usize) -> (frame: Vec<Vec<String>>)
    ensures
        is_grid(frame@, columns as nat, rows as nat),
        frame_of(frame@) == blank_frame(columns as nat, rows as nat),
{
    let mut frame: Vec<Vec<String>> = Vec::new();
    let mut j: usize = 0;
    while j < rows
        invariant
            j <= rows,
            is_grid(frame@, columns as nat, j as nat),
            frame_of(frame@) == blank_frame(columns as nat, j as nat),
        decreases rows - j,
    {
        let mut row: Vec<String> = Vec::new();
        let mut i: usize = 0;
        while i < columns
            invariant
                i <= columns,
                row.len() == i,
                forall|k: int| 0 <= k < i ==> (#[trigger] row[k])@ == Seq::<char>::empty(),
            decreases columns - i,
        {
            row.push(String::new());
            i += 1;
        }
        let ghost above = frame@;
        frame.push(row);
        proof {
            let drawn = frame_of(frame@);
            let blank = blank_frame(columns as nat, (j + 1) as nat);
            assert forall|k: int| 0 <= k < drawn.len() implies drawn[k] == blank[k] by {
                if k < j {
                    assert(frame@[k] == above[k]);
                    assert(drawn[k] == frame_of(above)[k]);
                    assert(frame_of(above)[k] == blank_frame(columns as nat, j as nat)[k]);
                } else {
                    assert(drawn[k] =~= blank[k]);
                }
            }
            assert(drawn =~= blank);
        }
        j += 1;
    }
    frame
}

/// A game board: where the mines are, what the player has flagged and
/// opened, the numbers derived from the mines, and the frame last drawn.
#[derive(Debug)]
pub struct Board {
    config: BoardConfig,
    landmines: LandmineField,
    flags: FlagsField,
    opened: OpenedField,
    numbers: NumberField,
    framebuffer: Vec<Vec<String>>,
}

impl Board {
    /// The layers all have the size that the configuration gives, the
    /// numbers are those of the mines, and the frame has room for the grid
    /// and a border one cell wide.
    pub closed spec fn wf(&self) -> bool {
        &&& self.config.fits()
        &&& self.landmines.wf()
        &&& self.landmines.width() == self.config.width
        &&& self.landmines.height() == self.config.height
        &&& self.flags.wf()
        &&& self.flags.width() == self.config.width
        &&& self.flags.height() == self.config.height
        &&& self.opened.wf()
        &&& self.opened.width() == self.config.width
        &&& self.opened.height() == self.config.height
        &&& self.numbers.wf()
        &&& self.numbers.width() == self.config.width
        &&& self.numbers.height() == self.config.height
        &&& forall|p: Coordinates|
            in_bounds(p, self.config.width as nat, self.config.height as nat)
                ==> #[trigger] self.numbers.cell(p) == mine_count(self.landmines.active_cells(), p)
        &&& is_grid(
            self.framebuffer@,
            (self.config.width + 2) as nat,
            (self.config.height + 2) as nat,
        )
    }

    /// The configuration the board was built with.
    pub closed spec fn configuration(&self) -> BoardConfig {
        self.config
    }

    /// The number of columns of the grid.
    pub open spec fn width(&self) -> nat {
        self.configuration().width as nat
    }

    /// The number of rows of the grid.
    pub open spec fn height(&self) -> nat {
        self.configuration().height as nat
    }

    /// The cells that hold a mine.
    pub closed spec fn mines(&self) -> Set<Coordinates> {
        self.landmines.active_cells()
    }

    /// The cells that carry a flag.
    pub closed spec fn flags(&self) -> Set<Coordinates> {
        self.flags.active_cells()
    }

    /// The cells that the player has opened.
    pub closed spec fn opened(&self) -> Set<Coordinates> {
        self.opened.active_cells()
    }

    /// The number of mines around `pos`.
    pub open spec fn number(&self, pos: Coordinates) -> nat {
        mine_count(self.mines(), pos)
    }

    /// What the cell at `pos` truly is.
    pub open spec fn item_at(&self, pos: Coordinates) -> ItemType {
        item_of(self.mines(), pos)
    }

    /// The text of every cell of the frame, border included, row by row.
    pub closed spec fn frame(&self) -> Seq<Seq<Seq<char>>> {
        frame_of(self.framebuffer@)
    }

    /// What a well-formed board is known to satisfy: it fits the machine, its
    /// mines, flags and opened cells lie on the grid, every number is at most
    /// 8, and its frame is two cells wider and higher than the grid.
    pub proof fn lemma_wf(&self)
        requires
            self.wf(),
        ensures
            self.configuration().fits(),
            self.mines().subset_of(all_cells(self.width(), self.height())),
            self.flags().subset_of(all_cells(self.width(), self.height())),
            self.opened().subset_of(all_cells(self.width(), self.height())),
            self.mines().finite(),
            self.flags().finite(),
            self.opened().finite(),
            forall|p: Coordinates|
                in_bounds(p, self.width(), self.height()) ==> #[trigger] self.number(p) <= 8,
            self.frame().len() == self.height() + 2,
            forall|row: int|
                0 <= row < self.height() + 2 ==> (#[trigger] self.frame()[row]).len() == self.width()
                    + 2,
    {
        self.landmines.lemma_cells_on_grid();
        self.flags.lemma_cells_on_grid();
        self.opened.lemma_cells_on_grid();
        self.numbers.lemma_numbers();
        assert forall|p: Coordinates| in_bounds(p, self.width(), self.height()) implies #[trigger] self.number(
            p,
        ) <= 8 by {
            assert(self.numbers.cell(p) == mine_count(self.landmines.active_cells(), p));
        }
    }

    /// A board of the size that `config` gives, with a mine at each of
    /// `landmine_pos`, no flag, no opened cell, and an empty frame. Fails when
    /// a mine position is off the grid.
    pub fn new(config: BoardConfig, landmine_pos: &[Coordinates]) -> (r: Result<Board, BoardError>)
        requires
            config.fits(),
        ensures
            r is Ok <==> forall|i: int|
                0 <= i < landmine_pos@.len() ==> in_bounds(
                    #[trigger] landmine_pos@[i],
                    config.width as nat,
                    config.height as nat,
                ),
            r matches Ok(board) ==> {
                &&& board.wf()
                &&& board.configuration() == config
                &&& board.mines() == landmine_pos@.to_set()
                &&& board.flags() == Set::<Coordinates>::empty()
                &&& board.opened() == Set::<Coordinates>::empty()
                &&& board.frame() == blank_frame(
                    (config.width + 2) as nat,
                    (config.height + 2) as nat,
                )
            },
    {
        let landmines = LandmineField::new(landmine_pos, config.width, config.height)?;
        let flags = FlagsField::new(config.width, config.height)?;
        let opened = OpenedField::new(config.width, config.height)?;
        let framebuffer = empty_frame(config.width + 2, config.height + 2);
        proof {
            landmines.lemma_cells_on_grid();
            assert(mines_on_grid(
                landmines.active_cells(),
                config.width as nat,
                config.height as nat,
            ) =~= landmines.active_cells());
        }
        let numbers = NumberField::new(config.width, config.height, &landmines)?;
        Ok(Board { config, landmines, flags, opened, numbers, framebuffer })
    }

    /// The number of mines on the board.
    pub fn landmine_count(&self) -> (count: &usize)
        requires
            self.wf(),
        ensures
            *count == self.mines().len(),
    {
        self.landmines.get_count()
    }

    /// The number of cells that carry a flag.
    pub fn flag_count(&self) -> (count: &usize)
        requires
            self.wf(),
        ensures
            *count == self.flags().len(),
    {
        self.flags.get_count()
    }

    /// The number of cells that the player has opened.
    pub fn opened_count(&self) -> (count: &usize)
        requires
            self.wf(),
        ensures
            *count == self.opened().len(),
    {
        self.opened.get_count()
    }

    /// The configuration the board was built with.
    pub fn get_config(&self) -> (config: &BoardConfig)
        ensures
            *config == self.configuration(),
    {
        &self.config
    }

    /// Whether everything but the flags is the same on `self` and `other`.
    pub open spec fn same_but_flags(&self, other: &Board) -> bool {
        &&& self.configuration() == other.configuration()
        &&& self.mines() == other.mines()
        &&& self.opened() == other.opened()
        &&& self.frame() == other.frame()
    }

    /// Whether everything but the opened cells is the same on `self` and `other`.
    pub open spec fn same_but_opened(&self, other: &Board) -> bool {
        &&& self.configuration() == other.configuration()
        &&& self.mines() == other.mines()
        &&& self.flags() == other.flags()
        &&& self.frame() == other.frame()
    }

    /// Plants a flag at `pos`. Fails, and changes nothing, when `pos` is off
    /// the grid.
    pub fn add_flag(&mut self, pos: &Coordinates) -> (r: Result<(), BoardError>)
        requires
            old(self).wf(),
        ensures
            final(self).wf(),
            final(self).same_but_flags(old(self)),
            r is Ok <==> in_bounds(*pos, old(self).width(), old(self).height()),
            r is Ok ==> final(self).flags() == old(self).flags().insert(*pos),
            r is Err ==> *final(self) == *old(self),
    {
        self.flags.add(pos)?;
        Ok(())
    }

    /// Takes the flag at `pos` away. Fails, and changes nothing, when `pos` is
    /// off the grid.
    pub fn remove_flag(&mut self, pos: &Coordinates) -> (r: Result<(), BoardError>)
        requires
            old(self).wf(),
        ensures
            final(self).wf(),
            final(self).same_but_flags(old(self)),
            r is Ok <==> in_bounds(*pos, old(self).width(), old(self).height()),
            r is Ok ==> final(self).flags() == old(self).flags().remove(*pos),
            r is Err ==> *final(self) == *old(self),
    {
        self.flags.remove(pos)?;
        Ok(())
    }

    /// Whether a flag stands at `pos`. Fails when `pos` is off the grid.
    pub fn have_flag(&self, pos: &Coordinates) -> (r: Result<bool, BoardError>)
        requires
            self.wf(),
        ensures
            r is Ok <==> in_bounds(*pos, self.width(), self.height()),
            r matches Ok(flagged) ==> flagged == self.flags().contains(*pos),
    {
        let flagged = *self.flags.get(pos)?;
        Ok(flagged)
    }

    /// Opens the cell at `pos`, and no other cell. Fails, and changes
    /// nothing, when `pos` is off the grid.
    pub fn click(&mut self, pos: &Coordinates) -> (r: Result<(), BoardError>)
        requires
            old(self).wf(),
        ensures
            final(self).wf(),
            final(self).same_but_opened(old(self)),
            r is Ok <==> in_bounds(*pos, old(self).width(), old(self).height()),
            r is Ok ==> final(self).opened() == old(self).opened().insert(*pos),
            r is Err ==> *final(self) == *old(self),
    {
        self.opened.add(pos)?;
        Ok(())
    }

    /// Closes the cell at `pos` again. Fails, and changes nothing, when `pos`
    /// is off the grid.
    pub fn unclick(&mut self, pos: &Coordinates) -> (r: Result<(), BoardError>)
        requires
            old(self).wf(),
        ensures
            final(self).wf(),
            final(self).same_but_opened(old(self)),
            r is Ok <==> in_bounds(*pos, old(self).width(), old(self).height()),
            r is Ok ==> final(self).opened() == old(self).opened().remove(*pos),
            r is Err ==> *final(self) == *old(self),
    {
        self.opened.remove(pos)?;
        Ok(())
    }

    /// What the cell at `pos` truly is, whatever the player has flagged or
    /// opened: a mine, the positive number of mines around it, or nothing.
    /// Fails when `pos` is off the grid.
    pub fn get(&self, pos: &Coordinates) -> (r: Result<ItemType, BoardError>)
        requires
            self.wf(),
        ensures
            r is Ok <==> in_bounds(*pos, self.width(), self.height()),
            r matches Ok(item) ==> item == self.item_at(*pos),
    {
        if *self.landmines.get(pos)? {
            Ok(ItemType::Landmine)
        } else {
            let number = *self.numbers.get(pos)?;
            if number > 0 {
                Ok(ItemType::Number(number))
            } else {
                Ok(ItemType::Nothing)
            }
        }
    }

    /// Whether `self` and `other` differ in nothing but their frames.
    pub open spec fn same_but_frame(&self, other: &Board) -> bool {
        &&& self.configuration() == other.configuration()
        &&& self.mines() == other.mines()
        &&& self.flags() == other.flags()
        &&& self.opened() == other.opened()
    }

    /// Draws the border into the rim of the frame. The cells inside the rim,
    /// and the state of the game, stay as they are.
    pub fn draw_border(&mut self)
        requires
            old(self).wf(),
        ensures
            final(self).wf(),
            final(self).same_but_frame(old(self)),
            border_drawn(final(self).frame(), old(self).frame(), old(self).configuration()),
    {
        draw_border_on(&mut self.framebuffer, &self.config);
        proof {
            let after = frame_of(self.framebuffer@);
            let before = frame_of(old(self).framebuffer@);
            assert forall|column: int, row: int|
                0 <= row < self.config.height + 2 && 0 <= column < self.config.width + 2 implies #[trigger] after[row][column]
                == (match border_symbol(self.config, column, row) {
                Some(symbol) => symbol,
                None => before[row][column],
            }) by {
                assert(after[row][column] == text_at(self.framebuffer@, column, row));
                assert(before[row][column] == text_at(old(self).framebuffer@, column, row));
            }
            assert forall|row: int| 0 <= row < after.len() implies (#[trigger] after[row]).len()
                == before[row].len() by {
                assert(self.framebuffer@[row].len() == self.config.width + 2);
                assert(old(self).framebuffer@[row].len() == self.config.width + 2);
            }
        }
    }

    /// The symbol that the cell at `pos` shows to the player.
    pub open spec fn symbol_at(&self, pos: Coordinates) -> Seq<char> {
        symbol_of(
            self.flags().contains(pos),
            self.opened().contains(pos),
            self.mines().contains(pos),
            self.number(pos),
        )
    }

    /// The grid cell that the frame shows at `column` of `row`: the frame is
    /// the grid shifted one cell right and down.
    pub open spec fn cell_shown(column: int, row: int) -> Coordinates {
        Coordinates { x: (column - 1) as usize, y: (row - 1) as usize }
    }

    /// Whether the frame `after` is the frame `before` with every cell of the
    /// grid showing its symbol as this board has it: the rim is untouched.
    pub open spec fn field_drawn(
        &self,
        after: Seq<Seq<Seq<char>>>,
        before: Seq<Seq<Seq<char>>>,
    ) -> bool {
        &&& after.len() == before.len()
        &&& forall|row: int|
            0 <= row < after.len() ==> (#[trigger] after[row]).len() == before[row].len()
        &&& forall|column: int, row: int|
            0 <= row < self.height() + 2 && 0 <= column < self.width() + 2
                ==> #[trigger] after[row][column] == (if border_symbol(
                self.configuration(),
                column,
                row,
            ) is None {
                self.symbol_at(Self::cell_shown(column, row))
            } else {
                before[row][column]
            })
    }

    /// The symbol of the cell at `pos`. Fails when `pos` is off the grid.
    fn cell_symbol(&self, pos: &Coordinates) -> (r: Result<String, BoardError>)
        requires
            self.wf(),
        ensures
            r is Ok <==> in_bounds(*pos, self.width(), self.height()),
            r matches Ok(symbol) ==> symbol@ == self.symbol_at(*pos),
    {
        if *self.flags.get(pos)? {
            Ok(FLAG_SYMBOL.to_owned())
        } else if *self.opened.get(pos)? {
            if *self.landmines.get(pos)? {
                Ok(LANDMINE_SYMBOL.to_owned())
            } else {
                let number = *self.numbers.get(pos)?;
                proof {
                    self.numbers.lemma_numbers();
                }
                if number > 0 {
                    let mut symbol = digit_symbol(number).to_owned();
                    symbol.append(NUMBER_SYMBOL);
                    Ok(symbol)
                } else {
                    Ok(OPEN_SYMBOL.to_owned())
                }
            }
        } else {
            Ok(CLOSED_SYMBOL.to_owned())
        }
    }

    /// Draws every cell of the grid into the frame, inside the rim: a flag
    /// where one stands, else what an opened cell holds, else a closed cell.
    /// The rim and the state of the game stay as they are.
    pub fn draw_field(&mut self) -> (r: Result<(), BoardError>)
        requires
            old(self).wf(),
        ensures
            r is Ok,
            final(self).wf(),
            final(self).same_but_frame(old(self)),
            old(self).field_drawn(final(self).frame(), old(self).frame()),
    {
        let ghost before = self.framebuffer@;
        let width = self.config.width;
        let height = self.config.height;
        let mut i: usize = 0;
        while i < width
            invariant
                old(self).wf(),
                self.wf(),
                self.config == old(self).config,
                self.landmines == old(self).landmines,
                self.flags == old(self).flags,
                self.opened == old(self).opened,
                self.numbers == old(self).numbers,
                before == old(self).framebuffer@,
                width == self.config.width,
                height == self.config.height,
                i <= width,
                forall|c: int, r: int|
                    0 <= r < height + 2 && 0 <= c < width + 2 ==> #[trigger] text_at(
                        self.framebuffer@,
                        c,
                        r,
                    ) == (if border_symbol(self.config, c, r) is None && derived_before(
                        Self::cell_shown(c, r),
                        i as nat,
                        0,
                    ) {
                        old(self).symbol_at(Self::cell_shown(c, r))
                    } else {
                        text_at(before, c, r)
                    }),
            decreases width - i,
        {
            let mut j: usize = 0;
            while j < height
                invariant
                    old(self).wf(),
                    self.wf(),
                    self.config == old(self).config,
                    self.landmines == old(self).landmines,
                    self.flags == old(self).flags,
                    self.opened == old(self).opened,
                    self.numbers == old(self).numbers,
                    before == old(self).framebuffer@,
                    width == self.config.width,
                    height == self.config.height,
                    i < width,
                    j <= height,
                    forall|c: int, r: int|
                        0 <= r < height + 2 && 0 <= c < width + 2 ==> #[trigger] text_at(
                            self.framebuffer@,
                            c,
                            r,
                        ) == (if border_symbol(self.config, c, r) is None && derived_before(
                            Self::cell_shown(c, r),
                            i as nat,
                            j as nat,
                        ) {
                            old(self).symbol_at(Self::cell_shown(c, r))
                        } else {
                            text_at(before, c, r)
                        }),
                decreases height - j,
            {
                let pos = Coordinates::new(i, j);
                let symbol = self.cell_symbol(&pos)?;
                put(&mut self.framebuffer, i + 1, j + 1, symbol.as_str());
                j += 1;
            }
            i += 1;
        }
        proof {
            let after = frame_of(self.framebuffer@);
            let start = frame_of(before);
            assert forall|column: int, row: int|
                0 <= row < height + 2 && 0 <= column < width + 2 implies #[trigger] after[row][column]
                == (if border_symbol(self.config, column, row) is None {
                old(self).symbol_at(Self::cell_shown(column, row))
            } else {
                start[row][column]
            }) by {
                assert(after[row][column] == text_at(self.framebuffer@, column, row));
                assert(start[row][column] == text_at(before, column, row));
            }
            assert forall|row: int| 0 <= row < after.len() implies (#[trigger] after[row]).len()
                == start[row].len() by {
                assert(self.framebuffer@[row].len() == width + 2);
                assert(before[row].len() == width + 2);
            }
        }
        Ok(())
    }

    /// The frame as text: its rows from top to bottom, the cells of a row one
    /// after another, each row ended by a line break.
    pub fn to_string(&self) -> (text: String)
        requires
            self.wf(),
        ensures
            text@ == frame_text(self.frame()),
    {
        let ghost frame = frame_of(self.framebuffer@);
        let mut text = String::new();
        let mut j: usize = 0;
        proof {
            assert(frame.take(0).map_values(|row: Seq<Seq<char>>| line_of(row)) =~= Seq::<
                Seq<char>,
            >::empty());
        }
        while j < self.framebuffer.len()
            invariant
                frame == frame_of(self.framebuffer@),
                j <= self.framebuffer.len(),
                text@ == frame_text(frame.take(j as int)),
            decreases self.framebuffer.len() - j,
        {
            let ghost above = text@;
            let mut i: usize = 0;
            proof {
                assert(frame[j as int].take(0) =~= Seq::<Seq<char>>::empty());
            }
            while i < self.framebuffer[j].len()
                invariant
                    frame == frame_of(self.framebuffer@),
                    j < self.framebuffer.len(),
                    i <= self.framebuffer[j as int].len(),
                    text@ == above + frame[j as int].take(i as int).flatten(),
                decreases self.framebuffer[j as int].len() - i,
            {
                text.append(self.framebuffer[j][i].as_str());
                proof {
                    let row = frame[j as int];
                    assert(row.take(i + 1) =~= row.take(i as int).push(row[i as int]));
                    row.take(i as int).lemma_flatten_push(row[i as int]);
                }
                i += 1;
            }
            text.append(LINE_BREAK);
            proof {
                let row = frame[j as int];
                let lines = frame.take(j as int).map_values(|row: Seq<Seq<char>>| line_of(row));
                assert(row.take(i as int) =~= row);
                assert(frame.take(j + 1).map_values(|row: Seq<Seq<char>>| line_of(row)) =~= lines.push(
                    line_of(row),
                ));
                lines.lemma_flatten_push(line_of(row));
                assert(text@ =~= frame_text(frame.take(j + 1)));
            }
            j += 1;
        }
        proof {
            assert(frame.take(j as int) =~= frame);
        }
        text
    }

    /// Draws the grid afresh and gives the frame as text, ready to be sent
    /// to the terminal.
    pub fn render(&mut self) -> (text: String)
        requires
            old(self).wf(),
        ensures
            final(self).wf(),
            final(self).same_but_frame(old(self)),
            old(self).field_drawn(final(self).frame(), old(self).frame()),
            text@ == frame_text(final(self).frame()),
    {
        let _ = self.draw_field();
        self.to_string()
    }
}

impl Clone for Board {
    /// A copy in the same state, showing the same frame.
    fn clone(&self) -> (copy: Self)
        ensures
            self.wf() ==> {
                &&& copy.wf()
                &&& copy.same_but_frame(self)
                &&& copy.frame() == self.frame()
            },
    {
        let framebuffer = self.framebuffer.clone();
        let numbers = self.numbers.clone();
        proof {
            assert forall|row: int| 0 <= row < self.framebuffer@.len() implies #[trigger] frame_of(
                framebuffer@,
            )[row] == frame_of(self.framebuffer@)[row] by {
                let from = self.framebuffer@[row];
                let to = framebuffer@[row];
                assert(cloned::<Vec<String>>(from, to));
                assert(to.len() == from.len());
                assert forall|column: int| 0 <= column < from.len() implies to@[column]@
                    == from@[column]@ by {
                    assert(cloned::<String>(from[column], to[column]));
                }
                assert(frame_of(framebuffer@)[row] =~= frame_of(self.framebuffer@)[row]);
            }
            assert(frame_of(framebuffer@) =~= frame_of(self.framebuffer@));
            if self.wf() {
                assert forall|row: int| 0 <= row < framebuffer@.len() implies (
                #[trigger] framebuffer@[row]).len() == self.config.width + 2 by {
                    assert(frame_of(framebuffer@)[row].len() == frame_of(
                        self.framebuffer@,
                    )[row].len());
                }
            }
        }
        Board {
            config: self.config.clone(),
            landmines: self.landmines.clone(),
            flags: self.flags.clone(),
            opened: self.opened.clone(),
            numbers,
            framebuffer,
        }
    }
}

} // verus!
