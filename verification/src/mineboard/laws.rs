//! What holds of the layers and the board across their operations, stated
//! over the same vocabulary as the contracts and proved from it.

use crate::mineboard::board::{border_drawn, Board, ItemType};
use crate::mineboard::cells::in_bounds;
use crate::mineboard::config::{BoardConfig, CLOSED_SYMBOL, FLAG_SYMBOL, LANDMINE_SYMBOL, OPEN_SYMBOL};
use crate::mineboard::field::{ChangeableField, Field};
use crate::mineboard::layers::LandmineField;
use crate::mineboard::numbers::{adjacent, mine_count, mines_on_grid, NumberField};
use crate::utils::Coordinates;
use vstd::prelude::*;

verus! {

/// A mine layer built from a list of positions on the grid holds a mine at a
/// cell exactly when the list names that cell.
pub proof fn law_mines_lie_where_listed(
    mines: LandmineField,
    positions: Seq<Coordinates>,
    pos: Coordinates,
)
    requires
        mines.wf(),
        forall|i: int|
            0 <= i < positions.len() ==> in_bounds(
                #[trigger] positions[i],
                mines.width(),
                mines.height(),
            ),
        mines.active_cells() == positions.to_set(),
    ensures
        mines.cell(pos) <==> positions.contains(pos),
{
}

/// The number of a cell is the exact count of the cells around it that hold
/// a mine: the cells that differ from it by at most one column and one row,
/// itself left out. It is never more than 8.
pub proof fn law_number_counts_mined_neighbours(
    numbers: NumberField,
    mines: LandmineField,
    pos: Coordinates,
)
    requires
        mines.wf(),
        numbers.wf(),
        numbers.width() == mines.width(),
        numbers.height() == mines.height(),
        forall|p: Coordinates|
            in_bounds(p, numbers.width(), numbers.height()) ==> #[trigger] numbers.cell(p)
                == mine_count(
                mines_on_grid(mines.active_cells(), numbers.width(), numbers.height()),
                p,
            ),
        in_bounds(pos, numbers.width(), numbers.height()),
    ensures
        numbers.cell(pos) == Set::new(|q: Coordinates| mines.cell(q) && adjacent(pos, q)).len(),
        0 <= numbers.cell(pos) <= 8,
{
    mines.lemma_cells_on_grid();
    numbers.lemma_numbers();
    let counted = mines_on_grid(mines.active_cells(), numbers.width(), numbers.height());
    assert(counted =~= mines.active_cells());
    assert(Set::new(|q: Coordinates| mines.cell(q) && adjacent(pos, q))
        =~= mines.active_cells().filter(|q: Coordinates| adjacent(pos, q)));
}

/// A cell in column `width` or in row `height` is off the grid, so every
/// bounds-checked operation refuses it.
pub proof fn law_edge_is_off_the_grid(width: nat, height: nat, pos: Coordinates)
    requires
        pos.x == width || pos.y == height,
    ensures
        !in_bounds(pos, width, height),
{
}

/// Switching a cell on twice is the same as switching it on once: the
/// second time changes neither the cells nor their count. On a layer that
/// was empty, the count is 1 after both.
pub proof fn law_add_twice_counts_once<F: ChangeableField>(
    before: F,
    once: F,
    twice: F,
    pos: Coordinates,
)
    requires
        once.active_cells() == before.active_cells().insert(pos),
        twice.active_cells() == once.active_cells().insert(pos),
    ensures
        twice.active_cells() == once.active_cells(),
        twice.active_cells().len() == once.active_cells().len(),
        before.active_cells() == Set::<Coordinates>::empty() ==> twice.active_cells().len() == 1,
{
    assert(once.active_cells().insert(pos) =~= once.active_cells());
    if before.active_cells() == Set::<Coordinates>::empty() {
        assert(once.active_cells() =~= set![pos]);
    }
}

/// Switching a cell off twice is the same as switching it off once.
pub proof fn law_remove_twice_counts_once<F: ChangeableField>(
    before: F,
    once: F,
    twice: F,
    pos: Coordinates,
)
    requires
        once.active_cells() == before.active_cells().remove(pos),
        twice.active_cells() == once.active_cells().remove(pos),
    ensures
        twice.active_cells() == once.active_cells(),
        twice.active_cells().len() == once.active_cells().len(),
{
    assert(once.active_cells().remove(pos) =~= once.active_cells());
}

/// Switching a cell on counts it exactly when it was off, and switching it
/// off again restores the count that the layer had.
pub proof fn law_count_follows_changes(cells: Set<Coordinates>, pos: Coordinates)
    requires
        cells.finite(),
    ensures
        cells.insert(pos).len() == cells.len() + (if cells.contains(pos) {
            0int
        } else {
            1int
        }),
        cells.remove(pos).len() == cells.len() - (if cells.contains(pos) {
            1int
        } else {
            0int
        }),
        !cells.contains(pos) ==> cells.insert(pos).remove(pos) == cells,
{
    if !cells.contains(pos) {
        assert(cells.insert(pos).remove(pos) =~= cells);
    }
}

/// What a cell truly is depends on the mines alone: two boards with the
/// same mines agree on it, whatever is flagged or opened on either.
pub proof fn law_item_ignores_flags_and_opened(a: Board, b: Board, pos: Coordinates)
    requires
        a.mines() == b.mines(),
    ensures
        a.item_at(pos) == b.item_at(pos),
{
}

/// A cell with a mine is a landmine; a cell without one and with exactly
/// one mine around it is the number 1; a cell without one and with none
/// around it is nothing.
pub proof fn law_items(board: Board, pos: Coordinates)
    ensures
        board.mines().contains(pos) ==> board.item_at(pos) == ItemType::Landmine,
        !board.mines().contains(pos) && board.number(pos) == 1 ==> board.item_at(pos)
            == ItemType::Number(1),
        !board.mines().contains(pos) && board.number(pos) == 0 ==> board.item_at(pos)
            == ItemType::Nothing,
{
}

/// On a board with no flag and no opened cell, every cell shows the symbol
/// of a closed cell.
pub proof fn law_fresh_cells_are_closed(board: Board, pos: Coordinates)
    requires
        board.flags() == Set::<Coordinates>::empty(),
        board.opened() == Set::<Coordinates>::empty(),
    ensures
        board.symbol_at(pos) == CLOSED_SYMBOL@,
{
}

/// A flag hides what is under it; without a flag, a closed cell shows as
/// closed, an opened mine as a mine, and an opened cell with no mine on or
/// around it as open.
pub proof fn law_symbols(board: Board, pos: Coordinates)
    ensures
        board.flags().contains(pos) ==> board.symbol_at(pos) == FLAG_SYMBOL@,
        !board.flags().contains(pos) && !board.opened().contains(pos) ==> board.symbol_at(pos)
            == CLOSED_SYMBOL@,
        !board.flags().contains(pos) && board.opened().contains(pos) && board.mines().contains(pos)
            ==> board.symbol_at(pos) == LANDMINE_SYMBOL@,
        !board.flags().contains(pos) && board.opened().contains(pos) && !board.mines().contains(pos)
            && board.number(pos) == 0 ==> board.symbol_at(pos) == OPEN_SYMBOL@,
{
}

/// Drawing the border a second time changes nothing: a frame with the
/// border drawn over a frame with the border drawn is that same frame.
pub proof fn law_border_is_idempotent(
    before: Seq<Seq<Seq<char>>>,
    once: Seq<Seq<Seq<char>>>,
    twice: Seq<Seq<Seq<char>>>,
    config: BoardConfig,
)
    requires
        before.len() == config.height + 2,
        forall|row: int| 0 <= row < before.len() ==> (#[trigger] before[row]).len() == config.width + 2,
        border_drawn(once, before, config),
        border_drawn(twice, once, config),
    ensures
        twice == once,
{
    assert forall|row: int| 0 <= row < twice.len() implies twice[row] == once[row] by {
        assert(once[row].len() == before[row].len());
        assert forall|column: int| 0 <= column < twice[row].len() implies twice[row][column]
            == once[row][column] by {}
        assert(twice[row] =~= once[row]);
    }
    assert(twice =~= once);
}

} // verus!
