//! How a board is laid out and drawn: its size, the width of a cell on the
//! terminal, and the symbols of its border and cells.

use crossterm::style::Color;
use vstd::prelude::*;

verus! {

/// A terminal colour of `crossterm`. The board carries one through as the
/// caller gave it and never looks inside.
#[verifier::external_type_specification]
#[verifier::external_body]
pub struct ExColor(crossterm::style::Color);

/// The symbol of an opened cell that holds a mine.
pub const LANDMINE_SYMBOL: &'static str = "💣";

/// The symbol of a flagged cell.
pub const FLAG_SYMBOL: &'static str = "🚩";

/// The symbol of an opened cell with no mine on or around it.
pub const OPEN_SYMBOL: &'static str = "  ";

/// The symbol of a cell that has not been opened.
pub const CLOSED_SYMBOL: &'static str = "██";

/// What follows the digit of an opened cell with mines around it.
pub const NUMBER_SYMBOL: &'static str = " ";

/// What ends every line of a rendered frame: a line feed and a carriage
/// return, so that a terminal in raw mode starts the next line at the left.
pub const LINE_BREAK: &'static str = "\n\r";

/// The size and look of a board. Set by the caller and never changed.
#[derive(Debug)]
pub struct BoardConfig {
    pub height: usize,
    pub width: usize,
    pub char_width: u32,
    pub border_top_right_symbol: &'static str,
    pub border_top_left_symbol: &'static str,
    pub border_bottom_right_symbol: &'static str,
    pub border_bottom_left_symbol: &'static str,
    pub border_top: &'static str,
    pub border_bottom: &'static str,
    pub border_right: &'static str,
    pub border_left: &'static str,
    pub board_background_colour: Color,
}

impl BoardConfig {
    /// A configuration that holds exactly what it is given.
    pub fn new(
        height: usize,
        width: usize,
        char_width: u32,
        border_top_right_symbol: &'static str,
        border_top_left_symbol: &'static str,
        border_bottom_right_symbol: &'static str,
        border_bottom_left_symbol: &'static str,
        border_top: &'static str,
        border_bottom: &'static str,
        border_right: &'static str,
        border_left: &'static str,
        board_background_colour: Color,
    ) -> (config: Self)
        ensures
            config == (BoardConfig {
                height,
                width,
                char_width,
                border_top_right_symbol,
                border_top_left_symbol,
                border_bottom_right_symbol,
                border_bottom_left_symbol,
                border_top,
                border_bottom,
                border_right,
                border_left,
                board_background_colour,
            }),
    {
        BoardConfig {
            height,
            width,
            char_width,
            border_top_right_symbol,
            border_top_left_symbol,
            border_bottom_right_symbol,
            border_bottom_left_symbol,
            border_top,
            border_bottom,
            border_right,
            border_left,
            board_background_colour,
        }
    }

    /// The built-in look: cells two columns wide inside a frame of
    /// box-drawing characters.
    pub fn unicode(width: usize, height: usize, board_background_colour: Color) -> (config: Self)
        ensures
            config == (BoardConfig {
                height,
                width,
                char_width: 2,
                border_top_right_symbol: "─┐",
                border_top_left_symbol: "┌─",
                border_bottom_right_symbol: "─┘",
                border_bottom_left_symbol: "└─",
                border_top: "──",
                border_bottom: "──",
                border_right: " │",
                border_left: "│ ",
                board_background_colour,
            }),
    {
        BoardConfig::new(
            height,
            width,
            2,
            "─┐",
            "┌─",
            "─┘",
            "└─",
            "──",
            "──",
            " │",
            "│ ",
            board_background_colour,
        )
    }

    /// Whether a board of this size, with its one-cell border, can be
    /// addressed on this machine.
    pub open spec fn fits(&self) -> bool {
        &&& self.width * self.height <= usize::MAX
        &&& self.width + 2 <= usize::MAX
        &&& self.height + 2 <= usize::MAX
    }

    /// Tests whether a board of this size, with its one-cell border, can be
    /// addressed on this machine.
    pub fn check_fits(&self) -> (fits: bool)
        ensures
            fits == self.fits(),
    {
        self.width.checked_mul(self.height).is_some() && self.width.checked_add(2).is_some()
            && self.height.checked_add(2).is_some()
    }
}

impl Clone for BoardConfig {
    /// A copy with the same size and symbols.
    fn clone(&self) -> (copy: Self)
        ensures
            copy == *self,
    {
        BoardConfig {
            height: self.height,
            width: self.width,
            char_width: self.char_width,
            border_top_right_symbol: self.border_top_right_symbol,
            border_top_left_symbol: self.border_top_left_symbol,
            border_bottom_right_symbol: self.border_bottom_right_symbol,
            border_bottom_left_symbol: self.border_bottom_left_symbol,
            border_top: self.border_top,
            border_bottom: self.border_bottom,
            border_right: self.border_right,
            border_left: self.border_left,
            board_background_colour: self.board_background_colour,
        }
    }
}

} // verus!
