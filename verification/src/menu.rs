//! A settings menu: a list of labelled widgets that hold the player's choices.

use crate::menu::items::MenuItem;
use vstd::prelude::*;

pub mod items;

verus! {

/// The widgets of a menu, from top to bottom.
pub struct Menu {
    items: Vec<MenuItem>,
}

impl Menu {
    /// The widgets of the menu, from top to bottom.
    pub closed spec fn items(&self) -> Seq<MenuItem> {
        self.items@
    }

    /// A menu of `items`, from top to bottom.
    pub fn new(items: Vec<MenuItem>) -> (menu: Self)
        ensures
            menu.items() == items@,
    {
        Self { items }
    }
}

} // verus!
