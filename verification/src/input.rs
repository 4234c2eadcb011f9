//! User commands as the window layer reports them.

use vstd::prelude::*;
use crate::direction::Direction;

verus! {

/// One user command.
#[derive(Clone, Copy, PartialEq, Eq, Structural, Debug)]
pub enum Input {
    /// Confirm the current choice.
    Accept,
    /// Leave the current screen or choice.
    Cancel,
    /// Move in a direction.
    Direction(Direction),
    /// Open the menu.
    Menu,
}

} // verus!
