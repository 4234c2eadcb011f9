//! The per-tick interface of a running game.

use vstd::prelude::*;
use crate::direction::Direction;

verus! {

/// One user command handed to a running game.
#[derive(Clone, Copy, PartialEq, Eq, Structural, Debug)]
pub enum Input {
    /// Confirm the current choice.
    Accept,
    /// Leave the current screen or choice.
    Cancel,
    /// Move in a direction.
    Direction(Direction),
    /// Open the menu.
    Menu,
}

/// Something that advances by one tick under an optional input.
pub trait Tickable {
    /// When this value is in a fit state to be advanced.
    spec fn tick_wf(&self) -> bool;

    /// Advance one tick, keeping the value fit.
    fn tick(&mut self, input: Option<Input>)
        requires
            old(self).tick_wf(),
        ensures
            final(self).tick_wf(),
    ;
}

} // verus!
