//! The screen interface: what the surrounding event loop drives.

use vstd::prelude::*;
use crate::geometry::Worldly;
use crate::tickable::Input;
use crate::menu::MenuScreen;
use crate::play::PlayScreen;

verus! {

/// What a screen's tick asks the surrounding loop to do: stay on the
/// current screen, or hand control to another one.
pub enum Transition {
    /// Keep the current screen.
    Stay,
    /// Switch to the menu.
    ToMenu(MenuScreen),
    /// Switch to the game view.
    ToPlay(PlayScreen),
}

/// A handed-over screen is fit to run.
pub open spec fn transition_wf(t: Transition) -> bool {
    match t {
        Transition::Stay => true,
        Transition::ToMenu(m) => m.wf(),
        Transition::ToPlay(p) => p.wf(),
    }
}

/// A screen of the program: it can build the scene to draw (`Worldly`)
/// and advance under input, possibly handing over to another screen.
pub trait Screen: Worldly {
    fn tick(&mut self, input: Option<Input>) -> (r: Transition)
        requires
            old(self).wf(),
        ensures
            final(self).wf(),
            transition_wf(r),
    ;
}

} // verus!
