//! What a scene offers the surrounding panel chrome: whether it has a
//! side panel on each edge, and mutable access to each panel's open
//! state. The defaults declare no panels.
use vstd::prelude::*;

verus! {

pub trait UiScene {
    fn has_right_panel(&self) -> bool {
        false
    }

    fn right_panel_state(&mut self) -> Option<&mut bool> {
        None
    }

    fn has_left_panel(&self) -> bool {
        false
    }

    fn left_panel_state(&mut self) -> Option<&mut bool> {
        None
    }
}

} // verus!
