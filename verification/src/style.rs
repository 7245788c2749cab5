//! Per-state style values.
use vstd::prelude::*;

verus! {

/// A value for each interaction state of a widget.
#[derive(Debug, Clone, Copy, PartialEq, Eq)]
pub struct VisualState<T> {
    pub normal: T,
    pub hovered: T,
    pub pressed: T,
    pub disabled: T,
}

impl<T: Copy> VisualState<T> {
    /// The value for a widget: disabled wins over pressed, pressed over
    /// hovered, hovered over normal.
    pub fn resolve(self, hovered: bool, pressed: bool, enabled: bool) -> (r: T)
        ensures
            r == if !enabled {
                self.disabled
            } else if pressed {
                self.pressed
            } else if hovered {
                self.hovered
            } else {
                self.normal
            },
    {
        if !enabled {
            self.disabled
        } else if pressed {
            self.pressed
        } else if hovered {
            self.hovered
        } else {
            self.normal
        }
    }
}

} // verus!
