//! The pointer state machines of the button and the checkbox. Whether the
//! pointer is over the widget is the caller's to decide; from that and the
//! left button's state these decide what the widget reports.
use vstd::prelude::*;
use crate::input::MouseButtonState;

verus! {

/// What a button reports after one update.
#[derive(Debug, Clone, Copy, PartialEq, Eq, Structural)]
pub struct ButtonEvents {
    pub hover_enter: bool,
    pub hover_exit: bool,
    pub press: bool,
    pub release: bool,
    pub click: bool,
}

/// A button's pointer state.
#[derive(Debug, Clone, Copy, PartialEq, Eq, Structural)]
pub struct ButtonState {
    pub hovered: bool,
    pub pressed: bool,
    pub enabled: bool,
    pub was_hovered: bool,
    pub was_pressed: bool,
}

pub open spec fn no_button_events() -> ButtonEvents {
    ButtonEvents { hover_enter: false, hover_exit: false, press: false, release: false, click: false }
}

impl ButtonState {
    /// Enabled, not hovered, not pressed.
    pub fn new() -> (r: Self)
        ensures
            r == (ButtonState { hovered: false, pressed: false, enabled: true, was_hovered: false, was_pressed: false }),
    {
        ButtonState { hovered: false, pressed: false, enabled: true, was_hovered: false, was_pressed: false }
    }

    /// One frame: `mouse_in` when the pointer is over the visible button.
    /// A disabled button forgets its pointer state and reports nothing.
    /// Otherwise entering and leaving are edges of the hover, a press is
    /// the left button going down over it, and a release over it is also a
    /// click.
    pub fn update(&mut self, mouse_in: bool, lmb: MouseButtonState) -> (r: ButtonEvents)
        ensures
            !old(self).enabled ==> r == no_button_events() && *final(self) == (ButtonState {
                hovered: false,
                pressed: false,
                was_hovered: false,
                was_pressed: false,
                ..*old(self)
            }),
            old(self).enabled ==> r == (ButtonEvents {
                hover_enter: mouse_in && !old(self).was_hovered,
                hover_exit: !mouse_in && old(self).was_hovered,
                press: mouse_in && lmb.just_pressed,
                release: mouse_in && lmb.just_released,
                click: mouse_in && lmb.just_released,
            }) && *final(self) == (ButtonState {
                hovered: mouse_in,
                pressed: mouse_in && lmb.held,
                enabled: true,
                was_hovered: mouse_in,
                was_pressed: mouse_in && lmb.held,
            }),
    {
        if !self.enabled {
            self.hovered = false;
            self.pressed = false;
            self.was_hovered = false;
            self.was_pressed = false;
            return ButtonEvents { hover_enter: false, hover_exit: false, press: false, release: false, click: false };
        }
        self.hovered = mouse_in;
        let currently_pressed = mouse_in && lmb.held;
        let events = ButtonEvents {
            hover_enter: self.hovered && !self.was_hovered,
            hover_exit: !self.hovered && self.was_hovered,
            press: mouse_in && lmb.just_pressed,
            release: mouse_in && lmb.just_released,
            click: mouse_in && lmb.just_released,
        };
        self.pressed = currently_pressed;
        self.was_hovered = self.hovered;
        self.was_pressed = currently_pressed;
        events
    }

    /// Whether the click command goes out after an update: the button is
    /// enabled and hovered and the left button was just released.
    pub fn emits_click(&self, lmb: MouseButtonState) -> (r: bool)
        ensures
            r == (self.enabled && self.hovered && lmb.just_released),
    {
        self.enabled && self.hovered && lmb.just_released
    }
}

/// A checkbox's value.
#[derive(Debug, Clone, Copy, PartialEq, Eq, Structural)]
pub struct CheckState {
    pub checked: bool,
}

impl CheckState {
    pub fn new(checked: bool) -> (r: Self)
        ensures
            r.checked == checked,
    {
        CheckState { checked }
    }

    /// Sets the value; `true` when it changed, and only then are bindings
    /// and callbacks told.
    pub fn set_checked(&mut self, checked: bool) -> (changed: bool)
        ensures
            final(self).checked == checked,
            changed == (old(self).checked != checked),
    {
        if self.checked != checked {
            self.checked = checked;
            true
        } else {
            false
        }
    }

    /// One frame: the value flips when the left button goes down over the
    /// checkbox; `true` when it flipped.
    pub fn click(&mut self, mouse_in: bool, lmb: MouseButtonState) -> (flipped: bool)
        ensures
            flipped == (mouse_in && lmb.just_pressed),
            final(self).checked == (old(self).checked != flipped),
    {
        if mouse_in && lmb.just_pressed {
            self.checked = !self.checked;
            true
        } else {
            false
        }
    }
}

} // verus!
