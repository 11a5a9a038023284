//! Buttons and door sensors.

use vstd::prelude::*;

verus! {

/// A front-panel button.
#[derive(Debug, Clone, Copy, PartialEq, Eq, Structural)]
pub enum Button {
    Prev,
    Next,
    Okay,
    Cancel,
}

/// A button press or a door sensor change.
#[derive(Debug, Clone, Copy, PartialEq, Eq, Structural)]
pub enum ButtonEvent {
    Pressed(Button),
    DoorChanged { door: u8, opened: bool },
}

} // verus!
