//! The buttons of a mouse that OpenLogi can name.

use vstd::prelude::*;

verus! {

/// One physical button, or one direction of a wheel.
#[derive(Clone, Copy, Debug, PartialEq, Eq, Structural, Hash, PartialOrd, Ord)]
pub enum ButtonId {
    LeftClick,
    RightClick,
    MiddleClick,
    Back,
    Forward,
    DpiToggle,
    GestureButton,
    ThumbwheelScrollUp,
    ThumbwheelScrollDown,
    DpiShift,
    ProfileCycle,
    DpiUp,
    DpiDown,
    /// Any other button, by its number.
    Other(u16),
}

impl ButtonId {
    /// The buttons that only gaming mice have.
    pub const GAMING_BUTTONS: [ButtonId; 4] = [
        ButtonId::DpiShift,
        ButtonId::ProfileCycle,
        ButtonId::DpiUp,
        ButtonId::DpiDown,
    ];
}

} // verus!
