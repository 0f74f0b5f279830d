//! Mouse hotspot geometry. Bounds are authored in whole model-local pixels of
//! a 420×560 canvas, see [`MOUSE_MODEL_WIDTH`] and [`MOUSE_MODEL_HEIGHT`].

use vstd::prelude::*;

use super::button::ButtonId;
use super::spy_capture::g502_x_plus;

verus! {

/// Width of the mouse model canvas. Hotspot coordinates are relative to it.
pub const MOUSE_MODEL_WIDTH: u16 = 420;

/// Height of the mouse model canvas.
pub const MOUSE_MODEL_HEIGHT: u16 = 560;

/// One visual target in the mouse diagram.
///
/// Most targets correspond to one physical button. Thumb-wheel rotation is a
/// single visual target backed by two directional bindings, so it has its own
/// identity rather than pretending to be either direction or the wheel click.
#[derive(Clone, Copy, Debug, PartialEq, Eq, Structural, Hash, PartialOrd, Ord)]
pub enum MouseControlId {
    Button(ButtonId),
    ThumbwheelRotation,
}

impl From<ButtonId> for MouseControlId {
    fn from(button: ButtonId) -> (control: Self) {
        MouseControlId::Button(button)
    }
}

impl vstd::std_specs::convert::FromSpecImpl<ButtonId> for MouseControlId {
    open spec fn obeys_from_spec() -> bool {
        true
    }

    open spec fn from_spec(button: ButtonId) -> Self {
        MouseControlId::Button(button)
    }
}

/// The button is a direction of the thumb wheel.
pub open spec fn is_thumbwheel_direction(button: ButtonId) -> bool {
    button == ButtonId::ThumbwheelScrollUp || button == ButtonId::ThumbwheelScrollDown
}

impl MouseControlId {
    /// The physical button when this target represents one.
    pub fn button(self) -> (button: Option<ButtonId>)
        ensures
            button == match self {
                MouseControlId::Button(button) => Some(button),
                MouseControlId::ThumbwheelRotation => None,
            },
    {
        match self {
            MouseControlId::Button(button) => Some(button),
            MouseControlId::ThumbwheelRotation => None,
        }
    }

    /// Collapses either live thumb-wheel direction into the one diagram target.
    pub fn from_active_button(button: ButtonId) -> (control: Self)
        ensures
            control == if is_thumbwheel_direction(button) {
                MouseControlId::ThumbwheelRotation
            } else {
                MouseControlId::Button(button)
            },
    {
        match button {
            ButtonId::ThumbwheelScrollUp | ButtonId::ThumbwheelScrollDown => {
                MouseControlId::ThumbwheelRotation
            },
            _ => MouseControlId::Button(button),
        }
    }

    /// The translation key of the target's label. `button_key` is the key of
    /// the button that the target stands for, where it stands for one.
    pub fn translation_key(self, button_key: &'static str) -> (key: &'static str)
        ensures
            key@ == match self {
                MouseControlId::Button(_) => button_key@,
                MouseControlId::ThumbwheelRotation => "pointer.thumb_wheel"@,
            },
    {
        match self {
            MouseControlId::Button(_) => button_key,
            MouseControlId::ThumbwheelRotation => "pointer.thumb_wheel",
        }
    }
}

/// Hotspot rectangle in mouse-model-local coordinates.
#[derive(Clone, Copy, Debug, PartialEq, Eq, Structural)]
pub struct Hotspot {
    pub id: MouseControlId,
    pub x: u16,
    pub y: u16,
    pub w: u16,
    pub h: u16,
}

impl Hotspot {
    /// The center point in half pixels, convenient for leader lines: twice
    /// the center's coordinates, which are whole numbers.
    pub fn center(&self) -> (doubled: (u32, u32))
        ensures
            doubled.0 == 2 * self.x + self.w,
            doubled.1 == 2 * self.y + self.h,
    {
        (2 * self.x as u32 + self.w as u32, 2 * self.y as u32 + self.h as u32)
    }

    /// The rectangle has an area and lies on the canvas.
    pub open spec fn is_on_canvas(self) -> bool {
        &&& self.w > 0
        &&& self.h > 0
        &&& self.x + self.w <= MOUSE_MODEL_WIDTH
        &&& self.y + self.h <= MOUSE_MODEL_HEIGHT
    }
}

/// Which optional controls the synthetic silhouette should offer, derived
/// from the device's measured capabilities.
#[derive(Clone, Copy, Debug, PartialEq, Eq, Structural)]
pub struct FallbackControls {
    /// A horizontal thumb wheel is available.
    pub thumbwheel: bool,
    /// The device is a G-series gaming mouse captured through the spy tap, for
    /// whose model a verified button map is known. Such a mouse has neither a
    /// DPI-toggle button nor a dedicated gesture button;
    /// [`ButtonId::DpiToggle`] and [`ButtonId::GestureButton`] are dropped from
    /// the silhouette in favor of the gaming-only buttons.
    pub gaming_buttons: bool,
}

impl Default for FallbackControls {
    /// No optional control.
    fn default() -> (controls: Self)
        ensures
            !controls.thumbwheel,
            !controls.gaming_buttons,
    {
        FallbackControls { thumbwheel: false, gaming_buttons: false }
    }
}

/// A button's rectangle.
pub open spec fn button_spot(button: ButtonId, x: u16, y: u16, w: u16, h: u16) -> Hotspot {
    Hotspot { id: MouseControlId::Button(button), x, y, w, h }
}

/// The targets of every mouse.
pub open spec fn common_layout() -> Seq<Hotspot> {
    seq![
        button_spot(ButtonId::MiddleClick, 180, 110, 60, 90),
        button_spot(ButtonId::Back, 0, 220, 40, 60),
        button_spot(ButtonId::Forward, 0, 290, 40, 60),
    ]
}

/// A thumb paddle for the DPI Shift modifier, and a cluster behind the wheel
/// for the profile and DPI trio.
pub open spec fn gaming_layout() -> Seq<Hotspot> {
    seq![
        button_spot(ButtonId::DpiShift, 8, 340, 44, 50),
        button_spot(ButtonId::ProfileCycle, 175, 230, 70, 26),
        button_spot(ButtonId::DpiUp, 175, 258, 34, 26),
        button_spot(ButtonId::DpiDown, 211, 258, 34, 26),
    ]
}

/// The DPI toggle behind the wheel and the gesture button under the thumb.
pub open spec fn standard_layout() -> Seq<Hotspot> {
    seq![
        button_spot(ButtonId::DpiToggle, 175, 230, 70, 40),
        button_spot(ButtonId::GestureButton, 8, 380, 44, 80),
    ]
}

/// The thumb wheel.
pub open spec fn thumbwheel_layout() -> Seq<Hotspot> {
    seq![
        Hotspot { id: MouseControlId::ThumbwheelRotation, x: 8, y: 140, w: 44, h: 70 },
    ]
}

/// The fallback layout for a set of optional controls.
pub open spec fn layout(controls: FallbackControls) -> Seq<Hotspot> {
    common_layout() + (if controls.gaming_buttons {
        gaming_layout()
    } else {
        standard_layout()
    }) + (if controls.thumbwheel {
        thumbwheel_layout()
    } else {
        Seq::empty()
    })
}

/// The layout offers a target.
pub open spec fn offers(controls: FallbackControls, id: MouseControlId) -> bool {
    exists|i: int| 0 <= i < layout(controls).len() && (#[trigger] layout(controls)[i]).id == id
}

/// A button's hotspot.
fn spot(button: ButtonId, x: u16, y: u16, w: u16, h: u16) -> (hotspot: Hotspot)
    ensures
        hotspot == button_spot(button, x, y, w, h),
{
    Hotspot { id: MouseControlId::from(button), x, y, w, h }
}

/// Fallback hotspot layout for the no-asset path (synthetic silhouette).
/// Primary L/R click are intentionally absent: they are not remappable.
pub fn default_hotspots(controls: FallbackControls) -> (hotspots: Vec<Hotspot>)
    ensures
        hotspots@ == layout(controls),
{
    let mut hotspots: Vec<Hotspot> = Vec::new();
    hotspots.push(spot(ButtonId::MiddleClick, 180, 110, 60, 90));
    hotspots.push(spot(ButtonId::Back, 0, 220, 40, 60));
    hotspots.push(spot(ButtonId::Forward, 0, 290, 40, 60));
    assert(hotspots@ =~= common_layout());
    if controls.gaming_buttons {
        // Approximate placement: this is generic silhouette art, not a claim
        // about one model's shape.
        hotspots.push(spot(ButtonId::DpiShift, 8, 340, 44, 50));
        hotspots.push(spot(ButtonId::ProfileCycle, 175, 230, 70, 26));
        hotspots.push(spot(ButtonId::DpiUp, 175, 258, 34, 26));
        hotspots.push(spot(ButtonId::DpiDown, 211, 258, 34, 26));
        assert(hotspots@ =~= common_layout() + gaming_layout());
    } else {
        hotspots.push(spot(ButtonId::DpiToggle, 175, 230, 70, 40));
        hotspots.push(spot(ButtonId::GestureButton, 8, 380, 44, 80));
        assert(hotspots@ =~= common_layout() + standard_layout());
    }
    if controls.thumbwheel {
        hotspots.push(
            Hotspot { id: MouseControlId::ThumbwheelRotation, x: 8, y: 140, w: 44, h: 70 },
        );
    }
    assert(hotspots@ =~= layout(controls));
    hotspots
}

/// Every target lies on the canvas.
pub proof fn law_hotspots_lie_on_the_canvas(controls: FallbackControls, at: int)
    requires
        0 <= at < layout(controls).len(),
    ensures
        layout(controls)[at].is_on_canvas(),
{
}

/// No target is offered twice.
pub proof fn law_hotspots_are_distinct(controls: FallbackControls, i: int, j: int)
    requires
        0 <= i < j < layout(controls).len(),
    ensures
        layout(controls)[i].id != layout(controls)[j].id,
{
}

/// Which targets are offered, for every set of optional controls: middle,
/// back and forward always, the primary clicks, the single thumb-wheel
/// directions and unnamed buttons never, the thumb wheel exactly if there is one, and either the
/// gaming buttons or the DPI toggle with the gesture button.
pub proof fn law_offered_targets(controls: FallbackControls)
    ensures
        offers(controls, MouseControlId::Button(ButtonId::MiddleClick)),
        offers(controls, MouseControlId::Button(ButtonId::Back)),
        offers(controls, MouseControlId::Button(ButtonId::Forward)),
        !offers(controls, MouseControlId::Button(ButtonId::LeftClick)),
        !offers(controls, MouseControlId::Button(ButtonId::RightClick)),
        !offers(controls, MouseControlId::Button(ButtonId::ThumbwheelScrollUp)),
        !offers(controls, MouseControlId::Button(ButtonId::ThumbwheelScrollDown)),
        forall|number: u16| !offers(controls, MouseControlId::Button(ButtonId::Other(number))),
        offers(controls, MouseControlId::ThumbwheelRotation) <==> controls.thumbwheel,
        offers(controls, MouseControlId::Button(ButtonId::DpiToggle)) <==> !controls.gaming_buttons,
        offers(controls, MouseControlId::Button(ButtonId::GestureButton))
            <==> !controls.gaming_buttons,
        forall|i: int|
            0 <= i < ButtonId::GAMING_BUTTONS@.len() ==> (offers(
                controls,
                MouseControlId::Button(#[trigger] ButtonId::GAMING_BUTTONS@[i]),
            ) <==> controls.gaming_buttons),
{
    let spots = layout(controls);
    assert(spots[0].id == MouseControlId::Button(ButtonId::MiddleClick));
    assert(spots[1].id == MouseControlId::Button(ButtonId::Back));
    assert(spots[2].id == MouseControlId::Button(ButtonId::Forward));
    if controls.gaming_buttons {
        assert(spots[3].id == MouseControlId::Button(ButtonId::DpiShift));
        assert(spots[4].id == MouseControlId::Button(ButtonId::ProfileCycle));
        assert(spots[5].id == MouseControlId::Button(ButtonId::DpiUp));
        assert(spots[6].id == MouseControlId::Button(ButtonId::DpiDown));
        if controls.thumbwheel {
            assert(spots[7].id == MouseControlId::ThumbwheelRotation);
        }
    } else {
        assert(spots[3].id == MouseControlId::Button(ButtonId::DpiToggle));
        assert(spots[4].id == MouseControlId::Button(ButtonId::GestureButton));
        if controls.thumbwheel {
            assert(spots[5].id == MouseControlId::ThumbwheelRotation);
        }
    }
}

/// Every button that the spy tap captures has a target on a gaming mouse.
pub proof fn law_captured_buttons_are_offered(controls: FallbackControls, at: int)
    requires
        controls.gaming_buttons,
        0 <= at < g502_x_plus().len(),
    ensures
        offers(controls, MouseControlId::Button(g502_x_plus()[at].1)),
{
    law_offered_targets(controls);
    let gaming = ButtonId::GAMING_BUTTONS@;
    assert(gaming[at] == g502_x_plus()[at].1);
}

/// The rectangle `upper` ends above the top of `lower`.
pub open spec fn is_above(upper: Hotspot, lower: Hotspot) -> bool {
    upper.y + upper.h <= lower.y
}

/// The rectangle is at the thumb: at the left edge of the mouse.
pub open spec fn is_at_the_thumb(spot: Hotspot) -> bool {
    spot.x + spot.w <= 60
}

/// The rectangle is behind the wheel: within the wheel's column of the mouse.
pub open spec fn is_behind_the_wheel(spot: Hotspot) -> bool {
    175 <= spot.x && spot.x + spot.w <= 245
}

/// The hotspot is the target of a button.
pub open spec fn is_target_of(spot: Hotspot, button: ButtonId) -> bool {
    spot.id == MouseControlId::Button(button)
}

/// Where the targets of every mouse stand: the middle click in the wheel's
/// column with its center on the canvas's center line, and the side buttons
/// at the thumb, of one size, back above forward and both below the wheel.
pub proof fn law_common_targets_are_placed(
    controls: FallbackControls,
    spots: Vec<Hotspot>,
    middle: Hotspot,
    back: Hotspot,
    forward: Hotspot,
)
    requires
        call_ensures(default_hotspots, (controls,), spots),
        spots@.contains(middle),
        spots@.contains(back),
        spots@.contains(forward),
        is_target_of(middle, ButtonId::MiddleClick),
        is_target_of(back, ButtonId::Back),
        is_target_of(forward, ButtonId::Forward),
    ensures
        (middle.x, middle.y, middle.w, middle.h) == (180u16, 110u16, 60u16, 90u16),
        is_behind_the_wheel(middle),
        2 * middle.x + middle.w == MOUSE_MODEL_WIDTH,
        is_at_the_thumb(back) && is_at_the_thumb(forward),
        (back.x, back.y, back.w, back.h) == (0u16, 220u16, 40u16, 60u16),
        (forward.x, forward.w, forward.h) == (back.x, back.w, back.h),
        is_above(middle, back),
        is_above(back, forward),
        forward.y == back.y + 70,
{
}

/// Where the targets of a gaming mouse stand: the DPI Shift paddle at the
/// thumb, below the top of the side buttons, and the other three behind the
/// wheel, the profile button above the DPI pair and DPI up left of DPI down.
pub proof fn law_gaming_targets_are_placed(
    controls: FallbackControls,
    spots: Vec<Hotspot>,
    middle: Hotspot,
    forward: Hotspot,
    shift: Hotspot,
    profile: Hotspot,
    up: Hotspot,
    down: Hotspot,
)
    requires
        controls.gaming_buttons,
        call_ensures(default_hotspots, (controls,), spots),
        spots@.contains(middle),
        spots@.contains(forward),
        spots@.contains(shift),
        spots@.contains(profile),
        spots@.contains(up),
        spots@.contains(down),
        is_target_of(middle, ButtonId::MiddleClick),
        is_target_of(forward, ButtonId::Forward),
        is_target_of(shift, ButtonId::DpiShift),
        is_target_of(profile, ButtonId::ProfileCycle),
        is_target_of(up, ButtonId::DpiUp),
        is_target_of(down, ButtonId::DpiDown),
    ensures
        is_at_the_thumb(shift),
        forward.y < shift.y,
        forward.y + forward.h < shift.y + shift.h,
        is_behind_the_wheel(profile) && is_behind_the_wheel(up) && is_behind_the_wheel(down),
        is_above(middle, profile),
        is_above(profile, up) && is_above(profile, down),
        up.x + up.w <= down.x,
        (up.y, up.w, up.h) == (down.y, down.w, down.h),
        profile.x == up.x && profile.x + profile.w == down.x + down.w,
        (shift.x, shift.y, shift.w, shift.h) == (8u16, 340u16, 44u16, 50u16),
        (profile.x, profile.y, profile.w, profile.h) == (175u16, 230u16, 70u16, 26u16),
        (up.x, up.y, up.w, up.h) == (175u16, 258u16, 34u16, 26u16),
        down.x == 211,
{
}

/// Where the targets of any other mouse stand: the DPI toggle behind the wheel
/// and the gesture button at the thumb, below the side buttons.
pub proof fn law_standard_targets_are_placed(
    controls: FallbackControls,
    spots: Vec<Hotspot>,
    middle: Hotspot,
    forward: Hotspot,
    toggle: Hotspot,
    gesture: Hotspot,
)
    requires
        !controls.gaming_buttons,
        call_ensures(default_hotspots, (controls,), spots),
        spots@.contains(middle),
        spots@.contains(forward),
        spots@.contains(toggle),
        spots@.contains(gesture),
        is_target_of(middle, ButtonId::MiddleClick),
        is_target_of(forward, ButtonId::Forward),
        is_target_of(toggle, ButtonId::DpiToggle),
        is_target_of(gesture, ButtonId::GestureButton),
    ensures
        is_behind_the_wheel(toggle),
        is_above(middle, toggle),
        2 * toggle.x + toggle.w == MOUSE_MODEL_WIDTH,
        is_at_the_thumb(gesture),
        is_above(forward, gesture),
        (toggle.x, toggle.y, toggle.w, toggle.h) == (175u16, 230u16, 70u16, 40u16),
        (gesture.x, gesture.y, gesture.w, gesture.h) == (8u16, 380u16, 44u16, 80u16),
{
}

/// The thumb wheel is at the thumb, above the side buttons.
pub proof fn law_thumb_wheel_is_above_the_side_buttons(
    controls: FallbackControls,
    spots: Vec<Hotspot>,
    wheel: Hotspot,
    back: Hotspot,
)
    requires
        call_ensures(default_hotspots, (controls,), spots),
        spots@.contains(wheel),
        spots@.contains(back),
        wheel.id == MouseControlId::ThumbwheelRotation,
        is_target_of(back, ButtonId::Back),
    ensures
        controls.thumbwheel,
        is_at_the_thumb(wheel),
        is_above(wheel, back),
        (wheel.x, wheel.y, wheel.w, wheel.h) == (8u16, 140u16, 44u16, 70u16),
{
}

/// Targets that do not depend on an option stay put when it changes. A thumb
/// wheel adds one target, after all others. The kind of mouse changes nothing
/// but what stands between the common targets and the thumb wheel. The gaming
/// buttons come in their own order.
pub proof fn law_options_add_their_own_targets(
    gaming: bool,
    without: Vec<Hotspot>,
    with: Vec<Hotspot>,
    other: Vec<Hotspot>,
)
    requires
        call_ensures(
            default_hotspots,
            (FallbackControls { thumbwheel: false, gaming_buttons: gaming },),
            without,
        ),
        call_ensures(
            default_hotspots,
            (FallbackControls { thumbwheel: true, gaming_buttons: gaming },),
            with,
        ),
        call_ensures(
            default_hotspots,
            (FallbackControls { thumbwheel: true, gaming_buttons: !gaming },),
            other,
        ),
    ensures
        with@.drop_last() == without@,
        with@.last().id == MouseControlId::ThumbwheelRotation,
        with@.take(3) == other@.take(3),
        with@.last() == other@.last(),
        without@.len() == if gaming {
            7nat
        } else {
            5nat
        },
        is_target_of(without@[0], ButtonId::MiddleClick),
        is_target_of(without@[1], ButtonId::Back),
        is_target_of(without@[2], ButtonId::Forward),
        gaming ==> forall|i: int|
            0 <= i < 4 ==> is_target_of(
                #[trigger] without@[3 + i],
                ButtonId::GAMING_BUTTONS@[i],
            ),
        !gaming ==> is_target_of(without@[3], ButtonId::DpiToggle) && is_target_of(
            without@[4],
            ButtonId::GestureButton,
        ),
{
    assert(with@.drop_last() =~= without@);
    assert(with@.take(3) =~= other@.take(3));
    if gaming {
        let order = ButtonId::GAMING_BUTTONS@;
        assert(order[0] == ButtonId::DpiShift && order[1] == ButtonId::ProfileCycle);
        assert(order[2] == ButtonId::DpiUp && order[3] == ButtonId::DpiDown);
        assert forall|i: int| 0 <= i < 4 implies is_target_of(
            #[trigger] without@[3 + i],
            ButtonId::GAMING_BUTTONS@[i],
        ) by {
            assert(i == 0 || i == 1 || i == 2 || i == 3);
        }
    }
}

/// The center is as far from the left edge as from the right one, and as far
/// from the top as from the bottom, in half pixels.
pub proof fn law_center_is_in_the_middle(spot: Hotspot, doubled: (u32, u32))
    requires
        call_ensures(Hotspot::center, (&spot,), doubled),
    ensures
        doubled.0 - 2 * spot.x == 2 * (spot.x + spot.w) - doubled.0,
        doubled.1 - 2 * spot.y == 2 * (spot.y + spot.h) - doubled.1,
{
}

/// Two active buttons light the same target exactly if they are one button or
/// both directions of the thumb wheel. A target that stands for a button is
/// that button's own; the thumb wheel's stands for none.
pub proof fn law_active_buttons_keep_their_targets(
    a: ButtonId,
    b: ButtonId,
    target_a: MouseControlId,
    target_b: MouseControlId,
    button: Option<ButtonId>,
)
    requires
        call_ensures(MouseControlId::from_active_button, (a,), target_a),
        call_ensures(MouseControlId::from_active_button, (b,), target_b),
        call_ensures(MouseControlId::button, (target_a,), button),
    ensures
        target_a == target_b <==> a == b || {
            &&& a == ButtonId::ThumbwheelScrollUp || a == ButtonId::ThumbwheelScrollDown
            &&& b == ButtonId::ThumbwheelScrollUp || b == ButtonId::ThumbwheelScrollDown
        },
        button == if a == ButtonId::ThumbwheelScrollUp || a == ButtonId::ThumbwheelScrollDown {
            None
        } else {
            Some(a)
        },
{
}

/// A target made from a button stands for that button and has its label; the
/// thumb wheel's label does not depend on any button.
pub proof fn law_targets_are_labelled(
    button: ButtonId,
    target: MouseControlId,
    stands_for: Option<ButtonId>,
    button_key: &'static str,
    key: &'static str,
    wheel_key: &'static str,
)
    requires
        call_ensures(<MouseControlId as From<ButtonId>>::from, (button,), target),
        call_ensures(MouseControlId::button, (target,), stands_for),
        call_ensures(MouseControlId::translation_key, (target, button_key), key),
        call_ensures(
            MouseControlId::translation_key,
            (MouseControlId::ThumbwheelRotation, button_key),
            wheel_key,
        ),
    ensures
        stands_for == Some(button),
        key@ == button_key@,
        wheel_key@ == "pointer.thumb_wheel"@,
{
}

/// A mouse of which nothing is known is offered no optional control: neither a
/// thumb wheel nor gaming buttons.
pub proof fn law_unknown_mouse_has_no_options(
    controls: FallbackControls,
    spots: Vec<Hotspot>,
    at: int,
)
    requires
        call_ensures(<FallbackControls as Default>::default, (), controls),
        call_ensures(default_hotspots, (controls,), spots),
        0 <= at < spots@.len(),
    ensures
        call_requires(default_hotspots, (controls,)),
        spots@[at].id matches MouseControlId::Button(button) && !ButtonId::GAMING_BUTTONS@.contains(
            button,
        ),
{
    let gaming = ButtonId::GAMING_BUTTONS@;
    assert(gaming[0] == ButtonId::DpiShift && gaming[1] == ButtonId::ProfileCycle);
    assert(gaming[2] == ButtonId::DpiUp && gaming[3] == ButtonId::DpiDown);
}

} // verus!
