//! HID++ `MouseButtonSpy` (feature `0x8110`): the raw button-event tap of
//! G-series mice.
//!
//! This is a tap, not a divert: a button that has a native HID report keeps
//! producing it alongside the spy's events.

use vstd::arithmetic::power2::{lemma2_to64, pow2};
use vstd::prelude::*;

use super::feature::{
    big_endian, is_bare_call, u16_from_be, FeatureCall, FeatureEndpoint, Hidpp20Error, Reply,
};

verus! {

/// `MouseButtonSpy` HID++ feature ID.
pub const FEATURE_ID: u16 = 0x8110;

/// How many buttons a mask can report.
pub const BUTTON_LIMIT: u8 = 16;

/// A 1-based mouse button ordinal (`1..=16`), as used by [`MouseButtonMask`].
#[derive(Clone, Copy, Debug, PartialEq, Eq, Hash)]
pub struct MouseButtonIndex(u8);

impl View for MouseButtonIndex {
    type V = u8;

    closed spec fn view(&self) -> u8 {
        self.0
    }
}

impl MouseButtonIndex {
    #[verifier::type_invariant]
    spec fn inv(self) -> bool {
        1 <= self.0 <= BUTTON_LIMIT
    }

    /// The 1-based ordinal as a plain `u8`.
    pub fn get(self) -> (index: u8)
        ensures
            index == self@,
            1 <= index <= BUTTON_LIMIT,
    {
        proof {
            use_type_invariant(&self);
        }
        self.0
    }
}

/// The 16-bit button-state bitmask carried by the spy's button event.
///
/// Bit 0 is button 1.
#[derive(Clone, Copy, Debug, PartialEq, Eq, Structural, Hash)]
pub struct MouseButtonMask(u16);

impl View for MouseButtonMask {
    type V = u16;

    closed spec fn view(&self) -> u16 {
        self.0
    }
}

/// Bit `shift` of `bits` is set.
pub open spec fn bit_is_set(bits: u16, shift: u16) -> bool {
    bits & (1u16 << shift) != 0
}

impl MouseButtonMask {
    /// The button with the 1-based ordinal `index` is reported pressed.
    pub open spec fn is_down(self, index: int) -> bool {
        1 <= index <= BUTTON_LIMIT && bit_is_set(self@, (index - 1) as u16)
    }

    /// The pressed buttons among the first `count`, in ascending order.
    pub open spec fn down_among_first(self, count: nat) -> Seq<u8>
        decreases count,
    {
        if count == 0 {
            Seq::empty()
        } else if self.is_down(count as int) {
            self.down_among_first((count - 1) as nat).push(count as u8)
        } else {
            self.down_among_first((count - 1) as nat)
        }
    }

    /// Every pressed button, in ascending order.
    pub open spec fn down(self) -> Seq<u8> {
        self.down_among_first(BUTTON_LIMIT as nat)
    }

    /// Wraps a raw 16-bit mask.
    pub fn from_bits(bits: u16) -> (mask: Self)
        ensures
            mask@ == bits,
    {
        MouseButtonMask(bits)
    }

    /// The mask's raw bits.
    pub fn bits(self) -> (bits: u16)
        ensures
            bits == self@,
    {
        self.0
    }

    /// Whether a button is reported pressed.
    pub(crate) fn contains(self, index: u8) -> (pressed: bool)
        requires
            index <= BUTTON_LIMIT,
        ensures
            pressed == self.is_down(index as int),
    {
        if index == 0 {
            false
        } else {
            self.0 & (1u16 << (index - 1) as u16) != 0
        }
    }

    /// Every button index currently reported pressed, in ascending order.
    pub fn pressed(self) -> (pressed: Vec<MouseButtonIndex>)
        ensures
            pressed@.map_values(|index: MouseButtonIndex| index@) == self.down(),
    {
        let mut pressed: Vec<MouseButtonIndex> = Vec::new();
        let mut index: u8 = 0;
        assert(pressed@.map_values(|index: MouseButtonIndex| index@) =~= Seq::<u8>::empty());
        while index < BUTTON_LIMIT
            invariant
                index <= BUTTON_LIMIT,
                pressed@.map_values(|index: MouseButtonIndex| index@) == self.down_among_first(
                    index as nat,
                ),
            decreases BUTTON_LIMIT - index,
        {
            index = index + 1;
            if self.contains(index) {
                let ghost before = pressed@.map_values(|index: MouseButtonIndex| index@);
                pressed.push(MouseButtonIndex(index));
                assert(pressed@.map_values(|index: MouseButtonIndex| index@) =~= before.push(index));
            }
        }
        pressed
    }
}

impl Default for MouseButtonMask {
    /// No button pressed.
    fn default() -> (mask: Self)
        ensures
            mask@ == 0,
    {
        MouseButtonMask(0)
    }
}

/// Event emitted by `0x8110` while the spy is active.
#[derive(Clone, Copy, Debug, PartialEq, Eq, Structural, Hash)]
pub enum MouseButtonSpyEvent {
    /// The current state of every button the spy tracks.
    Buttons(MouseButtonMask),
}

impl MouseButtonSpyEvent {
    /// Decodes an event: sub-id 0 carries the mask, big-endian, in the first
    /// two bytes; every other sub-id is unknown.
    pub fn decode(sub_id: u8, payload: &[u8; 16]) -> (event: Option<Self>)
        ensures
            match event {
                Some(MouseButtonSpyEvent::Buttons(mask)) => sub_id == 0 && mask@ == big_endian(
                    payload@[0],
                    payload@[1],
                ),
                None => sub_id != 0,
            },
    {
        match sub_id {
            0 => Some(
                MouseButtonSpyEvent::Buttons(
                    MouseButtonMask::from_bits(u16_from_be(payload[0], payload[1])),
                ),
            ),
            _ => None,
        }
    }
}

/// The `MouseButtonSpy` / `0x8110` feature of a device.
#[derive(Clone, Copy, Debug, PartialEq, Eq)]
pub struct MouseButtonSpyFeature {
    pub endpoint: FeatureEndpoint,
}

impl MouseButtonSpyFeature {
    /// The feature at an address.
    pub fn new(device_index: u8, feature_index: u8) -> (feature: Self)
        ensures
            feature.endpoint == (FeatureEndpoint { device_index, feature_index }),
    {
        MouseButtonSpyFeature { endpoint: FeatureEndpoint { device_index, feature_index } }
    }

    /// Asks for the number of physical mouse buttons the spy can report
    /// (`getMouseButtonCount`, function 0).
    pub fn get_mouse_button_count(&self) -> (call: FeatureCall)
        ensures
            is_bare_call(call, self.endpoint, 0),
    {
        self.endpoint.bare_call(0)
    }

    /// The number in the reply to [`Self::get_mouse_button_count`].
    pub fn mouse_button_count(reply: Reply) -> (count: Result<u8, Hidpp20Error>)
        ensures
            count == match reply {
                Ok(payload) => Ok::<u8, Hidpp20Error>(payload@[0]),
                Err(error) => Err(error),
            },
    {
        match reply {
            Ok(payload) => Ok(payload[0]),
            Err(error) => Err(error),
        }
    }

    /// Starts emitting button-state events (`startMouseButtonSpy`, function 1).
    pub fn start_spy(&self) -> (call: FeatureCall)
        ensures
            is_bare_call(call, self.endpoint, 1),
    {
        self.endpoint.bare_call(1)
    }

    /// Stops emitting button-state events (`stopMouseButtonSpy`, function 2).
    pub fn stop_spy(&self) -> (call: FeatureCall)
        ensures
            is_bare_call(call, self.endpoint, 2),
    {
        self.endpoint.bare_call(2)
    }
}

/// `MouseButtonSpy` accessor bound to one device and a resolved feature index.
#[derive(Clone, Copy, Debug, PartialEq, Eq)]
pub struct MouseButtonSpy {
    inner: MouseButtonSpyFeature,
}

impl MouseButtonSpy {
    /// Where the accessor's calls go.
    pub closed spec fn endpoint(self) -> FeatureEndpoint {
        self.inner.endpoint
    }

    /// Binds the feature to `(device_index, feature_index)`.
    pub fn new(device_index: u8, feature_index: u8) -> (spy: Self)
        ensures
            spy.endpoint() == (FeatureEndpoint { device_index, feature_index }),
    {
        MouseButtonSpy { inner: MouseButtonSpyFeature::new(device_index, feature_index) }
    }

    /// The feature index this accessor talks to.
    pub fn feature_index(&self) -> (index: u8)
        ensures
            index == self.endpoint().feature_index,
    {
        self.inner.endpoint.feature_index
    }

    /// Starts emitting button-state events (`startMouseButtonSpy`).
    pub fn start_reporting(&self) -> (call: FeatureCall)
        ensures
            is_bare_call(call, self.endpoint(), 1),
    {
        self.inner.start_spy()
    }

    /// Stops emitting button-state events (`stopMouseButtonSpy`). Idempotent
    /// on the device: safe to call on a session that never started it.
    pub fn stop_reporting(&self) -> (call: FeatureCall)
        ensures
            is_bare_call(call, self.endpoint(), 2),
    {
        self.inner.stop_spy()
    }
}

proof fn lemma_down_among_first_is_exact(mask: MouseButtonMask, count: nat)
    requires
        count <= BUTTON_LIMIT,
    ensures
        forall|i: int| 0 <= i < mask.down_among_first(count).len() ==> 1 <= #[trigger]
            mask.down_among_first(count)[i] <= count && mask.is_down(
            mask.down_among_first(count)[i] as int,
        ),
        forall|i: int, j: int|
            0 <= i < j < mask.down_among_first(count).len() ==> #[trigger]
                mask.down_among_first(count)[i] < #[trigger] mask.down_among_first(count)[j],
        forall|index: u8|
            1 <= index <= count && #[trigger] mask.is_down(index as int)
                ==> mask.down_among_first(count).contains(index),
    decreases count,
{
    if count > 0 {
        let before = mask.down_among_first((count - 1) as nat);
        lemma_down_among_first_is_exact(mask, (count - 1) as nat);
        if mask.is_down(count as int) {
            let now = before.push(count as u8);
            assert forall|index: u8|
                1 <= index <= count && #[trigger] mask.is_down(index as int) implies now.contains(
                index,
            ) by {
                if index == count {
                    assert(now[before.len() as int] == index);
                } else {
                    let i = choose|i: int| 0 <= i < before.len() && before[i] == index;
                    assert(now[i] == index);
                }
            }
        }
    }
}

/// The pressed buttons of a mask are listed in ascending order, from 1 up to
/// 16, and a button is listed exactly if its bit is set.
pub proof fn law_pressed_is_ascending_and_exact(mask: MouseButtonMask)
    ensures
        forall|i: int, j: int|
            0 <= i < j < mask.down().len() ==> #[trigger] mask.down()[i] < #[trigger]
                mask.down()[j],
        forall|index: u8| #[trigger]
            mask.down().contains(index) <==> 1 <= index <= BUTTON_LIMIT && bit_is_set(
                mask@,
                (index - 1) as u16,
            ),
{
    lemma_down_among_first_is_exact(mask, BUTTON_LIMIT as nat);
    assert forall|index: u8| #[trigger] mask.down().contains(index) <==> mask.is_down(
        index as int,
    ) by {
        if mask.down().contains(index) {
            let i = choose|i: int| 0 <= i < mask.down().len() && mask.down()[i] == index;
            assert(mask.is_down(mask.down()[i] as int));
        }
    }
}

proof fn lemma_bits_determine_the_mask(x: u16, y: u16)
    by (bit_vector)
    requires
        bit_is_set(x, 0) == bit_is_set(y, 0),
        bit_is_set(x, 1) == bit_is_set(y, 1),
        bit_is_set(x, 2) == bit_is_set(y, 2),
        bit_is_set(x, 3) == bit_is_set(y, 3),
        bit_is_set(x, 4) == bit_is_set(y, 4),
        bit_is_set(x, 5) == bit_is_set(y, 5),
        bit_is_set(x, 6) == bit_is_set(y, 6),
        bit_is_set(x, 7) == bit_is_set(y, 7),
        bit_is_set(x, 8) == bit_is_set(y, 8),
        bit_is_set(x, 9) == bit_is_set(y, 9),
        bit_is_set(x, 10) == bit_is_set(y, 10),
        bit_is_set(x, 11) == bit_is_set(y, 11),
        bit_is_set(x, 12) == bit_is_set(y, 12),
        bit_is_set(x, 13) == bit_is_set(y, 13),
        bit_is_set(x, 14) == bit_is_set(y, 14),
        bit_is_set(x, 15) == bit_is_set(y, 15),
    ensures
        x == y,
{
}

/// The pressed buttons determine the mask: two masks that list the same
/// buttons have the same bits.
pub proof fn law_pressed_determines_the_mask(a: MouseButtonMask, b: MouseButtonMask)
    requires
        a.down() == b.down(),
    ensures
        a@ == b@,
{
    law_pressed_is_ascending_and_exact(a);
    law_pressed_is_ascending_and_exact(b);
    let x = a@;
    let y = b@;
    assert forall|shift: u16| shift < 16 implies #[trigger] bit_is_set(x, shift) == bit_is_set(
        y,
        shift,
    ) by {
        let index = (shift + 1) as u8;
        assert((index - 1) as u16 == shift);
        assert(a.down().contains(index) <==> bit_is_set(x, shift));
        assert(b.down().contains(index) <==> bit_is_set(y, shift));
    }
    lemma_bits_determine_the_mask(x, y);
}

/// What the bits of the listed buttons come to: bit 0 is button 1.
pub open spec fn bits_of(buttons: Seq<u8>) -> int
    decreases buttons.len(),
{
    if buttons.len() == 0 {
        0
    } else {
        bits_of(buttons.drop_last()) + pow2((buttons.last() - 1) as nat)
    }
}

/// What the bits of the pressed buttons among the first `count` come to.
spec fn bits_among_first(mask: MouseButtonMask, count: nat) -> int
    decreases count,
{
    if count == 0 {
        0
    } else {
        bits_among_first(mask, (count - 1) as nat) + if mask.is_down(count as int) {
            pow2((count - 1) as nat) as int
        } else {
            0
        }
    }
}

proof fn lemma_listed_bits_add_up(mask: MouseButtonMask, count: nat)
    requires
        count <= BUTTON_LIMIT,
    ensures
        bits_of(mask.down_among_first(count)) == bits_among_first(mask, count),
    decreases count,
{
    if count > 0 {
        let before = mask.down_among_first((count - 1) as nat);
        lemma_listed_bits_add_up(mask, (count - 1) as nat);
        if mask.is_down(count as int) {
            assert(before.push(count as u8).drop_last() =~= before);
        }
    }
}

/// One bit of a number, where it is set.
spec fn bit_value(bits: u16, shift: u16, value: u16) -> u16 {
    if bit_is_set(bits, shift) {
        value
    } else {
        0u16
    }
}

proof fn lemma_bits_add_up(x: u16)
    by (bit_vector)
    ensures
        x == bit_value(x, 0, 1) + bit_value(x, 1, 2) + bit_value(x, 2, 4) + bit_value(x, 3, 8)
            + bit_value(x, 4, 16) + bit_value(x, 5, 32) + bit_value(x, 6, 64) + bit_value(x, 7, 128)
            + bit_value(x, 8, 256) + bit_value(x, 9, 512) + bit_value(x, 10, 1024) + bit_value(
            x,
            11,
            2048,
        ) + bit_value(x, 12, 4096) + bit_value(x, 13, 8192) + bit_value(x, 14, 16384) + bit_value(
            x,
            15,
            32768,
        ),
{
}

/// The pressed buttons of a mask are listed in ascending order, from 1 up to
/// 16, and their bits add up to the mask: a button is listed exactly if its
/// bit is set.
pub proof fn law_pressed_buttons_add_up_to_the_mask(
    mask: MouseButtonMask,
    bits: u16,
    pressed: Vec<MouseButtonIndex>,
    at: int,
    index: u8,
)
    requires
        call_ensures(MouseButtonMask::bits, (mask,), bits),
        call_ensures(MouseButtonMask::pressed, (mask,), pressed),
        0 <= at < pressed@.len() ==> call_ensures(MouseButtonIndex::get, (pressed@[at],), index),
    ensures
        0 <= at < pressed@.len() ==> index == pressed@[at]@,
        forall|i: int| 0 <= i < pressed@.len() ==> 1 <= (#[trigger] pressed@[i])@ <= 16,
        forall|i: int, j: int|
            0 <= i < j < pressed@.len() ==> (#[trigger] pressed@[i])@ < (#[trigger] pressed@[j])@,
        bits_of(pressed@.map_values(|index: MouseButtonIndex| index@)) == bits,
        bits == mask@,
{
    let listed = pressed@.map_values(|index: MouseButtonIndex| index@);
    lemma_down_among_first_is_exact(mask, BUTTON_LIMIT as nat);
    lemma_listed_bits_add_up(mask, BUTTON_LIMIT as nat);
    lemma_bits_add_up(bits);
    lemma2_to64();
    reveal_with_fuel(bits_among_first, 17);
    assert forall|i: int| 0 <= i < pressed@.len() implies 1 <= (#[trigger] pressed@[i])@ <= 16 by {
        assert(pressed@[i]@ == listed[i]);
    }
    assert forall|i: int, j: int| 0 <= i < j < pressed@.len() implies (#[trigger] pressed@[i])@ < (
    #[trigger] pressed@[j])@ by {
        assert(pressed@[i]@ == listed[i] && pressed@[j]@ == listed[j]);
    }
}

/// A mask keeps the bits that it was made of; without any there is none
/// pressed.
pub proof fn law_mask_keeps_its_bits(
    bits: u16,
    mask: MouseButtonMask,
    read: u16,
    released: MouseButtonMask,
    none: u16,
)
    requires
        call_ensures(MouseButtonMask::from_bits, (bits,), mask),
        call_ensures(MouseButtonMask::bits, (mask,), read),
        call_ensures(<MouseButtonMask as Default>::default, (), released),
        call_ensures(MouseButtonMask::bits, (released,), none),
    ensures
        read == bits,
        none == 0,
{
}

/// An event is decoded exactly if its sub-id is 0, and its mask's bits are the
/// payload's first two bytes, the more significant one first.
pub proof fn law_decoded_mask_keeps_the_payload(
    sub_id: u8,
    payload: [u8; 16],
    event: Option<MouseButtonSpyEvent>,
)
    requires
        call_ensures(MouseButtonSpyEvent::decode, (sub_id, &payload), event),
    ensures
        call_requires(MouseButtonSpyEvent::decode, (sub_id, &payload)),
        event is Some <==> sub_id == 0,
        event matches Some(MouseButtonSpyEvent::Buttons(mask)) ==> mask@ / 256 == payload@[0]
            && mask@ % 256 == payload@[1],
{
}

/// The spy's calls go to the address that it was made with, without
/// arguments: the count is function 0, the start function 1, the stop
/// function 2. The accessor makes the feature's own calls.
pub proof fn law_spy_calls_go_to_the_feature(
    device_index: u8,
    feature_index: u8,
    feature: MouseButtonSpyFeature,
    spy: MouseButtonSpy,
    count: FeatureCall,
    start: FeatureCall,
    stop: FeatureCall,
    start_reporting: FeatureCall,
    stop_reporting: FeatureCall,
    index: u8,
)
    requires
        call_ensures(MouseButtonSpyFeature::new, (device_index, feature_index), feature),
        call_ensures(MouseButtonSpy::new, (device_index, feature_index), spy),
        call_ensures(MouseButtonSpyFeature::get_mouse_button_count, (&feature,), count),
        call_ensures(MouseButtonSpyFeature::start_spy, (&feature,), start),
        call_ensures(MouseButtonSpyFeature::stop_spy, (&feature,), stop),
        call_ensures(MouseButtonSpy::start_reporting, (&spy,), start_reporting),
        call_ensures(MouseButtonSpy::stop_reporting, (&spy,), stop_reporting),
        call_ensures(MouseButtonSpy::feature_index, (&spy,), index),
    ensures
        count.device_index == device_index && count.feature_index == feature_index,
        start.device_index == device_index && start.feature_index == feature_index,
        stop.device_index == device_index && stop.feature_index == feature_index,
        count.function == 0 && start.function == 1 && stop.function == 2,
        forall|i: int| 0 <= i < 3 ==> #[trigger] count.args@[i] == 0,
        forall|i: int| 0 <= i < 3 ==> #[trigger] start.args@[i] == 0,
        forall|i: int| 0 <= i < 3 ==> #[trigger] stop.args@[i] == 0,
        start_reporting.device_index == device_index && start_reporting.feature_index
            == feature_index,
        stop_reporting.device_index == device_index && stop_reporting.feature_index
            == feature_index,
        start_reporting.function == start.function && start_reporting.args@ == start.args@,
        stop_reporting.function == stop.function && stop_reporting.args@ == stop.args@,
        index == feature_index,
{
}

/// The count that a device reports is the first byte of its reply; a failed
/// call has none.
pub proof fn law_button_count_is_the_first_byte(reply: Reply, count: Result<u8, Hidpp20Error>)
    requires
        call_ensures(MouseButtonSpyFeature::mouse_button_count, (reply,), count),
    ensures
        reply matches Ok(payload) ==> count == Ok::<u8, Hidpp20Error>(payload@[0]),
        reply matches Err(error) ==> count == Err::<u8, Hidpp20Error>(error),
{
}

} // verus!
