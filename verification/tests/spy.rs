use std::collections::HashSet;

use openlogi::button::ButtonId;
use openlogi::feature::{acknowledged, Hidpp20Error};
use openlogi::mouse_button_spy::{
    MouseButtonIndex, MouseButtonMask, MouseButtonSpy, MouseButtonSpyEvent, MouseButtonSpyFeature,
    FEATURE_ID,
};
use openlogi::spy_capture::{spy_button_maps, spy_buttons_for_model, spy_edges, CapturedInput};

#[test]
fn pressed_reports_bit_zero_as_button_one() {
    let mask = MouseButtonMask::from_bits(0x0001);

    let pressed: Vec<u8> = mask
        .pressed()
        .into_iter()
        .map(MouseButtonIndex::get)
        .collect();

    assert_eq!(pressed, [1]);
}

#[test]
fn pressed_is_ascending_and_one_based() {
    let mask = MouseButtonMask::from_bits(0x0410); // bits 4 and 10 set

    let pressed: Vec<u8> = mask
        .pressed()
        .into_iter()
        .map(MouseButtonIndex::get)
        .collect();

    assert_eq!(pressed, [5, 11]);
}

#[test]
fn pressed_reports_the_highest_button() {
    let mask = MouseButtonMask::from_bits(0x8000); // bit 15 set

    let pressed: Vec<u8> = mask
        .pressed()
        .into_iter()
        .map(MouseButtonIndex::get)
        .collect();

    assert_eq!(pressed, [16]);
}

#[test]
fn pressed_is_empty_for_a_zero_mask() {
    let mask = MouseButtonMask::from_bits(0);

    assert_eq!(mask.pressed().into_iter().count(), 0);
}

#[test]
fn from_bits_round_trips_through_bits() {
    let mask = MouseButtonMask::from_bits(0x1234);

    assert_eq!(mask.bits(), 0x1234);
}

#[test]
fn decodes_the_button_state_event_as_big_endian() {
    let mut payload = [0u8; 16];
    payload[0] = 0x04;
    payload[1] = 0x10;

    let event = MouseButtonSpyEvent::decode(0, &payload).unwrap();

    assert_eq!(
        event,
        MouseButtonSpyEvent::Buttons(MouseButtonMask::from_bits(0x0410))
    );
}

#[test]
fn decode_rejects_an_unknown_sub_id() {
    let payload = [0u8; 16];

    assert_eq!(MouseButtonSpyEvent::decode(1, &payload), None);
}

#[test]
fn a_full_mask_presses_every_button() {
    let pressed: Vec<u8> = MouseButtonMask::from_bits(0xffff)
        .pressed()
        .into_iter()
        .map(MouseButtonIndex::get)
        .collect();

    assert_eq!(pressed, (1..=16).collect::<Vec<u8>>());
}

#[test]
fn pressed_buttons_tell_masks_apart() {
    let a = MouseButtonMask::from_bits(0x0101);
    let b = MouseButtonMask::from_bits(0x0102);

    assert_ne!(a.pressed(), b.pressed());
    assert_eq!(a.pressed(), MouseButtonMask::from_bits(0x0101).pressed());
}

#[test]
fn single_button_down_then_up() {
    let map = [(5, ButtonId::DpiShift)];
    assert_eq!(
        spy_edges(
            MouseButtonMask::default(),
            MouseButtonMask::from_bits(0x0010),
            &map,
        ),
        vec![CapturedInput::ButtonDown(ButtonId::DpiShift)]
    );

    assert_eq!(
        spy_edges(
            MouseButtonMask::from_bits(0x0010),
            MouseButtonMask::default(),
            &map,
        ),
        vec![CapturedInput::ButtonUp(ButtonId::DpiShift)]
    );
}

#[test]
fn simultaneous_edges_in_one_transition() {
    let map = [(9, ButtonId::ProfileCycle), (10, ButtonId::DpiUp)];

    assert_eq!(
        spy_edges(
            MouseButtonMask::default(),
            MouseButtonMask::from_bits(0x0100),
            &map,
        ),
        vec![CapturedInput::ButtonDown(ButtonId::ProfileCycle)]
    );

    // 9 releases and 10 presses in the same mask transition.
    assert_eq!(
        spy_edges(
            MouseButtonMask::from_bits(0x0100),
            MouseButtonMask::from_bits(0x0200),
            &map,
        ),
        vec![
            CapturedInput::ButtonUp(ButtonId::ProfileCycle),
            CapturedInput::ButtonDown(ButtonId::DpiUp),
        ]
    );
}

#[test]
fn unmapped_bit_is_ignored() {
    let map = [(5, ButtonId::DpiShift)];
    // Bit 0 (button 1, left click) is not in the map: never emitted.
    assert!(spy_edges(
        MouseButtonMask::default(),
        MouseButtonMask::from_bits(0x0001),
        &map,
    )
    .is_empty());
}

#[test]
fn identical_masks_emit_nothing() {
    let map = [(5, ButtonId::DpiShift)];
    let mask = MouseButtonMask::from_bits(0x0010);
    assert!(spy_edges(mask, mask, &map).is_empty());
}

#[test]
fn spy_button_maps_are_well_formed() {
    for model in spy_button_maps() {
        let mut seen_indices = HashSet::new();
        let mut seen_buttons = HashSet::new();
        for &(index, button) in &model.buttons {
            assert!(
                (1..=16).contains(&index),
                "spy index out of HID++ button range in {}",
                model.model_key
            );
            assert!(
                seen_indices.insert(index),
                "duplicate spy index in {}",
                model.model_key
            );
            assert!(
                seen_buttons.insert(button),
                "duplicate ButtonId in {}",
                model.model_key
            );
            assert!(
                ButtonId::GAMING_BUTTONS.contains(&button),
                "{button:?} bound by the spy must be in ButtonId::GAMING_BUTTONS"
            );
        }
    }
}

#[test]
fn spy_buttons_for_model_looks_up_by_key() {
    assert!(spy_buttons_for_model("04099").is_some());
    assert!(spy_buttons_for_model("nonexistent-model-key").is_none());
}

#[test]
fn the_g502_x_plus_captures_four_buttons() {
    assert_eq!(
        spy_buttons_for_model("04099"),
        Some(vec![
            (5, ButtonId::DpiShift),
            (9, ButtonId::ProfileCycle),
            (10, ButtonId::DpiUp),
            (11, ButtonId::DpiDown),
        ])
    );
}

#[test]
fn an_entry_with_ordinal_zero_is_skipped() {
    let map = [(0, ButtonId::DpiShift), (16, ButtonId::DpiUp)];

    assert_eq!(
        spy_edges(
            MouseButtonMask::default(),
            MouseButtonMask::from_bits(0xffff),
            &map,
        ),
        vec![CapturedInput::ButtonDown(ButtonId::DpiUp)]
    );
}

#[test]
fn identical_masks_read_no_ordinal() {
    let map = [(17, ButtonId::DpiShift), (255, ButtonId::DpiUp)];
    let mask = MouseButtonMask::from_bits(0xffff);

    assert!(spy_edges(mask, mask, &map).is_empty());
}

#[test]
fn going_back_reverses_each_edge() {
    let map = [(9, ButtonId::ProfileCycle), (10, ButtonId::DpiUp)];
    let a = MouseButtonMask::from_bits(0x0100);
    let b = MouseButtonMask::from_bits(0x0200);

    assert_eq!(
        spy_edges(b, a, &map),
        vec![
            CapturedInput::ButtonDown(ButtonId::ProfileCycle),
            CapturedInput::ButtonUp(ButtonId::DpiUp),
        ]
    );
}

#[test]
fn applied_edges_keep_the_held_buttons_in_step() {
    let map = spy_buttons_for_model("04099").unwrap();
    let mut held = HashSet::new();
    let mut previous = MouseButtonMask::default();
    for bits in [0x0010, 0x0311, 0x0400, 0xffff, 0x0001, 0x0000] {
        let current = MouseButtonMask::from_bits(bits);
        for input in spy_edges(previous, current, &map) {
            match input {
                CapturedInput::ButtonDown(button) => assert!(held.insert(button)),
                CapturedInput::ButtonUp(button) => assert!(held.remove(&button)),
            }
        }
        let pressed: Vec<u8> = current
            .pressed()
            .into_iter()
            .map(MouseButtonIndex::get)
            .collect();
        let expected: HashSet<ButtonId> = map
            .iter()
            .filter(|(index, _)| pressed.contains(index))
            .map(|&(_, button)| button)
            .collect();
        assert_eq!(held, expected);
        previous = current;
    }
}

#[test]
fn spy_calls_name_their_functions() {
    let feature = MouseButtonSpyFeature::new(1, 9);
    let call = feature.get_mouse_button_count();
    assert_eq!(
        (call.device_index, call.feature_index, call.function, call.args),
        (1, 9, 0, [0, 0, 0])
    );
    assert_eq!(feature.start_spy().function, 1);
    assert_eq!(feature.stop_spy().function, 2);

    let spy = MouseButtonSpy::new(1, 9);
    assert_eq!(spy.feature_index(), 9);
    assert_eq!(spy.start_reporting(), feature.start_spy());
    assert_eq!(spy.stop_reporting(), feature.stop_spy());
    assert_eq!(FEATURE_ID, 0x8110);
}

#[test]
fn spy_replies_are_read() {
    let mut payload = [0u8; 16];
    payload[0] = 11;
    assert_eq!(MouseButtonSpyFeature::mouse_button_count(Ok(payload)), Ok(11));
    assert_eq!(
        MouseButtonSpyFeature::mouse_button_count(Err(Hidpp20Error::Call("gone".to_owned()))),
        Err(Hidpp20Error::Call("gone".to_owned()))
    );
    assert_eq!(acknowledged(Ok(payload)), Ok(()));
    assert_eq!(
        acknowledged(Err(Hidpp20Error::UnsupportedResponse)),
        Err(Hidpp20Error::UnsupportedResponse)
    );
}
