use openlogi::button::ButtonId;
use openlogi::hotspots::{
    default_hotspots, FallbackControls, Hotspot, MouseControlId, MOUSE_MODEL_HEIGHT,
    MOUSE_MODEL_WIDTH,
};

#[test]
fn active_thumbwheel_directions_share_one_control() {
    assert_eq!(
        MouseControlId::from_active_button(ButtonId::ThumbwheelScrollUp),
        MouseControlId::ThumbwheelRotation
    );
    assert_eq!(
        MouseControlId::from_active_button(ButtonId::ThumbwheelScrollDown),
        MouseControlId::ThumbwheelRotation
    );
}

#[test]
fn fallback_thumbwheel_is_capability_gated() {
    assert!(!default_hotspots(FallbackControls::default())
        .iter()
        .any(|hotspot| { hotspot.id == MouseControlId::ThumbwheelRotation }));
    assert_eq!(
        default_hotspots(FallbackControls {
            thumbwheel: true,
            ..Default::default()
        })
        .iter()
        .filter(|hotspot| hotspot.id == MouseControlId::ThumbwheelRotation)
        .count(),
        1
    );
}

#[test]
fn default_hotspots_expose_the_gesture_button() {
    let hotspots = default_hotspots(FallbackControls::default());
    assert!(
        hotspots
            .iter()
            .any(|h| { h.id == MouseControlId::Button(ButtonId::GestureButton) }),
        "the gesture button must be a mappable hotspot in the synthetic model"
    );
}

#[test]
fn default_hotspots_omit_primary_clicks() {
    let hotspots = default_hotspots(FallbackControls::default());
    assert!(
        !hotspots.iter().any(|h| {
            matches!(
                h.id,
                MouseControlId::Button(ButtonId::LeftClick | ButtonId::RightClick)
            )
        }),
        "primary clicks are not remappable and must stay out of the model"
    );
}

#[test]
fn gaming_buttons_replace_dpi_toggle_and_gesture_button() {
    let hotspots = default_hotspots(FallbackControls {
        gaming_buttons: true,
        ..Default::default()
    });
    for stale in [ButtonId::DpiToggle, ButtonId::GestureButton] {
        assert!(
            !hotspots
                .iter()
                .any(|h| h.id == MouseControlId::Button(stale)),
            "{stale:?} does not exist on a gaming mouse and must not be an offered hotspot"
        );
    }
    for expected in [
        ButtonId::DpiShift,
        ButtonId::ProfileCycle,
        ButtonId::DpiUp,
        ButtonId::DpiDown,
    ] {
        assert!(
            hotspots
                .iter()
                .any(|h| h.id == MouseControlId::Button(expected)),
            "{expected:?} must be a mappable hotspot on a gaming mouse"
        );
    }
}

fn every_layout() -> Vec<Vec<Hotspot>> {
    let mut layouts = Vec::new();
    for thumbwheel in [false, true] {
        for gaming_buttons in [false, true] {
            layouts.push(default_hotspots(FallbackControls {
                thumbwheel,
                gaming_buttons,
            }));
        }
    }
    layouts
}

#[test]
fn hotspots_lie_on_the_canvas_and_are_distinct() {
    assert_eq!((MOUSE_MODEL_WIDTH, MOUSE_MODEL_HEIGHT), (420, 560));
    for layout in every_layout() {
        for (at, hotspot) in layout.iter().enumerate() {
            assert!(hotspot.x + hotspot.w <= MOUSE_MODEL_WIDTH);
            assert!(hotspot.y + hotspot.h <= MOUSE_MODEL_HEIGHT);
            assert!(layout[at + 1..].iter().all(|other| other.id != hotspot.id));
        }
    }
}

#[test]
fn the_standard_layout_is_exact() {
    let spot = |button, x, y, w, h| Hotspot {
        id: MouseControlId::Button(button),
        x,
        y,
        w,
        h,
    };
    assert_eq!(
        default_hotspots(FallbackControls {
            thumbwheel: true,
            gaming_buttons: false
        }),
        vec![
            spot(ButtonId::MiddleClick, 180, 110, 60, 90),
            spot(ButtonId::Back, 0, 220, 40, 60),
            spot(ButtonId::Forward, 0, 290, 40, 60),
            spot(ButtonId::DpiToggle, 175, 230, 70, 40),
            spot(ButtonId::GestureButton, 8, 380, 44, 80),
            Hotspot {
                id: MouseControlId::ThumbwheelRotation,
                x: 8,
                y: 140,
                w: 44,
                h: 70
            },
        ]
    );
}

#[test]
fn the_gaming_layout_is_exact() {
    let layout = default_hotspots(FallbackControls {
        thumbwheel: false,
        gaming_buttons: true,
    });
    let bounds: Vec<(u16, u16, u16, u16)> =
        layout[3..].iter().map(|h| (h.x, h.y, h.w, h.h)).collect();

    assert_eq!(
        bounds,
        [
            (8, 340, 44, 50),
            (175, 230, 70, 26),
            (175, 258, 34, 26),
            (211, 258, 34, 26)
        ]
    );
}

#[test]
fn the_center_is_given_in_half_pixels() {
    let hotspot = Hotspot {
        id: MouseControlId::ThumbwheelRotation,
        x: 8,
        y: 140,
        w: 45,
        h: 70,
    };
    assert_eq!(hotspot.center(), (61, 350));

    let largest = Hotspot {
        id: MouseControlId::ThumbwheelRotation,
        x: u16::MAX,
        y: u16::MAX,
        w: u16::MAX,
        h: u16::MAX,
    };
    assert_eq!(largest.center(), (196_605, 196_605));
}

#[test]
fn controls_name_their_button() {
    assert_eq!(
        MouseControlId::from(ButtonId::Back).button(),
        Some(ButtonId::Back)
    );
    assert_eq!(MouseControlId::ThumbwheelRotation.button(), None);
    assert_eq!(
        MouseControlId::from_active_button(ButtonId::Forward),
        MouseControlId::Button(ButtonId::Forward)
    );
    assert_eq!(
        MouseControlId::from_active_button(ButtonId::Other(7)),
        MouseControlId::Button(ButtonId::Other(7))
    );
    assert_eq!(
        MouseControlId::ThumbwheelRotation.translation_key("unused"),
        "pointer.thumb_wheel"
    );
    assert_eq!(
        MouseControlId::Button(ButtonId::Back).translation_key("button.back"),
        "button.back"
    );
}
