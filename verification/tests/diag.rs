use openlogi::diag::{
    DiagError, DiagEvent, DiagNext, DiagRequest, MouseButtonsArgs, MouseButtonsRun,
    OnboardProfilesInfo,
};
use openlogi::mouse_button_spy::{MouseButtonMask, MouseButtonSpyEvent};
use openlogi::onboard_profiles::{OnboardMode, ProfilesDescription};
use openlogi::text::{bracketed_text, decimal_text, hexadecimal_text};

/// The route of the device that the runs select.
const ROUTE: u32 = 7;

type Event = DiagEvent<u32, &'static str>;

struct Finished {
    lines: Vec<String>,
    requests: Vec<DiagRequest<u32>>,
    result: Result<(), DiagError<&'static str>>,
}

/// Feeds a run its events and records what it prints and asks for.
fn run(watch: bool, stop: bool, events: Vec<Event>) -> Finished {
    let (mut run, first) = MouseButtonsRun::start(MouseButtonsArgs {
        device: None,
        watch,
        stop,
    });
    let mut lines = Vec::new();
    let mut requests = vec![first];
    for event in events {
        assert!(run.is_awaiting(&event));
        let step = run.step(event);
        lines.extend(step.lines);
        match step.next {
            DiagNext::Ask(next, request) => {
                run = next;
                requests.push(request);
            }
            DiagNext::Finished(result) => {
                return Finished {
                    lines,
                    requests,
                    result,
                }
            }
        }
    }
    panic!("the run did not end");
}

fn selected() -> Event {
    DiagEvent::DeviceSelected {
        name: "G502 X PLUS".to_owned(),
        route: ROUTE,
        shown: "usb:1".to_owned(),
    }
}

fn profiles() -> Event {
    let mut payload = [0u8; 16];
    payload[1] = 0x0a;
    payload[3] = 5;
    payload[4] = 1;
    payload[5] = 16;
    payload[6] = 32;
    payload[7] = 0x01;
    DiagEvent::ProfilesRead(OnboardProfilesInfo {
        mode: OnboardMode::Onboard,
        description: ProfilesDescription::from_payload(payload),
    })
}

fn spied(bits: u16) -> Event {
    DiagEvent::Spied(MouseButtonSpyEvent::Buttons(MouseButtonMask::from_bits(bits)))
}

#[test]
fn a_run_selects_a_device_with_the_spy() {
    let (_, request) = MouseButtonsRun::<u32, &'static str>::start(MouseButtonsArgs {
        device: Some("g502".to_owned()),
        watch: false,
        stop: false,
    });

    assert!(matches!(
        request,
        DiagRequest::SelectDevice { device: Some(device), features }
            if device == "g502" && features == [0x8110]
    ));
}

#[test]
fn a_one_shot_run_reads_and_prints() {
    let finished = run(
        false,
        false,
        vec![selected(), profiles(), DiagEvent::ButtonCountRead(11)],
    );

    assert!(finished.result.is_ok());
    assert_eq!(
        finished.lines,
        [
            "device: G502 X PLUS (usb:1)",
            "  0x8100 OnboardProfiles: mode=Onboard profile_format=0x0a button_count=16 profiles=5+1 oob sectors=32x256B",
            "  0x8110 MouseButtonSpy: button_count=11",
        ]
    );
    assert!(matches!(
        finished.requests[1..],
        [DiagRequest::ReadOnboardProfiles(ROUTE), DiagRequest::ReadButtonCount(ROUTE)]
    ));
}

#[test]
fn unavailable_features_do_not_fail_a_one_shot_run() {
    let finished = run(
        false,
        false,
        vec![
            selected(),
            DiagEvent::ProfilesUnavailable("no 0x8100".to_owned()),
            DiagEvent::ButtonCountUnavailable("timed out".to_owned()),
        ],
    );

    assert!(finished.result.is_ok());
    assert_eq!(
        finished.lines[1..],
        [
            "  0x8100 OnboardProfiles: not available (no 0x8100)",
            "  0x8110 MouseButtonSpy: not available (timed out)",
        ]
    );
}

#[test]
fn watching_needs_the_spy() {
    let finished = run(
        true,
        false,
        vec![
            selected(),
            profiles(),
            DiagEvent::ButtonCountUnavailable("timed out".to_owned()),
        ],
    );

    let error = finished.result.unwrap_err();
    assert!(matches!(error, DiagError::WatchUnsupported));
    assert_eq!(
        error.context(),
        Some("--watch requires HID++ 0x8110 MouseButtonSpy, which this device doesn't report")
    );
}

#[test]
fn a_watch_streams_masks_until_enter() {
    let finished = run(
        true,
        false,
        vec![
            selected(),
            profiles(),
            DiagEvent::ButtonCountRead(11),
            DiagEvent::SpyOpened,
            DiagEvent::ReceiverRegistered,
            DiagEvent::ReportingStarted,
            spied(0x0410),
            spied(0),
            DiagEvent::EnterPressed,
            DiagEvent::ReportingStopped,
        ],
    );

    assert!(finished.result.is_ok());
    assert_eq!(
        finished.lines[3..],
        [
            "watching — press each physical button once, in isolation, then press Enter here (or Ctrl-C) to stop",
            "  mask=0x0410  down=[5, 11]",
            "  mask=0x0000  down=[]",
        ]
    );
    assert!(matches!(
        finished.requests[3..],
        [
            DiagRequest::OpenSpy(ROUTE),
            DiagRequest::Listen(ROUTE),
            DiagRequest::StartReporting(ROUTE),
            DiagRequest::AwaitEvent(ROUTE),
            DiagRequest::AwaitEvent(ROUTE),
            DiagRequest::AwaitEvent(ROUTE),
            DiagRequest::StopReporting(ROUTE),
        ]
    ));
}

#[test]
fn ctrl_c_and_a_closed_stream_stop_the_spy() {
    for (event, printed) in [
        (DiagEvent::CtrlC, Some("stopping spy")),
        (DiagEvent::StreamClosed, None),
    ] {
        let finished = run(
            true,
            false,
            vec![
                selected(),
                profiles(),
                DiagEvent::ButtonCountRead(11),
                DiagEvent::SpyOpened,
                DiagEvent::ReceiverRegistered,
                DiagEvent::ReportingStarted,
                event,
                DiagEvent::ReportingStopped,
            ],
        );

        assert!(finished.result.is_ok());
        assert_eq!(finished.lines.get(4).map(String::as_str), printed);
        assert!(matches!(
            finished.requests.last(),
            Some(DiagRequest::StopReporting(ROUTE))
        ));
    }
}

#[test]
fn a_failed_start_is_stopped_and_reported() {
    for stopped in [DiagEvent::ReportingStopped, DiagEvent::StopFailed("stop")] {
        let finished = run(
            true,
            false,
            vec![
                selected(),
                profiles(),
                DiagEvent::ButtonCountRead(11),
                DiagEvent::SpyOpened,
                DiagEvent::ReceiverRegistered,
                DiagEvent::StartFailed("start"),
                stopped,
            ],
        );

        let error = finished.result.unwrap_err();
        assert!(matches!(error, DiagError::Start("start")));
        assert_eq!(error.context(), Some("start HID++ 0x8110 MouseButtonSpy"));
        assert!(matches!(
            finished.requests.last(),
            Some(DiagRequest::StopReporting(ROUTE))
        ));
    }
}

#[test]
fn stop_opens_and_stops_without_reading() {
    let finished = run(
        false,
        true,
        vec![selected(), DiagEvent::SpyOpened, DiagEvent::ReportingStopped],
    );

    assert!(finished.result.is_ok());
    assert_eq!(finished.lines[1..], ["  0x8110 MouseButtonSpy: stopped"]);
    assert!(matches!(
        finished.requests[1..],
        [DiagRequest::OpenSpy(ROUTE), DiagRequest::StopReporting(ROUTE)]
    ));
}

#[test]
fn failures_end_in_an_error_with_its_context() {
    let selecting = run(false, false, vec![DiagEvent::SelectFailed("none")]);
    let error = selecting.result.unwrap_err();
    assert!(matches!(error, DiagError::Select("none")));
    assert_eq!(error.context(), None);

    let opening = run(
        false,
        true,
        vec![selected(), DiagEvent::SpyOpenFailed("busy")],
    );
    let error = opening.result.unwrap_err();
    assert!(matches!(error, DiagError::Open("busy")));
    assert_eq!(error.context(), Some("open HID++ 0x8110 MouseButtonSpy"));

    let stopping = run(
        false,
        true,
        vec![selected(), DiagEvent::SpyOpened, DiagEvent::StopFailed("gone")],
    );
    let error = stopping.result.unwrap_err();
    assert!(matches!(error, DiagError::Stop("gone")));
    assert_eq!(error.context(), Some("stop HID++ 0x8110 MouseButtonSpy"));
    assert_eq!(stopping.lines.len(), 1);
}

#[test]
fn a_run_awaits_only_what_it_asked_for() {
    let (run, _) = MouseButtonsRun::start(MouseButtonsArgs {
        device: None,
        watch: false,
        stop: false,
    });

    assert!(run.is_awaiting(&selected()));
    assert!(!run.is_awaiting(&profiles()));
    assert!(!run.is_awaiting(&DiagEvent::ReportingStopped));
}

#[test]
fn a_run_stays_on_the_device_it_selected() {
    let (run, _) = MouseButtonsRun::<u32, &'static str>::start(MouseButtonsArgs {
        device: None,
        watch: false,
        stop: true,
    });
    let step = run.step(DiagEvent::DeviceSelected {
        name: "other".to_owned(),
        route: 99,
        shown: "usb:2".to_owned(),
    });

    match step.next {
        DiagNext::Ask(run, DiagRequest::OpenSpy(99)) => assert!(matches!(
            run.step(DiagEvent::SpyOpened).next,
            DiagNext::Ask(_, DiagRequest::StopReporting(99))
        )),
        _ => panic!("the selected device's spy is opened"),
    }
}

#[test]
fn numbers_are_written_as_rust_writes_them() {
    for n in [0u16, 1, 9, 10, 99, 100, 255, 256, 65_535] {
        assert_eq!(decimal_text(n), format!("{}", n));
        assert_eq!(hexadecimal_text(n, 4), format!("{:04x}", n));
    }
    assert_eq!(hexadecimal_text(0x0a, 2), "0a");
    for list in [vec![], vec![7], vec![5, 11], vec![0, 100, 255]] {
        assert_eq!(bracketed_text(&list), format!("{:?}", list));
    }
}
