use openlogi::assets::error::AssetError;
use openlogi::assets::race::{
    race_sources, RaceEvent, RaceOutcome, RaceStep, SourceRace, PRODUCTION_GRACE_NANOS,
};
use openlogi::assets::source::BuiltInSource;

const MILLISECOND: u64 = 1_000_000;
const TEST_GRACE: u64 = 60 * MILLISECOND;

fn dummy_error() -> AssetError {
    AssetError::SourceProbeInterrupted
}

/// Reports `events` to a race, each after its given delay in milliseconds,
/// then closes the channel `linger` milliseconds after the last one. Time is
/// simulated: a report that is due after the wait limit is a timeout first.
fn race_lingering(
    events: Vec<(u64, BuiltInSource, Result<u32, AssetError>)>,
    linger: u64,
) -> RaceOutcome<u32> {
    let mut queue: Vec<(u64, RaceEvent<u32>)> = Vec::new();
    let mut at: u64 = 0;
    for (delay, source, result) in events {
        at += delay * MILLISECOND;
        queue.push((at, RaceEvent::Reported(source, result)));
    }
    queue.push((at + linger * MILLISECOND, RaceEvent::Disconnected));

    let mut race: SourceRace<u32> = SourceRace::new();
    let mut now: u64 = 0;
    for (due, event) in queue {
        let mut event = event;
        match race.wait_limit(now) {
            Some(limit) if due > now + limit => {
                now += limit;
                event = RaceEvent::TimedOut;
            }
            _ => now = now.max(due),
        }
        match race_sources(race, event, now, TEST_GRACE) {
            RaceStep::Wait(next) => race = next,
            RaceStep::Finish(outcome) => return outcome,
        }
    }
    panic!("the race did not end");
}

fn race(events: Vec<(u64, BuiltInSource, Result<u32, AssetError>)>) -> RaceOutcome<u32> {
    race_lingering(events, 0)
}

#[test]
fn production_wins_even_when_a_pinned_mirror_answers_first() {
    let outcome = race(vec![
        (0, BuiltInSource::JsDelivr, Ok(1)),
        (20, BuiltInSource::Production, Ok(2)),
    ]);

    assert!(matches!(
        outcome,
        RaceOutcome::Use(BuiltInSource::Production, 2)
    ));
}

#[test]
fn pinned_mirror_wins_once_the_grace_window_expires() {
    let outcome = race(vec![(0, BuiltInSource::JsDelivr, Ok(1))]);

    assert!(matches!(
        outcome,
        RaceOutcome::Use(BuiltInSource::JsDelivr, 1)
    ));
}

#[test]
fn pinned_mirror_wins_immediately_once_production_has_already_failed() {
    let outcome = race(vec![
        (0, BuiltInSource::Production, Err(dummy_error())),
        (5, BuiltInSource::Pages, Ok(1)),
    ]);

    assert!(matches!(outcome, RaceOutcome::Use(BuiltInSource::Pages, 1)));
}

#[test]
fn every_source_failing_reports_all_three_errors() {
    let outcome = race(vec![
        (0, BuiltInSource::Production, Err(dummy_error())),
        (0, BuiltInSource::Pages, Err(dummy_error())),
        (0, BuiltInSource::JsDelivr, Err(dummy_error())),
    ]);

    assert!(matches!(outcome, RaceOutcome::AllFailed { .. }));
}

#[test]
fn production_loses_once_the_grace_window_has_passed() {
    let outcome = race(vec![
        (0, BuiltInSource::Pages, Ok(1)),
        (61, BuiltInSource::Production, Ok(2)),
    ]);

    assert!(matches!(outcome, RaceOutcome::Use(BuiltInSource::Pages, 1)));
}

#[test]
fn production_wins_at_the_end_of_the_grace_window() {
    let outcome = race(vec![
        (0, BuiltInSource::Pages, Ok(1)),
        (60, BuiltInSource::Production, Ok(2)),
    ]);

    assert!(matches!(
        outcome,
        RaceOutcome::Use(BuiltInSource::Production, 2)
    ));
}

#[test]
fn a_second_pinned_answer_neither_replaces_nor_delays_the_first() {
    let outcome = race_lingering(
        vec![
            (0, BuiltInSource::Pages, Ok(1)),
            (40, BuiltInSource::JsDelivr, Ok(3)),
            (30, BuiltInSource::Production, Ok(2)),
        ],
        1000,
    );

    assert!(matches!(outcome, RaceOutcome::Use(BuiltInSource::Pages, 1)));
}

#[test]
fn a_failing_production_hands_over_to_the_waiting_mirror() {
    let outcome = race(vec![
        (0, BuiltInSource::JsDelivr, Ok(1)),
        (10, BuiltInSource::Pages, Err(dummy_error())),
        (10, BuiltInSource::Production, Err(dummy_error())),
    ]);

    assert!(matches!(
        outcome,
        RaceOutcome::Use(BuiltInSource::JsDelivr, 1)
    ));
}

#[test]
fn a_closed_channel_without_an_answer_is_an_interruption() {
    assert!(matches!(race(vec![]), RaceOutcome::Interrupted));
    assert!(matches!(
        race(vec![(0, BuiltInSource::Production, Err(dummy_error()))]),
        RaceOutcome::Interrupted
    ));
}

#[test]
fn all_failed_keeps_each_source_apart() {
    let fail = |depot: &str| AssetError::MissingNpmRoute {
        depot: depot.to_owned(),
    };
    let outcome = race(vec![
        (0, BuiltInSource::JsDelivr, Err(fail("c"))),
        (0, BuiltInSource::Production, Err(fail("a"))),
        (0, BuiltInSource::Pages, Err(fail("b"))),
    ]);

    match outcome {
        RaceOutcome::AllFailed {
            production,
            pages,
            jsdelivr,
        } => {
            assert!(matches!(*production, AssetError::MissingNpmRoute { depot } if depot == "a"));
            assert!(matches!(*pages, AssetError::MissingNpmRoute { depot } if depot == "b"));
            assert!(matches!(*jsdelivr, AssetError::MissingNpmRoute { depot } if depot == "c"));
        }
        _ => panic!("every source failed"),
    }
}

#[test]
fn the_wait_is_bounded_only_while_a_mirror_waits() {
    let race: SourceRace<u32> = SourceRace::new();
    assert_eq!(race.wait_limit(7), None);

    let step = race_sources(
        race,
        RaceEvent::Reported(BuiltInSource::Pages, Ok(1)),
        1_000,
        PRODUCTION_GRACE_NANOS,
    );
    match step {
        RaceStep::Wait(race) => {
            assert_eq!(race.wait_limit(1_000), Some(1_200_000_000));
            assert_eq!(race.wait_limit(1_200_000_999), Some(1));
            assert_eq!(race.wait_limit(1_200_001_000), Some(0));
            assert_eq!(race.wait_limit(u64::MAX), Some(0));
        }
        RaceStep::Finish(_) => panic!("production is still awaited"),
    }
}
