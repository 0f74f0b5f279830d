//! What holds of a whole race, whatever the probes report and in what order.

use vstd::prelude::*;

use super::error::AssetError;
use super::race::{race_sources, race_step, RaceEvent, RaceOutcome, RaceStep, SourceRace};
use super::source::BuiltInSource;

verus! {

/// Where a race stands after a history of events, each with the time at which
/// it was handled. Events after the decision change nothing.
pub open spec fn race_after<T>(events: Seq<(RaceEvent<T>, u64)>, grace: u64) -> RaceStep<T>
    decreases events.len(),
{
    if events.len() == 0 {
        RaceStep::Wait(SourceRace::<T>::fresh())
    } else {
        match race_after(events.drop_last(), grace) {
            RaceStep::Finish(outcome) => RaceStep::Finish(outcome),
            RaceStep::Wait(race) => race_step(race, events.last().0, events.last().1, grace),
        }
    }
}

/// The last event of the history is the one that decides the race.
pub open spec fn decided_by_last<T>(events: Seq<(RaceEvent<T>, u64)>, grace: u64) -> bool {
    &&& events.len() > 0
    &&& race_after(events.drop_last(), grace) is Wait
    &&& race_after(events, grace) is Finish
}

/// The event is a successful probe.
pub open spec fn is_success<T>(event: (RaceEvent<T>, u64)) -> bool {
    event.0 matches RaceEvent::Reported(_, Ok(_))
}

/// The event is a report of `source`, good or bad.
pub open spec fn is_report_of<T>(event: (RaceEvent<T>, u64), source: BuiltInSource) -> bool {
    event.0 matches RaceEvent::Reported(reporter, _) && reporter == source
}

/// A probe of `source` has reported, good or bad.
pub open spec fn has_reported<T>(
    events: Seq<(RaceEvent<T>, u64)>,
    source: BuiltInSource,
) -> bool {
    exists|i: int| 0 <= i < events.len() && #[trigger] is_report_of(events[i], source)
}

/// The event is a failed probe of `source`.
pub open spec fn is_failure_of<T>(event: (RaceEvent<T>, u64), source: BuiltInSource) -> bool {
    event.0 matches RaceEvent::Reported(reporter, Err(_)) && reporter == source
}

/// The event ends the wait for Production: it failed, the deadline passed, or
/// the probes are gone.
pub open spec fn gives_up_on_production<T>(event: (RaceEvent<T>, u64)) -> bool {
    ||| is_failure_of(event, BuiltInSource::Production)
    ||| event.0 is TimedOut
    ||| event.0 is Disconnected
}

/// The first successful probe of the history is at `at`.
pub open spec fn first_success_at<T>(events: Seq<(RaceEvent<T>, u64)>, at: int) -> bool {
    &&& 0 <= at < events.len()
    &&& is_success(events[at])
    &&& forall|i: int| 0 <= i < at ==> !is_success(#[trigger] events[i])
}

/// The error of the last failed probe of `source`, if one failed.
pub open spec fn latest_failure<T>(
    events: Seq<(RaceEvent<T>, u64)>,
    source: BuiltInSource,
) -> Option<AssetError>
    decreases events.len(),
{
    if events.len() == 0 {
        None
    } else {
        match events.last().0 {
            RaceEvent::Reported(reporter, Err(error)) if reporter == source => Some(error),
            _ => latest_failure(events.drop_last(), source),
        }
    }
}

/// What a waiting race knows about its history.
spec fn remembers<T>(race: SourceRace<T>, events: Seq<(RaceEvent<T>, u64)>, grace: u64) -> bool {
    &&& race.wf()
    &&& race.production_error == latest_failure(events, BuiltInSource::Production)
    &&& race.pages_error == latest_failure(events, BuiltInSource::Pages)
    &&& race.jsdelivr_error == latest_failure(events, BuiltInSource::JsDelivr)
    &&& forall|i: int|
        0 <= i < events.len() ==> (#[trigger] events[i]).0 is Reported && !(is_success(events[i])
            && is_report_of(events[i], BuiltInSource::Production))
    &&& race.fallback is None ==> forall|i: int|
        0 <= i < events.len() ==> !is_success(#[trigger] events[i])
    &&& race.fallback matches Some((source, probe)) ==> exists|at: int|
        #[trigger] first_success_at(events, at) && events[at].0 == RaceEvent::Reported(
            source,
            Ok(probe),
        ) && race.deadline == Some((events[at].1 + grace) as u64)
}

proof fn lemma_waiting_race_remembers<T>(events: Seq<(RaceEvent<T>, u64)>, grace: u64)
    requires
        race_after(events, grace) is Wait,
    ensures
        remembers(race_after(events, grace)->Wait_0, events, grace),
    decreases events.len(),
{
    if events.len() > 0 {
        let before = events.drop_last();
        assert(race_after(before, grace) is Wait);
        lemma_waiting_race_remembers(before, grace);
        let earlier = race_after(before, grace)->Wait_0;
        let later = race_after(events, grace)->Wait_0;
        assert(forall|i: int| 0 <= i < before.len() ==> before[i] == events[i]);
        let last = events.len() - 1;
        assert(events[last] == events.last());
        if earlier.fallback is Some {
            let (source, probe) = earlier.fallback->0;
            let at = choose|at: int|
                #[trigger] first_success_at(before, at) && before[at].0 == RaceEvent::Reported(
                    source,
                    Ok(probe),
                ) && earlier.deadline == Some((before[at].1 + grace) as u64);
            assert(first_success_at(events, at));
        } else if later.fallback is Some {
            assert(first_success_at(events, last));
        }
    }
}

/// A failure that is remembered was reported, and the other way round.
proof fn lemma_latest_failure_is_reported<T>(
    events: Seq<(RaceEvent<T>, u64)>,
    source: BuiltInSource,
)
    ensures
        latest_failure(events, source) is Some <==> exists|i: int|
            0 <= i < events.len() && is_failure_of(#[trigger] events[i], source),
    decreases events.len(),
{
    if events.len() > 0 {
        let before = events.drop_last();
        let last = events.len() - 1;
        lemma_latest_failure_is_reported(before, source);
        assert(events[last] == events.last());
        if is_failure_of(events.last(), source) {
            assert(is_failure_of(events[last], source));
        } else {
            assert forall|i: int|
                0 <= i < events.len() && is_failure_of(
                    #[trigger] events[i],
                    source,
                ) implies is_failure_of(before[i], source) by {
                assert(i < last);
            }
            if exists|i: int| 0 <= i < before.len() && is_failure_of(#[trigger] before[i], source) {
                let i = choose|i: int|
                    0 <= i < before.len() && is_failure_of(#[trigger] before[i], source);
                assert(is_failure_of(events[i], source));
            }
        }
    }
}

/// Production's success wins the moment it is reported, whatever a pinned
/// mirror has answered before.
pub proof fn law_production_wins_when_it_answers<T>(
    events: Seq<(RaceEvent<T>, u64)>,
    probe: T,
    now: u64,
    grace: u64,
)
    requires
        race_after(events, grace) is Wait,
    ensures
        race_after(
            events.push((RaceEvent::Reported(BuiltInSource::Production, Ok(probe)), now)),
            grace,
        ) == RaceStep::Finish(RaceOutcome::Use(BuiltInSource::Production, probe)),
{
    let extended = events.push((RaceEvent::Reported(BuiltInSource::Production, Ok(probe)), now));
    assert(extended.drop_last() =~= events);
}

/// The clock never goes back.
pub open spec fn times_ascend<T>(events: Seq<(RaceEvent<T>, u64)>) -> bool {
    forall|i: int, j: int|
        0 <= i <= j < events.len() ==> (#[trigger] events[i]).1 <= (#[trigger] events[j]).1
}

/// A wait times out only when the race has a deadline and the deadline has
/// come.
pub open spec fn timeouts_are_due<T>(events: Seq<(RaceEvent<T>, u64)>, grace: u64) -> bool {
    forall|i: int|
        0 <= i < events.len() && (#[trigger] events[i]).0 is TimedOut ==> (race_after(
            events.take(i),
            grace,
        ) matches RaceStep::Wait(race) ==> race.deadline matches Some(deadline) && deadline
            <= events[i].1)
}

/// Production's success is reported at `at`, as its first report and while the
/// probes are running, before the grace window of an earlier answer has passed.
pub open spec fn production_answers_in_time<T>(
    events: Seq<(RaceEvent<T>, u64)>,
    at: int,
    probe: T,
    grace: u64,
) -> bool {
    &&& 0 <= at < events.len()
    &&& events[at].0 == RaceEvent::Reported(BuiltInSource::Production, Ok(probe))
    &&& forall|i: int|
        0 <= i < at ==> !is_report_of(#[trigger] events[i], BuiltInSource::Production) && !(
        events[i].0 is Disconnected)
    &&& forall|first: int| #[trigger]
        first_success_at(events, first) && first < at ==> events[at].1 < events[first].1 + grace
            <= u64::MAX
}

proof fn lemma_race_waits_for_production<T>(
    events: Seq<(RaceEvent<T>, u64)>,
    at: int,
    probe: T,
    grace: u64,
    handled: int,
)
    requires
        production_answers_in_time(events, at, probe, grace),
        times_ascend(events),
        timeouts_are_due(events, grace),
        0 <= handled <= at,
    ensures
        race_after(events.take(handled), grace) is Wait,
    decreases handled,
{
    if handled > 0 {
        let before = events.take(handled - 1);
        let event = events[handled - 1];
        lemma_race_waits_for_production(events, at, probe, grace, handled - 1);
        lemma_waiting_race_remembers(before, grace);
        lemma_latest_failure_is_reported(before, BuiltInSource::Production);
        let race = race_after(before, grace)->Wait_0;
        assert(events.take(handled).drop_last() =~= before);
        assert(events.take(handled).last() == event);
        assert(forall|i: int| 0 <= i < before.len() ==> before[i] == events[i]);
        assert(race.production_error is None) by {
            if race.production_error is Some {
                let i = choose|i: int|
                    0 <= i < before.len() && is_failure_of(
                        #[trigger] before[i],
                        BuiltInSource::Production,
                    );
                assert(is_report_of(events[i], BuiltInSource::Production));
            }
        }
        assert(!is_report_of(event, BuiltInSource::Production));
        if event.0 is TimedOut {
            let (source, answer) = race.fallback->0;
            let first = choose|first: int|
                #[trigger] first_success_at(before, first) && before[first].0
                    == RaceEvent::Reported(source, Ok(answer)) && race.deadline == Some(
                    (before[first].1 + grace) as u64,
                );
            assert(first_success_at(events, first));
            assert(events[handled - 1].1 <= events[at].1);
            assert(false);
        }
    }
}

proof fn lemma_decision_stands<T>(events: Seq<(RaceEvent<T>, u64)>, handled: int, grace: u64)
    requires
        0 <= handled <= events.len(),
        race_after(events.take(handled), grace) is Finish,
    ensures
        race_after(events, grace) == race_after(events.take(handled), grace),
    decreases events.len() - handled,
{
    if handled < events.len() {
        assert(events.take(handled + 1).drop_last() =~= events.take(handled));
        lemma_decision_stands(events, handled + 1, grace);
    } else {
        assert(events.take(handled) =~= events);
    }
}

/// Production beats a pinned mirror that answered first, as long as it reports
/// in within the grace window: a pure speed race never decides against it.
pub proof fn law_production_wins_within_the_grace_window<T>(
    events: Seq<(RaceEvent<T>, u64)>,
    at: int,
    probe: T,
    grace: u64,
)
    requires
        production_answers_in_time(events, at, probe, grace),
        times_ascend(events),
        timeouts_are_due(events, grace),
    ensures
        race_after(events, grace) == RaceStep::Finish(
            RaceOutcome::Use(BuiltInSource::Production, probe),
        ),
{
    lemma_race_waits_for_production(events, at, probe, grace, at);
    assert(events.take(at + 1).drop_last() =~= events.take(at));
    assert(events.take(at + 1).last() == events[at]);
    lemma_decision_stands(events, at + 1, grace);
}

/// The winner is a source that reported success, with what it reported.
pub proof fn law_winner_reported_its_probe<T>(
    events: Seq<(RaceEvent<T>, u64)>,
    source: BuiltInSource,
    probe: T,
    grace: u64,
)
    requires
        race_after(events, grace) == RaceStep::Finish(RaceOutcome::Use(source, probe)),
    ensures
        exists|i: int|
            0 <= i < events.len() && (#[trigger] events[i]).0 == RaceEvent::Reported(
                source,
                Ok(probe),
            ),
    decreases events.len(),
{
    let before = events.drop_last();
    assert(forall|i: int| 0 <= i < before.len() ==> before[i] == events[i]);
    assert(events[events.len() - 1] == events.last());
    if race_after(before, grace) is Finish {
        law_winner_reported_its_probe(before, source, probe, grace);
        let i = choose|i: int|
            0 <= i < before.len() && (#[trigger] before[i]).0 == RaceEvent::Reported(
                source,
                Ok(probe),
            );
        assert(events[i].0 == RaceEvent::Reported(source, Ok(probe)));
    } else {
        lemma_waiting_race_remembers(before, grace);
        if events.last().0 != RaceEvent::Reported(source, Ok(probe)) {
            let race = race_after(before, grace)->Wait_0;
            assert(race.fallback == Some((source, probe)));
            let at = choose|at: int|
                #[trigger] first_success_at(before, at) && before[at].0 == RaceEvent::Reported(
                    source,
                    Ok(probe),
                ) && race.deadline == Some((before[at].1 + grace) as u64);
            assert(events[at].0 == RaceEvent::Reported(source, Ok(probe)));
        }
    }
}

/// A pinned mirror wins only where Production failed, the grace window
/// passed, or the probes went away.
pub proof fn law_pinned_mirror_wins_only_without_production<T>(
    events: Seq<(RaceEvent<T>, u64)>,
    source: BuiltInSource,
    probe: T,
    grace: u64,
)
    requires
        race_after(events, grace) == RaceStep::Finish(RaceOutcome::Use(source, probe)),
        source != BuiltInSource::Production,
    ensures
        exists|i: int| 0 <= i < events.len() && gives_up_on_production(#[trigger] events[i]),
    decreases events.len(),
{
    let before = events.drop_last();
    assert(forall|i: int| 0 <= i < before.len() ==> before[i] == events[i]);
    assert(events[events.len() - 1] == events.last());
    if race_after(before, grace) is Finish {
        law_pinned_mirror_wins_only_without_production(before, source, probe, grace);
        let i = choose|i: int| 0 <= i < before.len() && gives_up_on_production(#[trigger] before[i]);
        assert(gives_up_on_production(events[i]));
    } else {
        lemma_waiting_race_remembers(before, grace);
        lemma_latest_failure_is_reported(before, BuiltInSource::Production);
        if !gives_up_on_production(events[events.len() - 1]) {
            let i = choose|i: int|
                0 <= i < before.len() && is_failure_of(
                    #[trigger] before[i],
                    BuiltInSource::Production,
                );
            assert(gives_up_on_production(events[i]));
        }
    }
}

/// A pinned mirror that wins is the source that answered first.
pub proof fn law_pinned_winner_answered_first<T>(
    events: Seq<(RaceEvent<T>, u64)>,
    source: BuiltInSource,
    probe: T,
    grace: u64,
)
    requires
        race_after(events, grace) == RaceStep::Finish(RaceOutcome::Use(source, probe)),
        source != BuiltInSource::Production,
    ensures
        exists|at: int| #[trigger]
            first_success_at(events, at) && events[at].0 == RaceEvent::Reported(source, Ok(probe)),
    decreases events.len(),
{
    let before = events.drop_last();
    let last = events.len() - 1;
    assert(forall|i: int| 0 <= i < before.len() ==> before[i] == events[i]);
    assert(events[last] == events.last());
    if race_after(before, grace) is Finish {
        law_pinned_winner_answered_first(before, source, probe, grace);
        let at = choose|at: int| #[trigger]
            first_success_at(before, at) && before[at].0 == RaceEvent::Reported(source, Ok(probe));
        assert(first_success_at(events, at));
    } else {
        lemma_waiting_race_remembers(before, grace);
        let race = race_after(before, grace)->Wait_0;
        if race.fallback is Some {
            let at = choose|at: int|
                #[trigger] first_success_at(before, at) && before[at].0 == RaceEvent::Reported(
                    source,
                    Ok(probe),
                ) && race.deadline == Some((before[at].1 + grace) as u64);
            assert(first_success_at(events, at));
        } else {
            assert(first_success_at(events, last));
        }
    }
}

/// No answer is lost: where the race ends without a winner, no probe had
/// succeeded.
pub proof fn law_no_answer_is_lost<T>(events: Seq<(RaceEvent<T>, u64)>, grace: u64)
    requires
        decided_by_last(events, grace),
        !(race_after(events, grace)->Finish_0 is Use),
    ensures
        forall|i: int| 0 <= i < events.len() ==> !is_success(#[trigger] events[i]),
{
    let before = events.drop_last();
    lemma_waiting_race_remembers(before, grace);
    assert(events[events.len() - 1] == events.last());
    assert forall|i: int| 0 <= i < events.len() implies !is_success(#[trigger] events[i]) by {
        if i < before.len() {
            assert(before[i] == events[i]);
        }
    }
}

/// Where every source failed, the outcome holds the last error of each.
pub proof fn law_all_failed_names_each_error<T>(events: Seq<(RaceEvent<T>, u64)>, grace: u64)
    requires
        decided_by_last(events, grace),
        race_after(events, grace)->Finish_0 is AllFailed,
    ensures
        race_after(events, grace) matches RaceStep::Finish(
            RaceOutcome::AllFailed { production, pages, jsdelivr },
        ) && latest_failure(events, BuiltInSource::Production) == Some(*production)
            && latest_failure(events, BuiltInSource::Pages) == Some(*pages) && latest_failure(
            events,
            BuiltInSource::JsDelivr,
        ) == Some(*jsdelivr),
{
    lemma_waiting_race_remembers(events.drop_last(), grace);
}

/// The race is over once each of the three sources has reported.
pub proof fn law_race_ends_once_all_have_reported<T>(
    events: Seq<(RaceEvent<T>, u64)>,
    grace: u64,
)
    requires
        forall|source: BuiltInSource| has_reported(events, source),
    ensures
        race_after(events, grace) is Finish,
{
    if race_after(events, grace) is Wait {
        let race = race_after(events, grace)->Wait_0;
        lemma_waiting_race_remembers(events, grace);
        let source = BuiltInSource::Production;
        assert(has_reported(events, source));
        let p = choose|i: int| 0 <= i < events.len() && #[trigger] is_report_of(events[i], source);
        assert(events[p].0 is Reported);
        assert(is_failure_of(events[p], source));
        lemma_latest_failure_is_reported(events, source);
        assert(race.fallback is None);
        let pages = BuiltInSource::Pages;
        assert(has_reported(events, pages));
        let g = choose|i: int| 0 <= i < events.len() && #[trigger] is_report_of(events[i], pages);
        assert(!is_success(events[g]));
        assert(is_failure_of(events[g], pages));
        lemma_latest_failure_is_reported(events, pages);
        let jsdelivr = BuiltInSource::JsDelivr;
        assert(has_reported(events, jsdelivr));
        let j = choose|i: int|
            0 <= i < events.len() && #[trigger] is_report_of(events[i], jsdelivr);
        assert(!is_success(events[j]));
        assert(is_failure_of(events[j], jsdelivr));
        lemma_latest_failure_is_reported(events, jsdelivr);
    }
}

/// The grace window opens with the first pinned answer and is never extended:
/// the deadline of a waiting race is that answer's time plus the grace, and
/// there is none before any answer.
pub proof fn law_grace_runs_from_the_first_answer<T>(
    events: Seq<(RaceEvent<T>, u64)>,
    grace: u64,
)
    requires
        race_after(events, grace) is Wait,
    ensures
        race_after(events, grace)->Wait_0.deadline matches Some(deadline) ==> exists|at: int|
            #[trigger] first_success_at(events, at) && deadline == (events[at].1 + grace) as u64,
        race_after(events, grace)->Wait_0.deadline is None ==> forall|i: int|
            0 <= i < events.len() ==> !is_success(#[trigger] events[i]),
{
    lemma_waiting_race_remembers(events, grace);
}

/// The event is a successful probe of `source`.
pub open spec fn is_success_of<T>(event: (RaceEvent<T>, u64), source: BuiltInSource) -> bool {
    event.0 matches RaceEvent::Reported(reporter, Ok(_)) && reporter == source
}

/// Some probe has succeeded.
pub open spec fn any_success<T>(events: Seq<(RaceEvent<T>, u64)>) -> bool {
    exists|i: int| 0 <= i < events.len() && is_success(#[trigger] events[i])
}

/// A probe of `source` has succeeded.
pub open spec fn has_succeeded<T>(
    events: Seq<(RaceEvent<T>, u64)>,
    source: BuiltInSource,
) -> bool {
    exists|i: int| 0 <= i < events.len() && #[trigger] is_success_of(events[i], source)
}

/// A probe of `source` has failed.
pub open spec fn has_failed<T>(events: Seq<(RaceEvent<T>, u64)>, source: BuiltInSource) -> bool {
    exists|i: int| 0 <= i < events.len() && #[trigger] is_failure_of(events[i], source)
}

/// Nothing but reports has come.
pub open spec fn reports_only<T>(events: Seq<(RaceEvent<T>, u64)>) -> bool {
    forall|i: int| 0 <= i < events.len() ==> (#[trigger] events[i]).0 is Reported
}

/// Each source has one probe, which reports at most once.
pub open spec fn reports_once_each<T>(events: Seq<(RaceEvent<T>, u64)>) -> bool {
    forall|i: int, j: int, source: BuiltInSource|
        0 <= i < j < events.len() && #[trigger] is_report_of(events[i], source)
            ==> !#[trigger] is_report_of(events[j], source)
}

proof fn lemma_prefix_has_less<T>(events: Seq<(RaceEvent<T>, u64)>, source: BuiltInSource)
    requires
        events.len() > 0,
    ensures
        any_success(events.drop_last()) ==> any_success(events),
        has_succeeded(events.drop_last(), source) ==> has_succeeded(events, source),
        has_failed(events.drop_last(), source) ==> has_failed(events, source),
        reports_only(events) ==> reports_only(events.drop_last()),
        is_success(events.last()) ==> any_success(events),
        is_success_of(events.last(), source) ==> has_succeeded(events, source),
        is_failure_of(events.last(), source) ==> has_failed(events, source),
{
    let before = events.drop_last();
    let last = events.len() - 1;
    assert(events[last] == events.last());
    assert(forall|i: int| 0 <= i < before.len() ==> before[i] == events[i]);
    if any_success(before) {
        let i = choose|i: int| 0 <= i < before.len() && is_success(#[trigger] before[i]);
        assert(is_success(events[i]));
    }
    if has_succeeded(before, source) {
        let i = choose|i: int|
            0 <= i < before.len() && #[trigger] is_success_of(before[i], source);
        assert(is_success_of(events[i], source));
    }
    if has_failed(before, source) {
        let i = choose|i: int|
            0 <= i < before.len() && #[trigger] is_failure_of(before[i], source);
        assert(is_failure_of(events[i], source));
    }
    if is_success(events.last()) {
        assert(is_success(events[last]));
    }
}

proof fn lemma_failure_is_remembered<T>(
    events: Seq<(RaceEvent<T>, u64)>,
    source: BuiltInSource,
)
    ensures
        latest_failure(events, source) is Some <==> has_failed(events, source),
{
    lemma_latest_failure_is_reported(events, source);
    if has_failed(events, source) {
        let i = choose|i: int|
            0 <= i < events.len() && #[trigger] is_failure_of(events[i], source);
        assert(is_failure_of(events[i], source));
    }
    if latest_failure(events, source) is Some {
        let i = choose|i: int|
            0 <= i < events.len() && is_failure_of(#[trigger] events[i], source);
        assert(is_failure_of(events[i], source));
    }
}

proof fn lemma_undecided_race_waits<T>(events: Seq<(RaceEvent<T>, u64)>, grace: u64)
    requires
        reports_only(events),
        !has_succeeded(events, BuiltInSource::Production),
        !(has_failed(events, BuiltInSource::Production) && any_success(events)),
        !(has_failed(events, BuiltInSource::Production) && has_failed(events, BuiltInSource::Pages)
            && has_failed(events, BuiltInSource::JsDelivr)),
    ensures
        race_after(events, grace) is Wait,
    decreases events.len(),
{
    if events.len() > 0 {
        let before = events.drop_last();
        let last = events.len() - 1;
        lemma_prefix_has_less(events, BuiltInSource::Production);
        lemma_prefix_has_less(events, BuiltInSource::Pages);
        lemma_prefix_has_less(events, BuiltInSource::JsDelivr);
        lemma_undecided_race_waits(before, grace);
        lemma_waiting_race_remembers(before, grace);
        lemma_failure_is_remembered(before, BuiltInSource::Production);
        lemma_failure_is_remembered(before, BuiltInSource::Pages);
        lemma_failure_is_remembered(before, BuiltInSource::JsDelivr);
        assert(events[last].0 is Reported);
        let race = race_after(before, grace)->Wait_0;
        if race.fallback is Some {
            let (source, probe) = race.fallback->0;
            let at = choose|at: int|
                #[trigger] first_success_at(before, at) && before[at].0 == RaceEvent::Reported(
                    source,
                    Ok(probe),
                ) && race.deadline == Some((before[at].1 + grace) as u64);
            assert(is_success(before[at]));
            assert(any_success(before));
        }
    }
}

/// While nothing but reports comes, a race goes on exactly as long as
/// Production has not succeeded, Production has not failed beside some
/// success, and the three sources have not all failed.
pub proof fn law_race_goes_on_until_the_reports_decide<T>(
    events: Seq<(RaceEvent<T>, u64)>,
    grace: u64,
)
    requires
        reports_only(events),
    ensures
        race_after(events, grace) is Wait <==> {
            &&& !has_succeeded(events, BuiltInSource::Production)
            &&& !(has_failed(events, BuiltInSource::Production) && any_success(events))
            &&& !(has_failed(events, BuiltInSource::Production) && has_failed(
                events,
                BuiltInSource::Pages,
            ) && has_failed(events, BuiltInSource::JsDelivr))
        },
{
    if race_after(events, grace) is Wait {
        lemma_waiting_race_remembers(events, grace);
        lemma_failure_is_remembered(events, BuiltInSource::Production);
        lemma_failure_is_remembered(events, BuiltInSource::Pages);
        lemma_failure_is_remembered(events, BuiltInSource::JsDelivr);
        if has_succeeded(events, BuiltInSource::Production) {
            let i = choose|i: int|
                0 <= i < events.len() && #[trigger] is_success_of(
                    events[i],
                    BuiltInSource::Production,
                );
            assert(is_report_of(events[i], BuiltInSource::Production));
        }
    }
    if !has_succeeded(events, BuiltInSource::Production) && !(has_failed(
        events,
        BuiltInSource::Production,
    ) && any_success(events)) && !(has_failed(events, BuiltInSource::Production) && has_failed(
        events,
        BuiltInSource::Pages,
    ) && has_failed(events, BuiltInSource::JsDelivr)) {
        lemma_undecided_race_waits(events, grace);
    }
}

/// While no probe has succeeded and some source has not reported, the race is
/// still waiting: failures alone decide nothing before each of the three
/// sources has failed.
pub proof fn law_race_waits_while_a_source_is_outstanding<T>(
    events: Seq<(RaceEvent<T>, u64)>,
    outstanding: BuiltInSource,
    grace: u64,
)
    requires
        reports_only(events),
        !any_success(events),
        !has_reported(events, outstanding),
    ensures
        race_after(events, grace) is Wait,
{
    if has_succeeded(events, BuiltInSource::Production) {
        let i = choose|i: int|
            0 <= i < events.len() && #[trigger] is_success_of(
                events[i],
                BuiltInSource::Production,
            );
        assert(is_success(events[i]));
    }
    if has_failed(events, outstanding) {
        let i = choose|i: int|
            0 <= i < events.len() && #[trigger] is_failure_of(events[i], outstanding);
        assert(is_report_of(events[i], outstanding));
    }
    law_race_goes_on_until_the_reports_decide(events, grace);
}

/// What a decided race comes to, by its reports and the event that decided
/// it. Production's success is used; so is a pinned mirror's where it decides,
/// and Production has then failed before. Any other event that decides brings
/// the first success, if there was one. Without any success a report decides
/// only as the last of three failures, and is answered with the latest error
/// of each source; a passed deadline or lost probes are an interruption.
pub proof fn law_outcome_follows_from_the_reports<T>(
    events: Seq<(RaceEvent<T>, u64)>,
    grace: u64,
)
    requires
        decided_by_last(events, grace),
    ensures
        events.last().0 matches RaceEvent::Reported(source, Ok(probe)) ==> race_after(events, grace)
            == RaceStep::Finish(RaceOutcome::Use(source, probe)) && (source
            == BuiltInSource::Production || has_failed(events, BuiltInSource::Production)),
        forall|at: int|
            #![trigger first_success_at(events, at)]
            first_success_at(events, at) && !is_success(events.last()) ==> (events[at].0 matches
                RaceEvent::Reported(source, Ok(probe)) && race_after(events, grace)
                == RaceStep::Finish(RaceOutcome::Use(source, probe))),
        !any_success(events) && events.last().0 is Reported ==> (race_after(events, grace) matches
            RaceStep::Finish(RaceOutcome::AllFailed { production, pages, jsdelivr })
            && latest_failure(events, BuiltInSource::Production) == Some(*production)
            && latest_failure(events, BuiltInSource::Pages) == Some(*pages) && latest_failure(
            events,
            BuiltInSource::JsDelivr,
        ) == Some(*jsdelivr)),
        !any_success(events) && !(events.last().0 is Reported) ==> race_after(events, grace)
            == RaceStep::Finish(RaceOutcome::<T>::Interrupted),
{
    let before = events.drop_last();
    let last = events.len() - 1;
    let race = race_after(before, grace)->Wait_0;
    lemma_waiting_race_remembers(before, grace);
    lemma_failure_is_remembered(before, BuiltInSource::Production);
    lemma_prefix_has_less(events, BuiltInSource::Production);
    assert(events[last] == events.last());
    assert(forall|i: int| 0 <= i < before.len() ==> before[i] == events[i]);
    assert forall|at: int|
        #![trigger first_success_at(events, at)]
        first_success_at(events, at) && !is_success(events.last()) implies (events[at].0 matches
        RaceEvent::Reported(source, Ok(probe)) && race_after(events, grace) == RaceStep::Finish(
        RaceOutcome::Use(source, probe),
    )) by {
        assert(is_success(before[at]));
        let (source, probe) = race.fallback->0;
        let first = choose|first: int|
            #[trigger] first_success_at(before, first) && before[first].0 == RaceEvent::Reported(
                source,
                Ok(probe),
            ) && race.deadline == Some((before[first].1 + grace) as u64);
        assert(is_success(events[first]));
        assert(first == at);
    }
    if race.fallback is Some {
        let (source, probe) = race.fallback->0;
        let first = choose|first: int|
            #[trigger] first_success_at(before, first) && before[first].0 == RaceEvent::Reported(
                source,
                Ok(probe),
            ) && race.deadline == Some((before[first].1 + grace) as u64);
        assert(is_success(events[first]));
        assert(any_success(events));
    }
}

/// A race does not outlast its deadline or its probes: once a wait times out
/// or no probe is left, it is decided.
pub proof fn law_race_ends_with_the_wait<T>(
    events: Seq<(RaceEvent<T>, u64)>,
    now: u64,
    grace: u64,
)
    ensures
        race_after(events.push((RaceEvent::TimedOut, now)), grace) is Finish,
        race_after(events.push((RaceEvent::Disconnected, now)), grace) is Finish,
{
    assert(events.push((RaceEvent::TimedOut, now)).drop_last() =~= events);
    assert(events.push((RaceEvent::Disconnected, now)).drop_last() =~= events);
}

/// Where a decided race was decided.
proof fn lemma_decision_has_a_place<T>(events: Seq<(RaceEvent<T>, u64)>, grace: u64) -> (at: int)
    requires
        race_after(events, grace) is Finish,
    ensures
        0 < at <= events.len(),
        decided_by_last(events.take(at), grace),
        race_after(events, grace) == race_after(events.take(at), grace),
    decreases events.len(),
{
    let before = events.drop_last();
    assert(events.take(events.len() as int) =~= events);
    if race_after(before, grace) is Wait {
        events.len() as int
    } else {
        let at = lemma_decision_has_a_place(before, grace);
        assert(before.take(at) =~= events.take(at));
        at
    }
}

/// Where some probe succeeds, the race that runs to its end is won: with one
/// report of each source at most, no failure and no loss of the probes keeps
/// an answer from being used.
pub proof fn law_an_answer_wins_once_the_probes_end<T>(
    events: Seq<(RaceEvent<T>, u64)>,
    now: u64,
    grace: u64,
)
    requires
        reports_only(events),
        reports_once_each(events),
        any_success(events),
    ensures
        race_after(events.push((RaceEvent::Disconnected, now)), grace) matches RaceStep::Finish(
            RaceOutcome::Use(_, _),
        ),
        race_after(events.push((RaceEvent::TimedOut, now)), grace) matches RaceStep::Finish(
            RaceOutcome::Use(_, _),
        ),
{
    assert(events.push((RaceEvent::TimedOut, now)).drop_last() =~= events);
    assert(events.push((RaceEvent::Disconnected, now)).drop_last() =~= events);
    let success = choose|i: int| 0 <= i < events.len() && is_success(#[trigger] events[i]);
    if race_after(events, grace) is Wait {
        lemma_waiting_race_remembers(events, grace);
        assert(is_success(events[success]));
    } else {
        let at = lemma_decision_has_a_place(events, grace);
        let handled = events.take(at);
        assert(forall|i: int| 0 <= i < handled.len() ==> handled[i] == events[i]);
        if !(race_after(handled, grace)->Finish_0 is Use) {
            law_no_answer_is_lost(handled, grace);
            if success < at {
                assert(is_success(handled[success]));
            }
            assert(events[success].0 is Reported);
            let source = events[success].0->Reported_0;
            assert(handled.last() == events[at - 1]);
            assert(events[at - 1].0 is Reported);
            assert(!any_success(handled));
            law_outcome_follows_from_the_reports(handled, grace);
            lemma_failure_is_remembered(handled, source);
            let failure = choose|i: int|
                0 <= i < handled.len() && #[trigger] is_failure_of(handled[i], source);
            assert(is_report_of(events[failure], source));
            assert(is_report_of(events[success], source));
        }
    }
}

/// Handing what came of each wait to [`race_sources`], from
/// [`SourceRace::new`] on, leads through the history: a waiting race that is
/// handed one more event stands where the longer history stands. It can be
/// handed any event, provided that the deadline which a pinned mirror's
/// success may set fits the clock.
pub proof fn law_calls_follow_the_history<T>(
    events: Seq<(RaceEvent<T>, u64)>,
    race: SourceRace<T>,
    event: RaceEvent<T>,
    now: u64,
    grace: u64,
    begun: SourceRace<T>,
    step: RaceStep<T>,
)
    requires
        race_after(events, grace) == RaceStep::Wait(race),
        call_ensures(SourceRace::<T>::new, (), begun),
        call_ensures(race_sources::<T>, (race, event, now, grace), step),
    ensures
        race_after(Seq::<(RaceEvent<T>, u64)>::empty(), grace) == RaceStep::Wait(begun),
        race_after(events.push((event, now)), grace) == step,
        !is_success((event, now)) || is_success_of((event, now), BuiltInSource::Production) || now
            + grace <= u64::MAX ==> call_requires(race_sources::<T>, (race, event, now, grace)),
{
    assert(events.push((event, now)).drop_last() =~= events);
}

/// How long a waiting race waits for the next report: without end before any
/// answer, and after the first one until that answer's grace is over, at once
/// where it is.
pub proof fn law_wait_ends_with_the_grace<T>(
    events: Seq<(RaceEvent<T>, u64)>,
    race: SourceRace<T>,
    now: u64,
    grace: u64,
    limit: Option<u64>,
)
    requires
        race_after(events, grace) == RaceStep::Wait(race),
        call_ensures(SourceRace::<T>::wait_limit, (&race, now), limit),
    ensures
        limit is None <==> !any_success(events),
        forall|at: int|
            #![trigger first_success_at(events, at)]
            first_success_at(events, at) && events[at].1 + grace <= u64::MAX ==> (limit matches
                Some(rest) && now + rest == if now <= events[at].1 + grace {
                events[at].1 + grace
            } else {
                now as int
            }),
{
    lemma_waiting_race_remembers(events, grace);
    if race.fallback is Some {
        let (source, probe) = race.fallback->0;
        let first = choose|first: int|
            #[trigger] first_success_at(events, first) && events[first].0 == RaceEvent::Reported(
                source,
                Ok(probe),
            ) && race.deadline == Some((events[first].1 + grace) as u64);
        assert(is_success(events[first]));
        assert(any_success(events));
        assert forall|at: int|
            #![trigger first_success_at(events, at)]
            first_success_at(events, at) && events[at].1 + grace <= u64::MAX implies (
        limit matches Some(rest) && now + rest == if now <= events[at].1 + grace {
            events[at].1 + grace
        } else {
            now as int
        }) by {
            assert(is_success(events[at]));
            assert(at == first);
        }
    } else {
        assert forall|at: int| #![trigger first_success_at(events, at)] first_success_at(
            events,
            at,
        ) implies false by {
            assert(is_success(events[at]));
        }
    }
}

} // verus!
