//! What holds of a whole `diag mouse-buttons` run, whatever the device does.

use vstd::prelude::*;

use super::diag::{
    DiagError, DiagEvent, DiagNext, DiagRequest, DiagStep, MouseButtonsArgs, MouseButtonsRun, Phase,
    StopCause, Task,
};
use super::mouse_button_spy::MouseButtonSpyEvent;

verus! {

/// The events carry the run to its end, each one awaited when it comes.
pub open spec fn completes<R: Copy, E>(run: MouseButtonsRun<R, E>, events: Seq<DiagEvent<R, E>>) -> bool
    decreases events.len(),
{
    &&& events.len() > 0
    &&& run.awaits(events[0])
    &&& match run.next(events[0]) {
        DiagNext::Finished(_) => events.len() == 1,
        DiagNext::Ask(later, _) => completes(later, events.drop_first()),
    }
}

/// What the run asks for, in order, as it handles the events.
pub open spec fn requests<R: Copy, E>(
    run: MouseButtonsRun<R, E>,
    events: Seq<DiagEvent<R, E>>,
) -> Seq<DiagRequest<R>>
    decreases events.len(),
{
    if events.len() == 0 {
        Seq::empty()
    } else {
        match run.next(events[0]) {
            DiagNext::Finished(_) => Seq::empty(),
            DiagNext::Ask(later, request) => seq![request] + requests(later, events.drop_first()),
        }
    }
}

/// How a run ends that the events carry to its end.
pub open spec fn ending<R: Copy, E>(
    run: MouseButtonsRun<R, E>,
    events: Seq<DiagEvent<R, E>>,
) -> Result<(), DiagError<E>>
    decreases events.len(),
{
    if events.len() == 0 {
        Ok(())
    } else {
        match run.next(events[0]) {
            DiagNext::Finished(result) => result,
            DiagNext::Ask(later, _) => ending(later, events.drop_first()),
        }
    }
}

/// The event tells of a failure that a run does not get over.
pub open spec fn is_failure<R: Copy, E>(event: DiagEvent<R, E>) -> bool {
    event is SelectFailed || event is SpyOpenFailed || event is StartFailed || event is StopFailed
}

proof fn lemma_stop_follows_start<R: Copy, E>(run: MouseButtonsRun<R, E>, events: Seq<DiagEvent<R, E>>)
    requires
        completes(run, events),
    ensures
        run.is_at(Task::Starting) || run.is_at(Task::Streaming) ==> exists|j: int|
            0 <= j < requests(run, events).len() && (#[trigger] requests(run, events)[j])
                is StopReporting,
        forall|i: int|
            0 <= i < requests(run, events).len() && (#[trigger] requests(run, events)[i])
                is StartReporting ==> exists|j: int|
                i < j < requests(run, events).len() && (#[trigger] requests(run, events)[j])
                    is StopReporting,
    decreases events.len(),
{
    match run.next(events[0]) {
        DiagNext::Finished(_) => {},
        DiagNext::Ask(later, request) => {
            let rest = requests(later, events.drop_first());
            let all = requests(run, events);
            lemma_stop_follows_start(later, events.drop_first());
            assert(all =~= seq![request] + rest);
            assert(forall|k: int| 0 <= k < rest.len() ==> rest[k] == all[k + 1]);
            if exists|j: int| 0 <= j < rest.len() && (#[trigger] rest[j]) is StopReporting {
                let j = choose|j: int| 0 <= j < rest.len() && (#[trigger] rest[j]) is StopReporting;
                assert(all[j + 1] is StopReporting);
            }
            if run.is_at(Task::Starting) || run.is_at(Task::Streaming) {
                if request is StopReporting {
                    assert(all[0] is StopReporting);
                }
            }
            assert forall|i: int|
                0 <= i < all.len() && (#[trigger] all[i]) is StartReporting implies exists|j: int|
                i < j < all.len() && (#[trigger] all[j]) is StopReporting by {
                if i > 0 {
                    assert(rest[i - 1] is StartReporting);
                    let j = choose|j: int|
                        i - 1 < j < rest.len() && (#[trigger] rest[j]) is StopReporting;
                    assert(all[j + 1] is StopReporting);
                }
            }
        },
    }
}

/// A spy that a run asks to start is asked to stop before the run ends, on
/// every path: whether the user ends the watch, the stream breaks off or
/// starting itself fails.
pub proof fn law_started_spy_is_stopped<R: Copy, E>(
    watch: bool,
    stop: bool,
    events: Seq<DiagEvent<R, E>>,
    at: int,
)
    requires
        completes(MouseButtonsRun::<R, E>::fresh(watch, stop), events),
        0 <= at < requests(MouseButtonsRun::<R, E>::fresh(watch, stop), events).len(),
        requests(MouseButtonsRun::<R, E>::fresh(watch, stop), events)[at] is StartReporting,
    ensures
        exists|j: int|
            at < j < requests(MouseButtonsRun::<R, E>::fresh(watch, stop), events).len() && (
            #[trigger] requests(MouseButtonsRun::<R, E>::fresh(watch, stop), events)[j]) is StopReporting,
{
    lemma_stop_follows_start(MouseButtonsRun::<R, E>::fresh(watch, stop), events);
}

proof fn lemma_listen_precedes_start<R: Copy, E>(run: MouseButtonsRun<R, E>, events: Seq<DiagEvent<R, E>>)
    requires
        completes(run, events),
    ensures
        forall|i: int|
            0 <= i < requests(run, events).len() && (#[trigger] requests(run, events)[i])
                is StartReporting ==> (i == 0 && run.is_at(Task::Listening)) || (i > 0 && requests(
                run,
                events,
            )[i - 1] is Listen),
    decreases events.len(),
{
    match run.next(events[0]) {
        DiagNext::Finished(_) => {},
        DiagNext::Ask(later, request) => {
            let rest = requests(later, events.drop_first());
            let all = requests(run, events);
            lemma_listen_precedes_start(later, events.drop_first());
            assert(all =~= seq![request] + rest);
            assert forall|i: int|
                0 <= i < all.len() && (#[trigger] all[i]) is StartReporting implies (i == 0
                && run.is_at(Task::Listening)) || (i > 0 && all[i - 1] is Listen) by {
                if i > 0 {
                    assert(rest[i - 1] is StartReporting);
                }
            }
        },
    }
}

/// The receiver is registered right before the spy is started, so no event
/// falls in between.
pub proof fn law_receiver_is_registered_before_the_start<R: Copy, E>(
    watch: bool,
    stop: bool,
    events: Seq<DiagEvent<R, E>>,
    at: int,
)
    requires
        completes(MouseButtonsRun::<R, E>::fresh(watch, stop), events),
        0 <= at < requests(MouseButtonsRun::<R, E>::fresh(watch, stop), events).len(),
        requests(MouseButtonsRun::<R, E>::fresh(watch, stop), events)[at] is StartReporting,
    ensures
        at > 0,
        requests(MouseButtonsRun::<R, E>::fresh(watch, stop), events)[at - 1] is Listen,
{
    lemma_listen_precedes_start(MouseButtonsRun::<R, E>::fresh(watch, stop), events);
}

proof fn lemma_stop_only_requests<R: Copy, E>(run: MouseButtonsRun<R, E>, events: Seq<DiagEvent<R, E>>)
    requires
        completes(run, events),
        run.stop,
        run.phase is Selecting || run.is_at(Task::Opening) || run.is_at(
            Task::Stopping(StopCause::Recovery),
        ),
    ensures
        forall|i: int|
            0 <= i < requests(run, events).len() ==> (#[trigger] requests(run, events)[i])
                is OpenSpy || requests(run, events)[i] is StopReporting,
    decreases events.len(),
{
    match run.next(events[0]) {
        DiagNext::Finished(_) => {},
        DiagNext::Ask(later, request) => {
            let rest = requests(later, events.drop_first());
            let all = requests(run, events);
            lemma_stop_only_requests(later, events.drop_first());
            assert(all =~= seq![request] + rest);
            assert forall|i: int| 0 <= i < all.len() implies (#[trigger] all[i]) is OpenSpy
                || all[i] is StopReporting by {
                if i > 0 {
                    assert(rest[i - 1] is OpenSpy || rest[i - 1] is StopReporting);
                }
            }
        },
    }
}

/// `--stop` opens the spy and stops it, and starts or reads nothing.
pub proof fn law_stop_starts_and_reads_nothing<R: Copy, E>(
    watch: bool,
    events: Seq<DiagEvent<R, E>>,
    at: int,
)
    requires
        completes(MouseButtonsRun::<R, E>::fresh(watch, true), events),
        0 <= at < requests(MouseButtonsRun::<R, E>::fresh(watch, true), events).len(),
    ensures
        requests(MouseButtonsRun::<R, E>::fresh(watch, true), events)[at] is OpenSpy || requests(
            MouseButtonsRun::<R, E>::fresh(watch, true),
            events,
        )[at] is StopReporting,
{
    lemma_stop_only_requests(MouseButtonsRun::<R, E>::fresh(watch, true), events);
}

proof fn lemma_one_shot_requests<R: Copy, E>(run: MouseButtonsRun<R, E>, events: Seq<DiagEvent<R, E>>)
    requires
        completes(run, events),
        !run.stop,
        !run.watch,
        run.phase is Selecting || run.is_at(Task::ReadingProfiles) || run.is_at(
            Task::ReadingButtonCount,
        ),
    ensures
        forall|i: int|
            0 <= i < requests(run, events).len() ==> (#[trigger] requests(run, events)[i])
                is ReadOnboardProfiles || requests(run, events)[i] is ReadButtonCount,
    decreases events.len(),
{
    match run.next(events[0]) {
        DiagNext::Finished(_) => {},
        DiagNext::Ask(later, request) => {
            let rest = requests(later, events.drop_first());
            let all = requests(run, events);
            lemma_one_shot_requests(later, events.drop_first());
            assert(all =~= seq![request] + rest);
            assert forall|i: int| 0 <= i < all.len() implies (#[trigger] all[i])
                is ReadOnboardProfiles || all[i] is ReadButtonCount by {
                if i > 0 {
                    assert(rest[i - 1] is ReadOnboardProfiles || rest[i - 1] is ReadButtonCount);
                }
            }
        },
    }
}

/// Without `--watch` and `--stop` a run only reads: the spy is not touched.
pub proof fn law_one_shot_run_only_reads<R: Copy, E>(events: Seq<DiagEvent<R, E>>, at: int)
    requires
        completes(MouseButtonsRun::<R, E>::fresh(false, false), events),
        0 <= at < requests(MouseButtonsRun::<R, E>::fresh(false, false), events).len(),
    ensures
        requests(MouseButtonsRun::<R, E>::fresh(false, false), events)[at] is ReadOnboardProfiles
            || requests(MouseButtonsRun::<R, E>::fresh(false, false), events)[at] is ReadButtonCount,
{
    lemma_one_shot_requests(MouseButtonsRun::<R, E>::fresh(false, false), events);
}

proof fn lemma_failures_are_kept<R: Copy, E>(run: MouseButtonsRun<R, E>, events: Seq<DiagEvent<R, E>>)
    requires
        completes(run, events),
    ensures
        (run.phase matches Phase::On { task: Task::Stopping(StopCause::StartFailed(_)), .. }) ==> ending(run, events)
            is Err,
        (exists|i: int| 0 <= i < events.len() && is_failure(#[trigger] events[i])) ==> ending(
            run,
            events,
        ) is Err,
    decreases events.len(),
{
    match run.next(events[0]) {
        DiagNext::Finished(_) => {},
        DiagNext::Ask(later, _) => {
            let rest = events.drop_first();
            lemma_failures_are_kept(later, rest);
            if exists|i: int| 0 <= i < events.len() && is_failure(#[trigger] events[i]) {
                let i = choose|i: int| 0 <= i < events.len() && is_failure(#[trigger] events[i]);
                if i > 0 {
                    assert(rest[i - 1] == events[i]);
                    assert(is_failure(rest[i - 1]));
                }
            }
        },
    }
}

/// A run in which selecting, opening, starting or stopping failed ends in an
/// error.
pub proof fn law_failures_end_in_an_error<R: Copy, E>(
    watch: bool,
    stop: bool,
    events: Seq<DiagEvent<R, E>>,
    at: int,
)
    requires
        completes(MouseButtonsRun::<R, E>::fresh(watch, stop), events),
        0 <= at < events.len(),
        is_failure(events[at]),
    ensures
        ending(MouseButtonsRun::<R, E>::fresh(watch, stop), events) is Err,
{
    lemma_failures_are_kept(MouseButtonsRun::<R, E>::fresh(watch, stop), events);
}

/// The device that a request names, where it names one.
pub open spec fn device_of<R>(request: DiagRequest<R>) -> Option<R> {
    match request {
        DiagRequest::SelectDevice { .. } => None,
        DiagRequest::ReadOnboardProfiles(route) => Some(route),
        DiagRequest::ReadButtonCount(route) => Some(route),
        DiagRequest::OpenSpy(route) => Some(route),
        DiagRequest::Listen(route) => Some(route),
        DiagRequest::StartReporting(route) => Some(route),
        DiagRequest::AwaitEvent(route) => Some(route),
        DiagRequest::StopReporting(route) => Some(route),
    }
}

proof fn lemma_device_is_kept<R: Copy, E>(
    run: MouseButtonsRun<R, E>,
    events: Seq<DiagEvent<R, E>>,
)
    requires
        completes(run, events),
        run.phase is On,
    ensures
        forall|i: int|
            0 <= i < requests(run, events).len() ==> device_of(
                #[trigger] requests(run, events)[i],
            ) == Some(run.phase->route),
    decreases events.len(),
{
    match run.next(events[0]) {
        DiagNext::Finished(_) => {},
        DiagNext::Ask(later, request) => {
            let rest = requests(later, events.drop_first());
            let all = requests(run, events);
            lemma_device_is_kept(later, events.drop_first());
            assert(all =~= seq![request] + rest);
            assert forall|i: int| 0 <= i < all.len() implies device_of(#[trigger] all[i]) == Some(
                run.phase->route,
            ) by {
                if i > 0 {
                    assert(device_of(rest[i - 1]) == Some(run.phase->route));
                }
            }
        },
    }
}

/// Once a device is selected, everything that the run asks for is on that
/// device.
pub proof fn law_run_stays_on_the_selected_device<R: Copy, E>(
    watch: bool,
    stop: bool,
    events: Seq<DiagEvent<R, E>>,
    at: int,
)
    requires
        completes(MouseButtonsRun::<R, E>::fresh(watch, stop), events),
        0 <= at < requests(MouseButtonsRun::<R, E>::fresh(watch, stop), events).len(),
    ensures
        events[0] matches DiagEvent::DeviceSelected { route, .. } && device_of(
            requests(MouseButtonsRun::<R, E>::fresh(watch, stop), events)[at],
        ) == Some(route),
{
    let run = MouseButtonsRun::<R, E>::fresh(watch, stop);
    match run.next(events[0]) {
        DiagNext::Finished(_) => {},
        DiagNext::Ask(later, request) => {
            let rest = requests(later, events.drop_first());
            lemma_device_is_kept(later, events.drop_first());
            if at > 0 {
                assert(requests(run, events)[at] == rest[at - 1]);
            }
        },
    }
}

/// What can come of a request.
pub open spec fn is_reply<R: Copy, E>(request: DiagRequest<R>, event: DiagEvent<R, E>) -> bool {
    match event {
        DiagEvent::DeviceSelected { .. } | DiagEvent::SelectFailed(_) => request is SelectDevice,
        DiagEvent::ProfilesRead(_) | DiagEvent::ProfilesUnavailable(_) => request
            is ReadOnboardProfiles,
        DiagEvent::ButtonCountRead(_) | DiagEvent::ButtonCountUnavailable(_) => request
            is ReadButtonCount,
        DiagEvent::SpyOpened | DiagEvent::SpyOpenFailed(_) => request is OpenSpy,
        DiagEvent::ReceiverRegistered => request is Listen,
        DiagEvent::ReportingStarted | DiagEvent::StartFailed(_) => request is StartReporting,
        DiagEvent::Spied(_) | DiagEvent::StreamClosed | DiagEvent::EnterPressed
        | DiagEvent::CtrlC => request is AwaitEvent,
        DiagEvent::ReportingStopped | DiagEvent::StopFailed(_) => request is StopReporting,
    }
}

/// A run begins with the options it was given and by asking for a device with
/// `0x8110`, the one that was named if one was; it awaits what can come of
/// that, and nothing else.
pub proof fn law_run_begins_with_a_selection<R: Copy, E>(
    args: MouseButtonsArgs,
    begun: (MouseButtonsRun<R, E>, DiagRequest<R>),
    reply: DiagEvent<R, E>,
    awaiting: bool,
)
    requires
        call_ensures(MouseButtonsRun::<R, E>::start, (args,), begun),
        call_ensures(MouseButtonsRun::<R, E>::is_awaiting, (&begun.0, &reply), awaiting),
    ensures
        begun.0 == MouseButtonsRun::<R, E>::fresh(args.watch, args.stop),
        begun.1 matches DiagRequest::SelectDevice { device, features } && device == args.device
            && features@ == seq![0x8110u16],
        awaiting <==> is_reply(begun.1, reply),
{
}

/// A run that has asked for something awaits exactly what can come of it, and
/// goes on with anything that it awaits.
pub proof fn law_each_reply_is_awaited<R: Copy, E>(
    run: MouseButtonsRun<R, E>,
    event: DiagEvent<R, E>,
    step: DiagStep<R, E>,
    reply: DiagEvent<R, E>,
    awaiting: bool,
)
    requires
        run.awaits(event),
        call_ensures(MouseButtonsRun::<R, E>::step, (run, event), step),
        step.next matches DiagNext::Ask(later, _) ==> call_ensures(
            MouseButtonsRun::<R, E>::is_awaiting,
            (&later, &reply),
            awaiting,
        ),
    ensures
        step.next matches DiagNext::Ask(later, request) ==> {
            &&& awaiting <==> is_reply(request, reply)
            &&& awaiting ==> call_requires(MouseButtonsRun::<R, E>::step, (later, reply))
        },
{
}

/// Stepping a run leads through its history: a step asks for what the run asks
/// for next, or ends as the run ends.
pub proof fn law_steps_follow_the_run<R: Copy, E>(
    run: MouseButtonsRun<R, E>,
    event: DiagEvent<R, E>,
    step: DiagStep<R, E>,
    rest: Seq<DiagEvent<R, E>>,
)
    requires
        run.awaits(event),
        call_ensures(MouseButtonsRun::<R, E>::step, (run, event), step),
    ensures
        match step.next {
            DiagNext::Finished(result) => {
                &&& completes(run, seq![event] + rest) <==> rest.len() == 0
                &&& requests(run, seq![event] + rest).len() == 0
                &&& ending(run, seq![event] + rest) == result
            },
            DiagNext::Ask(later, request) => {
                &&& completes(run, seq![event] + rest) <==> completes(later, rest)
                &&& requests(run, seq![event] + rest) == seq![request] + requests(later, rest)
                &&& ending(run, seq![event] + rest) == ending(later, rest)
            },
        },
{
    let events = seq![event] + rest;
    assert(events[0] == event);
    assert(events.drop_first() =~= rest);
}

/// A watch goes on at each button event, whatever buttons it reports: the run
/// stays as it is and asks for the next event.
pub proof fn law_watch_goes_on_at_each_button_event<R: Copy, E>(
    run: MouseButtonsRun<R, E>,
    route: R,
    event: MouseButtonSpyEvent,
    step: DiagStep<R, E>,
)
    requires
        run.phase == (Phase::<R, E>::On { route, task: Task::Streaming }),
        call_ensures(
            MouseButtonsRun::<R, E>::step,
            (run, DiagEvent::<R, E>::Spied(event)),
            step,
        ),
    ensures
        step.next == DiagNext::<R, E>::Ask(run, DiagRequest::AwaitEvent(route)),
        call_requires(MouseButtonsRun::<R, E>::step, (run, DiagEvent::<R, E>::Spied(event))),
{
}

/// The event ends a watch: Enter, Ctrl-C or a closed stream.
pub open spec fn ends_the_watch<R: Copy, E>(event: DiagEvent<R, E>) -> bool {
    event is EnterPressed || event is CtrlC || event is StreamClosed
}

/// The shape of what is left of a watch.
spec fn is_watched_to_its_end<R: Copy, E>(
    run: MouseButtonsRun<R, E>,
    route: R,
    events: Seq<DiagEvent<R, E>>,
) -> bool {
    let asked = requests(run, events);
    let last = events.len() - 1;
    &&& events.len() >= 2
    &&& asked.len() == last
    &&& forall|i: int|
        0 <= i < last - 1 ==> (#[trigger] events[i]) is Spied && asked[i]
            == DiagRequest::AwaitEvent(route)
    &&& ends_the_watch(events[last - 1])
    &&& asked[last - 1] == DiagRequest::StopReporting(route)
    &&& match events[last] {
        DiagEvent::ReportingStopped => ending(run, events) == Ok::<(), DiagError<E>>(()),
        DiagEvent::StopFailed(error) => ending(run, events) == Err::<(), DiagError<E>>(
            DiagError::Stop(error),
        ),
        _ => false,
    }
}

proof fn lemma_watch_runs_to_its_end<R: Copy, E>(
    run: MouseButtonsRun<R, E>,
    route: R,
    events: Seq<DiagEvent<R, E>>,
)
    requires
        completes(run, events),
        run.phase == (Phase::<R, E>::On { route, task: Task::Streaming }),
    ensures
        is_watched_to_its_end(run, route, events),
    decreases events.len(),
{
    let rest = events.drop_first();
    let later = run.next(events[0])->Ask_0;
    let request = run.next(events[0])->Ask_1;
    let asked = requests(run, events);
    assert(asked =~= seq![request] + requests(later, rest));
    if events[0] is Spied {
        lemma_watch_runs_to_its_end(later, route, rest);
        let last = events.len() - 1;
        assert(rest[last - 1] == events[last]);
        assert(rest[last - 2] == events[last - 1]);
        assert(asked[last - 1] == requests(later, rest)[last - 2]);
        assert forall|i: int| 0 <= i < last - 1 implies (#[trigger] events[i]) is Spied && asked[i]
            == DiagRequest::AwaitEvent(route) by {
            if i > 0 {
                assert(rest[i - 1] == events[i]);
                assert(asked[i] == requests(later, rest)[i - 1]);
            }
        }
    } else {
        reveal_with_fuel(completes, 3);
        reveal_with_fuel(requests, 3);
        reveal_with_fuel(ending, 3);
        assert(rest[0] == events[1]);
        assert(requests(later, rest).len() == 0);
    }
}

/// What a `--stop` run does, from the selection to the end: it opens the spy
/// of the selected device and stops it. The first failure ends it, as itself.
pub proof fn law_stop_run<R: Copy, E>(watch: bool, events: Seq<DiagEvent<R, E>>)
    requires
        completes(MouseButtonsRun::<R, E>::fresh(watch, true), events),
    ensures
        ({
            let asked = requests(MouseButtonsRun::<R, E>::fresh(watch, true), events);
            let end = ending(MouseButtonsRun::<R, E>::fresh(watch, true), events);
            match events[0] {
                DiagEvent::SelectFailed(error) => events.len() == 1 && asked.len() == 0 && end
                    == Err::<(), DiagError<E>>(DiagError::Select(error)),
                DiagEvent::DeviceSelected { route, .. } => match events[1] {
                    DiagEvent::SpyOpenFailed(error) => events.len() == 2 && asked == seq![
                        DiagRequest::OpenSpy(route),
                    ] && end == Err::<(), DiagError<E>>(DiagError::Open(error)),
                    DiagEvent::SpyOpened => {
                        &&& events.len() == 3
                        &&& asked == seq![
                            DiagRequest::OpenSpy(route),
                            DiagRequest::StopReporting(route),
                        ]
                        &&& match events[2] {
                            DiagEvent::ReportingStopped => end == Ok::<(), DiagError<E>>(()),
                            DiagEvent::StopFailed(error) => end == Err::<(), DiagError<E>>(
                                DiagError::Stop(error),
                            ),
                            _ => false,
                        }
                    },
                    _ => false,
                },
                _ => false,
            }
        }),
{
    reveal_with_fuel(completes, 4);
    reveal_with_fuel(requests, 4);
    reveal_with_fuel(ending, 4);
    let run = MouseButtonsRun::<R, E>::fresh(watch, true);
    let asked = requests(run, events);
    if let DiagEvent::DeviceSelected { route, .. } = events[0] {
        let second = events.drop_first();
        assert(second[0] == events[1]);
        if events[1] is SpyOpenFailed {
            assert(asked =~= seq![DiagRequest::OpenSpy(route)]);
        } else {
            assert(second.drop_first()[0] == events[2]);
            assert(asked =~= seq![
                DiagRequest::OpenSpy(route),
                DiagRequest::StopReporting(route),
            ]);
        }
    }
}

/// What a run without options does, from the selection to the end: it reads
/// the profiles and the button count of the selected device and succeeds,
/// whether they can be read or not.
pub proof fn law_one_shot_run<R: Copy, E>(events: Seq<DiagEvent<R, E>>)
    requires
        completes(MouseButtonsRun::<R, E>::fresh(false, false), events),
    ensures
        ({
            let asked = requests(MouseButtonsRun::<R, E>::fresh(false, false), events);
            let end = ending(MouseButtonsRun::<R, E>::fresh(false, false), events);
            match events[0] {
                DiagEvent::SelectFailed(error) => events.len() == 1 && asked.len() == 0 && end
                    == Err::<(), DiagError<E>>(DiagError::Select(error)),
                DiagEvent::DeviceSelected { route, .. } => {
                    &&& events.len() == 3
                    &&& events[1] is ProfilesRead || events[1] is ProfilesUnavailable
                    &&& events[2] is ButtonCountRead || events[2] is ButtonCountUnavailable
                    &&& asked == seq![
                        DiagRequest::ReadOnboardProfiles(route),
                        DiagRequest::ReadButtonCount(route),
                    ]
                    &&& end == Ok::<(), DiagError<E>>(())
                },
                _ => false,
            }
        }),
{
    reveal_with_fuel(completes, 4);
    reveal_with_fuel(requests, 4);
    reveal_with_fuel(ending, 4);
    let run = MouseButtonsRun::<R, E>::fresh(false, false);
    if let DiagEvent::DeviceSelected { route, .. } = events[0] {
        let second = events.drop_first();
        assert(second[0] == events[1]);
        assert(second.drop_first()[0] == events[2]);
        assert(requests(run, events) =~= seq![
            DiagRequest::ReadOnboardProfiles(route),
            DiagRequest::ReadButtonCount(route),
        ]);
    }
}

/// How a watching run comes to its watch, and how it ends where it comes to
/// none: it reads the profiles and the button count of the selected device,
/// then opens the spy, registers for its events and starts it. It ends in an
/// error where the device has no spy or opening it fails. Where starting
/// fails, the spy is stopped all the same, and the run ends with the failed
/// start whatever comes of the stop.
pub proof fn law_watch_run_before_the_watch<R: Copy, E>(events: Seq<DiagEvent<R, E>>)
    requires
        completes(MouseButtonsRun::<R, E>::fresh(true, false), events),
    ensures
        ({
            let asked = requests(MouseButtonsRun::<R, E>::fresh(true, false), events);
            let end = ending(MouseButtonsRun::<R, E>::fresh(true, false), events);
            match events[0] {
                DiagEvent::SelectFailed(error) => events.len() == 1 && asked.len() == 0 && end
                    == Err::<(), DiagError<E>>(DiagError::Select(error)),
                DiagEvent::DeviceSelected { route, .. } => {
                    &&& events.len() >= 3
                    &&& events[1] is ProfilesRead || events[1] is ProfilesUnavailable
                    &&& asked.len() >= 2
                    &&& asked[0] == DiagRequest::ReadOnboardProfiles(route)
                    &&& asked[1] == DiagRequest::ReadButtonCount(route)
                    &&& match events[2] {
                        DiagEvent::ButtonCountUnavailable(_) => events.len() == 3 && asked.len()
                            == 2 && end == Err::<(), DiagError<E>>(DiagError::WatchUnsupported),
                        DiagEvent::ButtonCountRead(_) => {
                            &&& events.len() >= 4
                            &&& asked.len() >= 3
                            &&& asked[2] == DiagRequest::OpenSpy(route)
                            &&& match events[3] {
                                DiagEvent::SpyOpenFailed(error) => events.len() == 4 && asked.len()
                                    == 3 && end == Err::<(), DiagError<E>>(DiagError::Open(error)),
                                DiagEvent::SpyOpened => {
                                    &&& events.len() >= 6
                                    &&& events[4] is ReceiverRegistered
                                    &&& asked.len() >= 6
                                    &&& asked[3] == DiagRequest::Listen(route)
                                    &&& asked[4] == DiagRequest::StartReporting(route)
                                    &&& match events[5] {
                                        DiagEvent::ReportingStarted => true,
                                        DiagEvent::StartFailed(error) => {
                                            &&& events.len() == 7
                                            &&& events[6] is ReportingStopped || events[6]
                                                is StopFailed
                                            &&& asked.len() == 6
                                            &&& asked[5] == DiagRequest::StopReporting(route)
                                            &&& end == Err::<(), DiagError<E>>(
                                                DiagError::Start(error),
                                            )
                                        },
                                        _ => false,
                                    }
                                },
                                _ => false,
                            }
                        },
                        _ => false,
                    }
                },
                _ => false,
            }
        }),
{
    reveal_with_fuel(completes, 8);
    reveal_with_fuel(requests, 8);
    reveal_with_fuel(ending, 8);
    if let DiagEvent::DeviceSelected { .. } = events[0] {
        let second = events.drop_first();
        let third = second.drop_first();
        assert(second[0] == events[1]);
        assert(third[0] == events[2]);
        if events[2] is ButtonCountRead {
            let fourth = third.drop_first();
            assert(fourth[0] == events[3]);
            if events[3] is SpyOpened {
                let fifth = fourth.drop_first();
                let sixth = fifth.drop_first();
                assert(fifth[0] == events[4]);
                assert(sixth[0] == events[5]);
                if events[5] is StartFailed {
                    assert(sixth.drop_first()[0] == events[6]);
                }
            }
        }
    }
}

/// What a watching run does once the spy is started: it asks for one event
/// after the other, and is stopped by Enter, Ctrl-C or a closed stream and by
/// nothing else. All that comes before is button events, and each of them is
/// answered by asking for the next. The run then ends with what comes of the
/// stop.
pub proof fn law_watch_run_until_its_end<R: Copy, E>(
    route: R,
    events: Seq<DiagEvent<R, E>>,
)
    requires
        completes(MouseButtonsRun::<R, E>::fresh(true, false), events),
        events.len() > 5,
        events[5] is ReportingStarted,
        events[0] matches DiagEvent::DeviceSelected { route: selected, .. } && selected == route,
    ensures
        ({
            let asked = requests(MouseButtonsRun::<R, E>::fresh(true, false), events);
            let end = ending(MouseButtonsRun::<R, E>::fresh(true, false), events);
            let last = events.len() - 1;
            &&& events.len() >= 8
            &&& asked.len() == last
            &&& forall|i: int| 6 <= i < last - 1 ==> (#[trigger] events[i]) is Spied
            &&& forall|i: int|
                5 <= i < last - 1 ==> #[trigger] asked[i] == DiagRequest::AwaitEvent(route)
            &&& events[last - 1] is EnterPressed || events[last - 1] is CtrlC || events[last - 1]
                is StreamClosed
            &&& asked[last - 1] == DiagRequest::StopReporting(route)
            &&& match events[last] {
                DiagEvent::ReportingStopped => end == Ok::<(), DiagError<E>>(()),
                DiagEvent::StopFailed(error) => end == Err::<(), DiagError<E>>(
                    DiagError::Stop(error),
                ),
                _ => false,
            }
        }),
{
    let run = MouseButtonsRun::<R, E>::fresh(true, false);
    let asked = requests(run, events);
    law_watch_run_before_the_watch(events);
    reveal_with_fuel(completes, 7);
    reveal_with_fuel(requests, 7);
    reveal_with_fuel(ending, 7);
    let second = events.drop_first();
    let third = second.drop_first();
    let fourth = third.drop_first();
    let fifth = fourth.drop_first();
    let sixth = fifth.drop_first();
    let watched = sixth.drop_first();
    assert(second[0] == events[1] && third[0] == events[2] && fourth[0] == events[3]);
    assert(fifth[0] == events[4] && sixth[0] == events[5]);
    let streaming = run.on(route, Task::Streaming);
    assert(completes(streaming, watched));
    lemma_watch_runs_to_its_end(streaming, route, watched);
    let rest = requests(streaming, watched);
    let last = events.len() - 1;
    assert(forall|i: int| 0 <= i < watched.len() ==> watched[i] == #[trigger] events[i + 6]);
    assert(asked.len() == rest.len() + 6);
    assert(forall|i: int| 0 <= i < rest.len() ==> rest[i] == #[trigger] asked[i + 6]);
    assert(asked[5] == DiagRequest::AwaitEvent(route));
    assert forall|i: int| 6 <= i < last - 1 implies (#[trigger] events[i]) is Spied by {
        assert(watched[i - 6] == events[i - 6 + 6]);
    }
    assert forall|i: int| 5 <= i < last - 1 implies #[trigger] asked[i] == DiagRequest::AwaitEvent(
        route,
    ) by {
        if i > 5 {
            assert(rest[i - 6] == asked[i - 6 + 6]);
            assert(watched[i - 6] is Spied);
        }
    }
    assert(watched[last - 6] == events[last - 6 + 6]);
    assert(watched[last - 7] == events[last - 7 + 6]);
    assert(rest[last - 7] == asked[last - 7 + 6]);
    assert(ending(run, events) == ending(streaming, watched));
}

/// What the command was doing when an error came: nothing beyond the error
/// itself for a failed selection, and the spy's opening, start or stop for
/// those; a device without the spy is the whole message.
pub proof fn law_errors_tell_what_failed<E>(error: DiagError<E>, context: Option<&'static str>)
    requires
        call_ensures(DiagError::<E>::context, (&error,), context),
    ensures
        context is None <==> error is Select,
        error is Open ==> context->0@ == "open HID++ 0x8110 MouseButtonSpy"@,
        error is Start ==> context->0@ == "start HID++ 0x8110 MouseButtonSpy"@,
        error is Stop ==> context->0@ == "stop HID++ 0x8110 MouseButtonSpy"@,
        error is WatchUnsupported ==> context->0@
            == "--watch requires HID++ 0x8110 MouseButtonSpy, which this device doesn't report"@,
{
}

} // verus!
