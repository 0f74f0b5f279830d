//! What the `diag mouse-buttons` command prints, event by event.

use vstd::prelude::*;

use super::diag::{
    line_texts, DiagEvent, DiagStep, MouseButtonsRun, OnboardProfilesInfo, Phase, StopCause, Task,
};
use super::mouse_button_spy::{MouseButtonIndex, MouseButtonMask, MouseButtonSpyEvent};
use super::onboard_profiles::OnboardMode;
use super::text::{
    bracketed_text, decimal, hexadecimal, is_decimal_of, is_hexadecimal_of,
    lemma_decimal_is_written, lemma_hexadecimal_is_written, sixteens,
};

verus! {

/// The step prints one line, and this is it.
pub open spec fn prints<R: Copy, E>(step: DiagStep<R, E>, line: Seq<char>) -> bool {
    step.lines@.len() == 1 && step.lines@[0]@ == line
}

/// A step prints as many lines as its event has, with their characters.
proof fn lemma_lines_are_printed<R: Copy, E>(
    run: MouseButtonsRun<R, E>,
    event: DiagEvent<R, E>,
    step: DiagStep<R, E>,
)
    requires
        line_texts(step.lines@) == run.printed(event),
    ensures
        step.lines@.len() == run.printed(event).len(),
        step.lines@.len() == 1 ==> prints(step, run.printed(event)[0]),
{
    assert(line_texts(step.lines@).len() == step.lines@.len());
    if step.lines@.len() == 1 {
        assert(line_texts(step.lines@)[0] == step.lines@[0]@);
    }
}

/// The selected device is printed by its name, with its route as it is shown.
pub proof fn law_selected_device_is_printed<R: Copy, E>(
    run: MouseButtonsRun<R, E>,
    name: String,
    route: R,
    shown: String,
    step: DiagStep<R, E>,
)
    requires
        call_ensures(
            MouseButtonsRun::<R, E>::step,
            (run, DiagEvent::<R, E>::DeviceSelected { name, route, shown }),
            step,
        ),
    ensures
        prints(step, "device: "@ + name@ + " ("@ + shown@ + ")"@),
{
    lemma_lines_are_printed(run, DiagEvent::<R, E>::DeviceSelected { name, route, shown }, step);
}

/// The line holds each number of `0x8100` that it names, in full: the format
/// in two digits of base sixteen, the counts and the sector size in base ten.
pub open spec fn shows_profiles(
    line: Seq<char>,
    info: OnboardProfilesInfo,
    format: Seq<char>,
    buttons: Seq<char>,
    profiles: Seq<char>,
    out_of_box: Seq<char>,
    sectors: Seq<char>,
    size: Seq<char>,
) -> bool {
    &&& is_hexadecimal_of(format, info.description.profile_format_id as int, 2)
    &&& is_decimal_of(buttons, info.description.button_count as int)
    &&& is_decimal_of(profiles, info.description.profile_count as int)
    &&& is_decimal_of(out_of_box, info.description.profile_count_oob as int)
    &&& is_decimal_of(sectors, info.description.sector_count as int)
    &&& is_decimal_of(size, info.description.sector_size as int)
    &&& line == (if info.mode == OnboardMode::Host {
        "  0x8100 OnboardProfiles: mode="@ + "Host"@
    } else {
        "  0x8100 OnboardProfiles: mode="@ + "Onboard"@
    }) + " profile_format=0x"@ + format + " button_count="@ + buttons + " profiles="@ + profiles
        + "+"@ + out_of_box + " oob sectors="@ + sectors + "x"@ + size + "B"@
}

/// What `0x8100` says is printed in one line, number by number.
pub proof fn law_profiles_are_printed<R: Copy, E>(
    run: MouseButtonsRun<R, E>,
    info: OnboardProfilesInfo,
    step: DiagStep<R, E>,
)
    requires
        call_ensures(
            MouseButtonsRun::<R, E>::step,
            (run, DiagEvent::<R, E>::ProfilesRead(info)),
            step,
        ),
    ensures
        step.lines@.len() == 1,
        exists|
            format: Seq<char>,
            buttons: Seq<char>,
            profiles: Seq<char>,
            out_of_box: Seq<char>,
            sectors: Seq<char>,
            size: Seq<char>,
        | #[trigger]
            shows_profiles(
                step.lines@[0]@,
                info,
                format,
                buttons,
                profiles,
                out_of_box,
                sectors,
                size,
            ),
{
    lemma_lines_are_printed(run, DiagEvent::<R, E>::ProfilesRead(info), step);
    let description = info.description;
    let format = hexadecimal(description.profile_format_id as nat, 2);
    let buttons = decimal(description.button_count as nat);
    let profiles = decimal(description.profile_count as nat);
    let out_of_box = decimal(description.profile_count_oob as nat);
    let sectors = decimal(description.sector_count as nat);
    let size = decimal(description.sector_size as nat);
    reveal_with_fuel(sixteens, 3);
    lemma_hexadecimal_is_written(description.profile_format_id as nat, 2);
    lemma_decimal_is_written(description.button_count as nat);
    lemma_decimal_is_written(description.profile_count as nat);
    lemma_decimal_is_written(description.profile_count_oob as nat);
    lemma_decimal_is_written(description.sector_count as nat);
    lemma_decimal_is_written(description.sector_size as nat);
    assert(shows_profiles(
        step.lines@[0]@,
        info,
        format,
        buttons,
        profiles,
        out_of_box,
        sectors,
        size,
    ));
}

/// The button count is printed in base ten.
pub proof fn law_button_count_is_printed<R: Copy, E>(
    run: MouseButtonsRun<R, E>,
    count: u8,
    step: DiagStep<R, E>,
)
    requires
        call_ensures(
            MouseButtonsRun::<R, E>::step,
            (run, DiagEvent::<R, E>::ButtonCountRead(count)),
            step,
        ),
    ensures
        step.lines@.len() == 1,
        exists|number: Seq<char>| #[trigger]
            is_decimal_of(number, count as int) && step.lines@[0]@
                == "  0x8110 MouseButtonSpy: button_count="@ + number,
{
    lemma_lines_are_printed(run, DiagEvent::<R, E>::ButtonCountRead(count), step);
    lemma_decimal_is_written(count as nat);
    assert(is_decimal_of(decimal(count as nat), count as int));
}

/// A feature that does not answer is printed with the reason, whole.
pub proof fn law_missing_features_are_printed<R: Copy, E>(
    reading_profiles: MouseButtonsRun<R, E>,
    reading_count: MouseButtonsRun<R, E>,
    reason: String,
    profiles: DiagStep<R, E>,
    count: DiagStep<R, E>,
)
    requires
        call_ensures(
            MouseButtonsRun::<R, E>::step,
            (reading_profiles, DiagEvent::<R, E>::ProfilesUnavailable(reason)),
            profiles,
        ),
        call_ensures(
            MouseButtonsRun::<R, E>::step,
            (reading_count, DiagEvent::<R, E>::ButtonCountUnavailable(reason)),
            count,
        ),
    ensures
        prints(profiles, "  0x8100 OnboardProfiles: not available ("@ + reason@ + ")"@),
        prints(count, "  0x8110 MouseButtonSpy: not available ("@ + reason@ + ")"@),
{
    lemma_lines_are_printed(
        reading_profiles,
        DiagEvent::<R, E>::ProfilesUnavailable(reason),
        profiles,
    );
    lemma_lines_are_printed(
        reading_count,
        DiagEvent::<R, E>::ButtonCountUnavailable(reason),
        count,
    );
}

/// A button event is printed as the mask in four digits of base sixteen and
/// the list of the buttons that it reports pressed.
pub proof fn law_button_events_are_printed<R: Copy, E>(
    run: MouseButtonsRun<R, E>,
    mask: MouseButtonMask,
    pressed: Vec<MouseButtonIndex>,
    down: Vec<u8>,
    list: String,
    step: DiagStep<R, E>,
)
    requires
        call_ensures(
            MouseButtonsRun::<R, E>::step,
            (run, DiagEvent::<R, E>::Spied(MouseButtonSpyEvent::Buttons(mask))),
            step,
        ),
        call_ensures(MouseButtonMask::pressed, (mask,), pressed),
        down@.len() == pressed@.len(),
        forall|i: int| 0 <= i < down@.len() ==> #[trigger] down@[i] == pressed@[i]@,
        call_ensures(bracketed_text, (&down,), list),
    ensures
        step.lines@.len() == 1,
        exists|bits: Seq<char>| #[trigger]
            is_hexadecimal_of(bits, mask@ as int, 4) && step.lines@[0]@ == "  mask=0x"@ + bits
                + "  down="@ + list@,
{
    lemma_lines_are_printed(
        run,
        DiagEvent::<R, E>::Spied(MouseButtonSpyEvent::Buttons(mask)),
        step,
    );
    assert(down@ =~= mask.down()) by {
        assert(mask.down() =~= pressed@.map_values(|index: MouseButtonIndex| index@));
    }
    reveal_with_fuel(sixteens, 5);
    lemma_hexadecimal_is_written(mask@ as nat, 4);
    assert(is_hexadecimal_of(hexadecimal(mask@ as nat, 4), mask@ as int, 4));
}

/// The start of a watch says how to stop it, Ctrl-C that it is being stopped,
/// and a `--stop` run that the spy is stopped. A watch that is over says
/// nothing of its stop.
pub proof fn law_watch_is_announced<R: Copy, E>(
    starting: MouseButtonsRun<R, E>,
    streaming: MouseButtonsRun<R, E>,
    stopping: MouseButtonsRun<R, E>,
    started: DiagStep<R, E>,
    interrupted: DiagStep<R, E>,
    stopped: DiagStep<R, E>,
)
    requires
        call_ensures(
            MouseButtonsRun::<R, E>::step,
            (starting, DiagEvent::<R, E>::ReportingStarted),
            started,
        ),
        call_ensures(
            MouseButtonsRun::<R, E>::step,
            (streaming, DiagEvent::<R, E>::CtrlC),
            interrupted,
        ),
        call_ensures(
            MouseButtonsRun::<R, E>::step,
            (stopping, DiagEvent::<R, E>::ReportingStopped),
            stopped,
        ),
    ensures
        prints(
            started,
            "watching — press each physical button once, in isolation, then press Enter here (or Ctrl-C) to stop"@,
        ),
        prints(interrupted, "stopping spy"@),
        (stopping.phase matches Phase::On { task: Task::Stopping(StopCause::Recovery), .. }) ==> prints(
            stopped,
            "  0x8110 MouseButtonSpy: stopped"@,
        ),
        !(stopping.phase matches Phase::On { task: Task::Stopping(StopCause::Recovery), .. })
            ==> stopped.lines@.len() == 0,
{
    lemma_lines_are_printed(starting, DiagEvent::<R, E>::ReportingStarted, started);
    lemma_lines_are_printed(streaming, DiagEvent::<R, E>::CtrlC, interrupted);
    lemma_lines_are_printed(stopping, DiagEvent::<R, E>::ReportingStopped, stopped);
}

/// Nothing else prints anything: an error is the caller's to show.
pub proof fn law_other_events_are_silent<R: Copy, E>(
    run: MouseButtonsRun<R, E>,
    event: DiagEvent<R, E>,
    step: DiagStep<R, E>,
)
    requires
        call_ensures(MouseButtonsRun::<R, E>::step, (run, event), step),
        event is SelectFailed || event is SpyOpened || event is SpyOpenFailed || event
            is ReceiverRegistered || event is StartFailed || event is StreamClosed || event
            is EnterPressed || event is StopFailed,
    ensures
        step.lines@.len() == 0,
{
    lemma_lines_are_printed(run, event, step);
}

} // verus!
