//! The `diag mouse-buttons` command: probes HID++ `0x8100` `OnboardProfiles`
//! and `0x8110` `MouseButtonSpy`, the feature pair G-series mice report instead
//! of `0x1b04`.
//!
//! A run never writes onboard-profile memory or the device's onboard/host
//! mode. `--watch` does start the device's spy stream; it is stopped again
//! when the user asks for it and on every error path. `--stop` recovers from a
//! run that was killed too hard to do so.
//!
//! A run is a state machine. Whoever executes it carries out what
//! [`MouseButtonsRun::start`] and [`MouseButtonsRun::step`] ask for, prints the
//! lines of each step, and hands back what came of the request.

use vstd::prelude::*;

use super::mouse_button_spy::{
    MouseButtonIndex, MouseButtonMask, MouseButtonSpyEvent, FEATURE_ID,
};
use super::onboard_profiles::{OnboardMode, ProfilesDescription};
use super::text::{
    bracketed, bracketed_text, decimal, decimal_text, hexadecimal, hexadecimal_text,
};

verus! {

/// The options of the command.
#[derive(Clone, Debug)]
pub struct MouseButtonsArgs {
    /// Run against the device whose name contains this string
    /// (case-insensitive) instead of auto-selecting.
    pub device: Option<String>,
    /// Start the `0x8110` button spy and print each event live, instead of the
    /// one-shot descriptor/mode/count read.
    pub watch: bool,
    /// Stop the `0x8110` button spy without starting or reading anything.
    pub stop: bool,
}

/// What `0x8100` says about a device.
#[derive(Clone, Copy, Debug, PartialEq, Eq)]
pub struct OnboardProfilesInfo {
    pub mode: OnboardMode,
    pub description: ProfilesDescription,
}

/// What a run asks for. After the selection every request names the selected
/// device by its route.
#[derive(Clone, Debug)]
pub enum DiagRequest<R> {
    /// Select the device whose name contains `device`, or any, by the HID++
    /// features it reports.
    SelectDevice { device: Option<String>, features: Vec<u16> },
    /// Read the `0x8100` descriptor and mode.
    ReadOnboardProfiles(R),
    /// Read the `0x8110` button count.
    ReadButtonCount(R),
    /// Open the `0x8110` spy.
    OpenSpy(R),
    /// Register a receiver for the spy's events.
    Listen(R),
    /// Start the spy.
    StartReporting(R),
    /// Wait for a button event, the Enter key or Ctrl-C, whichever is first.
    AwaitEvent(R),
    /// Stop the spy.
    StopReporting(R),
}

/// What came of a request.
pub enum DiagEvent<R, E> {
    /// `shown` is the route as it is shown to the user.
    DeviceSelected { name: String, route: R, shown: String },
    SelectFailed(E),
    ProfilesRead(OnboardProfilesInfo),
    /// The text is the error as it is shown to the user.
    ProfilesUnavailable(String),
    ButtonCountRead(u8),
    /// The text is the error as it is shown to the user.
    ButtonCountUnavailable(String),
    SpyOpened,
    SpyOpenFailed(E),
    ReceiverRegistered,
    ReportingStarted,
    StartFailed(E),
    Spied(MouseButtonSpyEvent),
    /// The spy's event channel is closed.
    StreamClosed,
    EnterPressed,
    CtrlC,
    ReportingStopped,
    StopFailed(E),
}

/// Why a run failed.
#[derive(Debug)]
pub enum DiagError<E> {
    /// No device could be selected.
    Select(E),
    /// `--watch` on a device without the spy.
    WatchUnsupported,
    /// The spy could not be opened.
    Open(E),
    /// The spy could not be started.
    Start(E),
    /// The spy could not be stopped.
    Stop(E),
}

impl<E> DiagError<E> {
    /// What the command was doing when the underlying error came, or the whole
    /// message where there is none. A device selection's own error says it all.
    pub fn context(&self) -> (context: Option<&'static str>)
        ensures
            match *self {
                DiagError::Select(_) => context is None,
                DiagError::WatchUnsupported => context matches Some(text) && text@
                    == "--watch requires HID++ 0x8110 MouseButtonSpy, which this device doesn't report"@,
                DiagError::Open(_) => context matches Some(text) && text@
                    == "open HID++ 0x8110 MouseButtonSpy"@,
                DiagError::Start(_) => context matches Some(text) && text@
                    == "start HID++ 0x8110 MouseButtonSpy"@,
                DiagError::Stop(_) => context matches Some(text) && text@
                    == "stop HID++ 0x8110 MouseButtonSpy"@,
            },
    {
        match self {
            DiagError::Select(_) => None,
            DiagError::WatchUnsupported => Some(
                "--watch requires HID++ 0x8110 MouseButtonSpy, which this device doesn't report",
            ),
            DiagError::Open(_) => Some("open HID++ 0x8110 MouseButtonSpy"),
            DiagError::Start(_) => Some("start HID++ 0x8110 MouseButtonSpy"),
            DiagError::Stop(_) => Some("stop HID++ 0x8110 MouseButtonSpy"),
        }
    }
}

/// Why the spy is being stopped.
pub enum StopCause<E> {
    /// `--stop` was asked for.
    Recovery,
    /// The watch is over.
    Watched,
    /// Starting failed, and may have taken effect all the same.
    StartFailed(E),
}

/// What a run is doing on its device.
pub enum Task<E> {
    ReadingProfiles,
    ReadingButtonCount,
    Opening,
    Listening,
    Starting,
    Streaming,
    Stopping(StopCause<E>),
}

/// What a run is waiting for.
pub enum Phase<R, E> {
    /// The selection of a device.
    Selecting,
    /// A task on the device that `route` leads to.
    On { route: R, task: Task<E> },
}

/// A run of the command.
pub struct MouseButtonsRun<R, E> {
    pub watch: bool,
    pub stop: bool,
    pub phase: Phase<R, E>,
}

/// How a run goes on.
pub enum DiagNext<R, E> {
    /// Carry out the request and step the run with what came of it.
    Ask(MouseButtonsRun<R, E>, DiagRequest<R>),
    /// The run is over.
    Finished(Result<(), DiagError<E>>),
}

/// One step of a run.
pub struct DiagStep<R, E> {
    /// What to print.
    pub lines: Vec<String>,
    pub next: DiagNext<R, E>,
}

/// Lines of text by their characters.
pub open spec fn line_texts(lines: Seq<String>) -> Seq<Seq<char>> {
    lines.map_values(|line: String| line@)
}

/// The name of a mode.
pub open spec fn mode_name(mode: OnboardMode) -> Seq<char> {
    match mode {
        OnboardMode::Onboard => "Onboard"@,
        OnboardMode::Host => "Host"@,
    }
}

/// The line that names the device.
pub open spec fn device_line(name: Seq<char>, route: Seq<char>) -> Seq<char> {
    "device: "@ + name + " ("@ + route + ")"@
}

/// The line for what `0x8100` says.
pub open spec fn profiles_line(info: OnboardProfilesInfo) -> Seq<char> {
    let description = info.description;
    "  0x8100 OnboardProfiles: mode="@ + mode_name(info.mode) + " profile_format=0x"@
        + hexadecimal(description.profile_format_id as nat, 2) + " button_count="@ + decimal(
        description.button_count as nat,
    ) + " profiles="@ + decimal(description.profile_count as nat) + "+"@ + decimal(
        description.profile_count_oob as nat,
    ) + " oob sectors="@ + decimal(description.sector_count as nat) + "x"@ + decimal(
        description.sector_size as nat,
    ) + "B"@
}

/// The line for a device that does not answer `0x8100`.
pub open spec fn profiles_unavailable_line(reason: Seq<char>) -> Seq<char> {
    "  0x8100 OnboardProfiles: not available ("@ + reason + ")"@
}

/// The line for the button count.
pub open spec fn button_count_line(count: u8) -> Seq<char> {
    "  0x8110 MouseButtonSpy: button_count="@ + decimal(count as nat)
}

/// The line for a device that does not answer `0x8110`.
pub open spec fn button_count_unavailable_line(reason: Seq<char>) -> Seq<char> {
    "  0x8110 MouseButtonSpy: not available ("@ + reason + ")"@
}

/// The line for a button-state event.
pub open spec fn mask_line(mask: MouseButtonMask) -> Seq<char> {
    "  mask=0x"@ + hexadecimal(mask@ as nat, 4) + "  down="@ + bracketed(mask.down())
}

fn device_text(name: &str, route: &str) -> (line: String)
    ensures
        line@ == device_line(name@, route@),
{
    let mut line = "device: ".to_owned();
    line.append(name);
    line.append(" (");
    line.append(route);
    line.append(")");
    line
}

fn profiles_text(info: &OnboardProfilesInfo) -> (line: String)
    ensures
        line@ == profiles_line(*info),
{
    let mut line = "  0x8100 OnboardProfiles: mode=".to_owned();
    match info.mode {
        OnboardMode::Onboard => line.append("Onboard"),
        OnboardMode::Host => line.append("Host"),
    }
    line.append(" profile_format=0x");
    line.append(hexadecimal_text(info.description.profile_format_id as u16, 2).as_str());
    line.append(" button_count=");
    line.append(decimal_text(info.description.button_count as u16).as_str());
    line.append(" profiles=");
    line.append(decimal_text(info.description.profile_count as u16).as_str());
    line.append("+");
    line.append(decimal_text(info.description.profile_count_oob as u16).as_str());
    line.append(" oob sectors=");
    line.append(decimal_text(info.description.sector_count as u16).as_str());
    line.append("x");
    line.append(decimal_text(info.description.sector_size).as_str());
    line.append("B");
    line
}

fn parenthesized(head: &str, reason: &str) -> (line: String)
    ensures
        line@ == head@ + reason@ + ")"@,
{
    let mut line = head.to_owned();
    line.append(reason);
    line.append(")");
    line
}

fn mask_text(mask: MouseButtonMask) -> (line: String)
    ensures
        line@ == mask_line(mask),
{
    let pressed = mask.pressed();
    let mut down: Vec<u8> = Vec::new();
    let ghost indices = pressed@.map_values(|index: MouseButtonIndex| index@);
    let mut at: usize = 0;
    while at < pressed.len()
        invariant
            at <= pressed@.len(),
            indices == pressed@.map_values(|index: MouseButtonIndex| index@),
            down@ =~= indices.take(at as int),
        decreases pressed@.len() - at,
    {
        down.push(pressed[at].get());
        at = at + 1;
    }
    assert(down@ =~= mask.down());
    let mut line = "  mask=0x".to_owned();
    line.append(hexadecimal_text(mask.bits(), 4).as_str());
    line.append("  down=");
    line.append(bracketed_text(&down).as_str());
    line
}

impl<R: Copy, E> MouseButtonsRun<R, E> {
    /// The run is waiting for an event like this one.
    pub open spec fn awaits(self, event: DiagEvent<R, E>) -> bool {
        match self.phase {
            Phase::Selecting => event is DeviceSelected || event is SelectFailed,
            Phase::On { task, .. } => match task {
                Task::ReadingProfiles => event is ProfilesRead || event is ProfilesUnavailable,
                Task::ReadingButtonCount => event is ButtonCountRead || event
                    is ButtonCountUnavailable,
                Task::Opening => event is SpyOpened || event is SpyOpenFailed,
                Task::Listening => event is ReceiverRegistered,
                Task::Starting => event is ReportingStarted || event is StartFailed,
                Task::Streaming => event is Spied || event is StreamClosed || event is EnterPressed
                    || event is CtrlC,
                Task::Stopping(_) => event is ReportingStopped || event is StopFailed,
            },
        }
    }

    /// What the run is doing on its device is `task`.
    pub open spec fn is_at(self, task: Task<E>) -> bool {
        self.phase matches Phase::On { task: current, .. } && current == task
    }

    /// The run at a task on the device that `route` leads to.
    pub open spec fn on(self, route: R, task: Task<E>) -> Self {
        MouseButtonsRun { watch: self.watch, stop: self.stop, phase: Phase::On { route, task } }
    }

    /// How the run goes on after an event that it awaits: the next task is on
    /// the device that was selected, and the request names that device.
    pub open spec fn next(self, event: DiagEvent<R, E>) -> DiagNext<R, E> {
        let selected = self.phase->route;
        match event {
            DiagEvent::DeviceSelected { route, .. } => if self.stop {
                DiagNext::Ask(self.on(route, Task::Opening), DiagRequest::OpenSpy(route))
            } else {
                DiagNext::Ask(
                    self.on(route, Task::ReadingProfiles),
                    DiagRequest::ReadOnboardProfiles(route),
                )
            },
            DiagEvent::SelectFailed(error) => DiagNext::Finished(Err(DiagError::Select(error))),
            DiagEvent::ProfilesRead(_) | DiagEvent::ProfilesUnavailable(_) => DiagNext::Ask(
                self.on(selected, Task::ReadingButtonCount),
                DiagRequest::ReadButtonCount(selected),
            ),
            DiagEvent::ButtonCountRead(_) => if self.watch {
                DiagNext::Ask(self.on(selected, Task::Opening), DiagRequest::OpenSpy(selected))
            } else {
                DiagNext::Finished(Ok(()))
            },
            DiagEvent::ButtonCountUnavailable(_) => DiagNext::Finished(
                if self.watch {
                    Err(DiagError::WatchUnsupported)
                } else {
                    Ok(())
                },
            ),
            DiagEvent::SpyOpened => if self.stop {
                DiagNext::Ask(
                    self.on(selected, Task::Stopping(StopCause::Recovery)),
                    DiagRequest::StopReporting(selected),
                )
            } else {
                DiagNext::Ask(self.on(selected, Task::Listening), DiagRequest::Listen(selected))
            },
            DiagEvent::SpyOpenFailed(error) => DiagNext::Finished(Err(DiagError::Open(error))),
            DiagEvent::ReceiverRegistered => DiagNext::Ask(
                self.on(selected, Task::Starting),
                DiagRequest::StartReporting(selected),
            ),
            DiagEvent::ReportingStarted | DiagEvent::Spied(_) => DiagNext::Ask(
                self.on(selected, Task::Streaming),
                DiagRequest::AwaitEvent(selected),
            ),
            DiagEvent::StartFailed(error) => DiagNext::Ask(
                self.on(selected, Task::Stopping(StopCause::StartFailed(error))),
                DiagRequest::StopReporting(selected),
            ),
            DiagEvent::StreamClosed | DiagEvent::EnterPressed | DiagEvent::CtrlC => DiagNext::Ask(
                self.on(selected, Task::Stopping(StopCause::Watched)),
                DiagRequest::StopReporting(selected),
            ),
            DiagEvent::ReportingStopped => DiagNext::Finished(
                match self.phase {
                    Phase::On { task: Task::Stopping(StopCause::StartFailed(error)), .. } => Err(
                        DiagError::Start(error),
                    ),
                    _ => Ok(()),
                },
            ),
            DiagEvent::StopFailed(stop_error) => DiagNext::Finished(
                match self.phase {
                    Phase::On { task: Task::Stopping(StopCause::StartFailed(error)), .. } => Err(
                        DiagError::Start(error),
                    ),
                    _ => Err(DiagError::Stop(stop_error)),
                },
            ),
        }
    }

    /// What the run prints on an event that it awaits.
    pub open spec fn printed(self, event: DiagEvent<R, E>) -> Seq<Seq<char>> {
        match event {
            DiagEvent::DeviceSelected { name, shown, .. } => seq![device_line(name@, shown@)],
            DiagEvent::ProfilesRead(info) => seq![profiles_line(info)],
            DiagEvent::ProfilesUnavailable(reason) => seq![profiles_unavailable_line(reason@)],
            DiagEvent::ButtonCountRead(count) => seq![button_count_line(count)],
            DiagEvent::ButtonCountUnavailable(reason) => seq![
                button_count_unavailable_line(reason@),
            ],
            DiagEvent::ReportingStarted => seq![
                "watching — press each physical button once, in isolation, then press Enter here (or Ctrl-C) to stop"@,
            ],
            DiagEvent::Spied(MouseButtonSpyEvent::Buttons(mask)) => seq![mask_line(mask)],
            DiagEvent::CtrlC => seq!["stopping spy"@],
            DiagEvent::ReportingStopped => if self.is_at(Task::Stopping(StopCause::Recovery)) {
                seq!["  0x8110 MouseButtonSpy: stopped"@]
            } else {
                Seq::empty()
            },
            _ => Seq::empty(),
        }
    }

    /// A run at its beginning.
    pub open spec fn fresh(watch: bool, stop: bool) -> Self {
        MouseButtonsRun { watch, stop, phase: Phase::Selecting }
    }

    /// Begins a run: a device with `0x8110` is selected first.
    pub fn start(args: MouseButtonsArgs) -> (begun: (Self, DiagRequest<R>))
        ensures
            begun.0 == Self::fresh(args.watch, args.stop),
            begun.1 matches DiagRequest::SelectDevice { device, features } && device == args.device
                && features@ == seq![FEATURE_ID],
    {
        let mut features: Vec<u16> = Vec::new();
        features.push(FEATURE_ID);
        assert(features@ =~= seq![FEATURE_ID]);
        (
            MouseButtonsRun { watch: args.watch, stop: args.stop, phase: Phase::Selecting },
            DiagRequest::SelectDevice { device: args.device, features },
        )
    }

    /// Whether the run is waiting for an event like this one.
    pub fn is_awaiting(&self, event: &DiagEvent<R, E>) -> (awaiting: bool)
        ensures
            awaiting == self.awaits(*event),
    {
        let task = match &self.phase {
            Phase::Selecting => {
                return match event {
                    DiagEvent::DeviceSelected { .. } => true,
                    DiagEvent::SelectFailed(_) => true,
                    _ => false,
                };
            },
            Phase::On { task, .. } => task,
        };
        match (task, event) {
            (Task::ReadingProfiles, DiagEvent::ProfilesRead(_)) => true,
            (Task::ReadingProfiles, DiagEvent::ProfilesUnavailable(_)) => true,
            (Task::ReadingButtonCount, DiagEvent::ButtonCountRead(_)) => true,
            (Task::ReadingButtonCount, DiagEvent::ButtonCountUnavailable(_)) => true,
            (Task::Opening, DiagEvent::SpyOpened) => true,
            (Task::Opening, DiagEvent::SpyOpenFailed(_)) => true,
            (Task::Listening, DiagEvent::ReceiverRegistered) => true,
            (Task::Starting, DiagEvent::ReportingStarted) => true,
            (Task::Starting, DiagEvent::StartFailed(_)) => true,
            (Task::Streaming, DiagEvent::Spied(_)) => true,
            (Task::Streaming, DiagEvent::StreamClosed) => true,
            (Task::Streaming, DiagEvent::EnterPressed) => true,
            (Task::Streaming, DiagEvent::CtrlC) => true,
            (Task::Stopping(_), DiagEvent::ReportingStopped) => true,
            (Task::Stopping(_), DiagEvent::StopFailed(_)) => true,
            _ => false,
        }
    }

    /// A run at a task.
    fn moved(watch: bool, stop: bool, route: R, task: Task<E>) -> (run: Self)
        ensures
            run == (MouseButtonsRun { watch, stop, phase: Phase::On { route, task } }),
    {
        MouseButtonsRun { watch, stop, phase: Phase::On { route, task } }
    }

    /// Goes on with the run.
    pub fn step(self, event: DiagEvent<R, E>) -> (step: DiagStep<R, E>)
        requires
            self.awaits(event),
        ensures
            step.next == self.next(event),
            line_texts(step.lines@) == self.printed(event),
    {
        match self.phase {
            Phase::Selecting => Self::step_selecting(self.watch, self.stop, event),
            Phase::On { route, task } => Self::step_on(self.watch, self.stop, route, task, event),
        }
    }

    /// Goes on once a device was asked for.
    fn step_selecting(watch: bool, stop: bool, event: DiagEvent<R, E>) -> (step: DiagStep<R, E>)
        requires
            Self::fresh(watch, stop).awaits(event),
        ensures
            step.next == Self::fresh(watch, stop).next(event),
            line_texts(step.lines@) == Self::fresh(watch, stop).printed(event),
    {
        let ghost handled = event;
        let mut lines: Vec<String> = Vec::new();
        let next = match event {
            DiagEvent::DeviceSelected { name, route, shown } => {
                lines.push(device_text(name.as_str(), shown.as_str()));
                if stop {
                    DiagNext::Ask(
                        Self::moved(watch, stop, route, Task::Opening),
                        DiagRequest::OpenSpy(route),
                    )
                } else {
                    DiagNext::Ask(
                        Self::moved(watch, stop, route, Task::ReadingProfiles),
                        DiagRequest::ReadOnboardProfiles(route),
                    )
                }
            },
            DiagEvent::SelectFailed(error) => DiagNext::Finished(Err(DiagError::Select(error))),
            _ => vstd::pervasive::unreached(),
        };
        assert(line_texts(lines@) =~= Self::fresh(watch, stop).printed(handled));
        DiagStep { lines, next }
    }

    /// Goes on with a task on the selected device.
    fn step_on(
        watch: bool,
        stop: bool,
        route: R,
        task: Task<E>,
        event: DiagEvent<R, E>,
    ) -> (step: DiagStep<R, E>)
        requires
            Self::fresh(watch, stop).on(route, task).awaits(event),
        ensures
            step.next == Self::fresh(watch, stop).on(route, task).next(event),
            line_texts(step.lines@) == Self::fresh(watch, stop).on(route, task).printed(event),
    {
        let ghost run = Self::fresh(watch, stop).on(route, task);
        let ghost handled = event;
        let mut lines: Vec<String> = Vec::new();
        let next = match event {
            DiagEvent::ProfilesRead(info) => {
                lines.push(profiles_text(&info));
                DiagNext::Ask(
                    Self::moved(watch, stop, route, Task::ReadingButtonCount),
                    DiagRequest::ReadButtonCount(route),
                )
            },
            DiagEvent::ProfilesUnavailable(reason) => {
                lines.push(
                    parenthesized("  0x8100 OnboardProfiles: not available (", reason.as_str()),
                );
                DiagNext::Ask(
                    Self::moved(watch, stop, route, Task::ReadingButtonCount),
                    DiagRequest::ReadButtonCount(route),
                )
            },
            DiagEvent::ButtonCountRead(count) => {
                let mut line = "  0x8110 MouseButtonSpy: button_count=".to_owned();
                line.append(decimal_text(count as u16).as_str());
                lines.push(line);
                if watch {
                    DiagNext::Ask(
                        Self::moved(watch, stop, route, Task::Opening),
                        DiagRequest::OpenSpy(route),
                    )
                } else {
                    DiagNext::Finished(Ok(()))
                }
            },
            DiagEvent::ButtonCountUnavailable(reason) => {
                lines.push(
                    parenthesized("  0x8110 MouseButtonSpy: not available (", reason.as_str()),
                );
                if watch {
                    DiagNext::Finished(Err(DiagError::WatchUnsupported))
                } else {
                    DiagNext::Finished(Ok(()))
                }
            },
            DiagEvent::SpyOpened => {
                if stop {
                    DiagNext::Ask(
                        Self::moved(watch, stop, route, Task::Stopping(StopCause::Recovery)),
                        DiagRequest::StopReporting(route),
                    )
                } else {
                    DiagNext::Ask(
                        Self::moved(watch, stop, route, Task::Listening),
                        DiagRequest::Listen(route),
                    )
                }
            },
            DiagEvent::SpyOpenFailed(error) => DiagNext::Finished(Err(DiagError::Open(error))),
            DiagEvent::ReceiverRegistered => DiagNext::Ask(
                Self::moved(watch, stop, route, Task::Starting),
                DiagRequest::StartReporting(route),
            ),
            DiagEvent::ReportingStarted => {
                lines.push(
                    "watching — press each physical button once, in isolation, then press Enter here (or Ctrl-C) to stop".to_owned(),
                );
                DiagNext::Ask(
                    Self::moved(watch, stop, route, Task::Streaming),
                    DiagRequest::AwaitEvent(route),
                )
            },
            DiagEvent::StartFailed(error) => DiagNext::Ask(
                Self::moved(watch, stop, route, Task::Stopping(StopCause::StartFailed(error))),
                DiagRequest::StopReporting(route),
            ),
            DiagEvent::Spied(MouseButtonSpyEvent::Buttons(mask)) => {
                lines.push(mask_text(mask));
                DiagNext::Ask(
                    Self::moved(watch, stop, route, Task::Streaming),
                    DiagRequest::AwaitEvent(route),
                )
            },
            DiagEvent::StreamClosed | DiagEvent::EnterPressed => DiagNext::Ask(
                Self::moved(watch, stop, route, Task::Stopping(StopCause::Watched)),
                DiagRequest::StopReporting(route),
            ),
            DiagEvent::CtrlC => {
                lines.push("stopping spy".to_owned());
                DiagNext::Ask(
                    Self::moved(watch, stop, route, Task::Stopping(StopCause::Watched)),
                    DiagRequest::StopReporting(route),
                )
            },
            DiagEvent::ReportingStopped => match task {
                Task::Stopping(StopCause::Recovery) => {
                    lines.push("  0x8110 MouseButtonSpy: stopped".to_owned());
                    DiagNext::Finished(Ok(()))
                },
                Task::Stopping(StopCause::StartFailed(error)) => DiagNext::Finished(
                    Err(DiagError::Start(error)),
                ),
                _ => DiagNext::Finished(Ok(())),
            },
            DiagEvent::StopFailed(stop_error) => match task {
                Task::Stopping(StopCause::StartFailed(error)) => DiagNext::Finished(
                    Err(DiagError::Start(error)),
                ),
                _ => DiagNext::Finished(Err(DiagError::Stop(stop_error))),
            },
            _ => vstd::pervasive::unreached(),
        };
        assert(line_texts(lines@) =~= run.printed(handled));
        DiagStep { lines, next }
    }
}

} // verus!
