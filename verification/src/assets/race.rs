//! Arbitration between the built-in sources' probes.
//!
//! Production wins over a same-race pinned-mirror answer as long as it reports
//! in within [`PRODUCTION_GRACE_NANOS`]: Pages and jsDelivr are frozen at one
//! asset release, so letting either win a pure speed race would let a stale
//! catalog silently beat a healthy, more current Production.
//!
//! The race is a state machine. Whoever runs the probes waits for the next
//! report, for as long as [`SourceRace::wait_limit`] says, and hands what came
//! of the wait to [`race_sources`].

use vstd::prelude::*;

use super::error::AssetError;
use super::source::BuiltInSource;

verus! {

/// How long a pinned-version mirror's success waits for the mutable
/// Production endpoint before it is used, in nanoseconds.
///
/// The window absorbs the ordinary latency gap between the mirrors' edge
/// caches and Production's custom domain, while staying short enough that a
/// genuine Production outage still falls back close to instantly.
pub const PRODUCTION_GRACE_NANOS: u64 = 1_200_000_000;

/// What one wait for a probe report ended in.
pub enum RaceEvent<T> {
    /// The probe of a source answered.
    Reported(BuiltInSource, Result<T, AssetError>),
    /// The deadline passed without a report.
    TimedOut,
    /// No probe is left that could report.
    Disconnected,
}

/// Which source answered, or why none did.
pub enum RaceOutcome<T> {
    /// This source's probe succeeded and should supply the registry.
    Use(BuiltInSource, T),
    /// Every built-in source's probe failed.
    AllFailed {
        production: Box<AssetError>,
        pages: Box<AssetError>,
        jsdelivr: Box<AssetError>,
    },
    /// The probes went away before a winner was selected.
    Interrupted,
}

/// What the reports so far amount to.
pub struct SourceRace<T> {
    /// The latest failure of Production.
    pub production_error: Option<AssetError>,
    /// The latest failure of Pages.
    pub pages_error: Option<AssetError>,
    /// The latest failure of jsDelivr.
    pub jsdelivr_error: Option<AssetError>,
    /// The pinned mirror's success that is waiting for Production.
    pub fallback: Option<(BuiltInSource, T)>,
    /// When that wait ends, in nanoseconds on the caller's clock.
    pub deadline: Option<u64>,
}

/// What to do after a report.
pub enum RaceStep<T> {
    /// Wait for the next report.
    Wait(SourceRace<T>),
    /// The race is decided.
    Finish(RaceOutcome<T>),
}

impl<T> SourceRace<T> {
    /// A race in which nothing has been reported.
    pub open spec fn fresh() -> Self {
        SourceRace {
            production_error: None,
            pages_error: None,
            jsdelivr_error: None,
            fallback: None,
            deadline: None,
        }
    }

    /// Every built-in source has failed.
    pub open spec fn all_failed(self) -> bool {
        self.production_error is Some && self.pages_error is Some && self.jsdelivr_error is Some
    }

    /// The outcome when nothing more is waited for.
    pub open spec fn settled(self) -> RaceOutcome<T> {
        if let Some((source, probe)) = self.fallback {
            RaceOutcome::Use(source, probe)
        } else if self.all_failed() {
            RaceOutcome::AllFailed {
                production: Box::new(self.production_error->0),
                pages: Box::new(self.pages_error->0),
                jsdelivr: Box::new(self.jsdelivr_error->0),
            }
        } else {
            RaceOutcome::Interrupted
        }
    }

    /// The race with one more failure noted.
    pub open spec fn noting(self, source: BuiltInSource, error: AssetError) -> Self {
        match source {
            BuiltInSource::Production => SourceRace { production_error: Some(error), ..self },
            BuiltInSource::Pages => SourceRace { pages_error: Some(error), ..self },
            BuiltInSource::JsDelivr => SourceRace { jsdelivr_error: Some(error), ..self },
        }
    }

    /// What holds of every race that is still waiting: a deadline is set
    /// exactly while a fallback waits for Production, Production has then not
    /// failed, and some source has not failed.
    pub open spec fn wf(self) -> bool {
        &&& self.deadline is Some <==> self.fallback is Some
        &&& !(self.fallback is Some && self.production_error is Some)
        &&& !self.all_failed()
        &&& self.fallback matches Some((source, _)) ==> source != BuiltInSource::Production
    }

    /// Starts a race.
    pub fn new() -> (race: Self)
        ensures
            race == SourceRace::<T>::fresh(),
            race.wf(),
    {
        SourceRace {
            production_error: None,
            pages_error: None,
            jsdelivr_error: None,
            fallback: None,
            deadline: None,
        }
    }

    /// How long to wait for the next report: without end while no pinned
    /// mirror has answered, else what is left until the deadline.
    pub fn wait_limit(&self, now: u64) -> (limit: Option<u64>)
        ensures
            limit == match self.deadline {
                None => None::<u64>,
                Some(deadline) => Some(
                    if now <= deadline {
                        (deadline - now) as u64
                    } else {
                        0u64
                    },
                ),
            },
    {
        match self.deadline {
            None => None,
            Some(deadline) => Some(deadline.saturating_sub(now)),
        }
    }

    /// Ends a race with what it has.
    fn settle(self) -> (outcome: RaceOutcome<T>)
        ensures
            outcome == self.settled(),
    {
        if let Some((source, probe)) = self.fallback {
            return RaceOutcome::Use(source, probe);
        }
        match (self.production_error, self.pages_error, self.jsdelivr_error) {
            (Some(production), Some(pages), Some(jsdelivr)) => RaceOutcome::AllFailed {
                production: Box::new(production),
                pages: Box::new(pages),
                jsdelivr: Box::new(jsdelivr),
            },
            _ => RaceOutcome::Interrupted,
        }
    }
}

/// The event makes a pinned mirror's success wait for Production.
pub open spec fn arms_deadline<T>(race: SourceRace<T>, event: RaceEvent<T>) -> bool {
    &&& event matches RaceEvent::Reported(source, Ok(_)) && source != BuiltInSource::Production
    &&& race.production_error is None
    &&& race.fallback is None
}

/// The rule of the race, report by report.
///
/// Production wins at once. A pinned mirror wins at once when Production is
/// known to have failed; otherwise the first one to answer is kept as the
/// fallback until Production fails, the deadline passes or the probes are
/// gone.
pub open spec fn race_step<T>(
    race: SourceRace<T>,
    event: RaceEvent<T>,
    now: u64,
    grace: u64,
) -> RaceStep<T> {
    match event {
        RaceEvent::TimedOut => RaceStep::Finish(race.settled()),
        RaceEvent::Disconnected => RaceStep::Finish(
            if race.fallback is Some {
                race.settled()
            } else {
                RaceOutcome::Interrupted
            },
        ),
        RaceEvent::Reported(source, Ok(probe)) => {
            if source == BuiltInSource::Production || race.production_error is Some {
                RaceStep::Finish(RaceOutcome::Use(source, probe))
            } else if race.fallback is Some {
                RaceStep::Wait(race)
            } else {
                RaceStep::Wait(
                    SourceRace {
                        fallback: Some((source, probe)),
                        deadline: Some((now + grace) as u64),
                        ..race
                    },
                )
            }
        },
        RaceEvent::Reported(source, Err(error)) => {
            let noted = race.noting(source, error);
            if noted.all_failed() || (source == BuiltInSource::Production
                && race.fallback is Some) {
                RaceStep::Finish(noted.settled())
            } else {
                RaceStep::Wait(noted)
            }
        },
    }
}

/// Arbitrates the three probes' results, one report at a time.
///
/// `now` is the caller's clock and `grace` how long a pinned mirror's success
/// waits for Production, both in nanoseconds. A race that was well formed
/// stays so.
pub fn race_sources<T>(
    race: SourceRace<T>,
    event: RaceEvent<T>,
    now: u64,
    grace: u64,
) -> (step: RaceStep<T>)
    requires
        arms_deadline(race, event) ==> now + grace <= u64::MAX,
    ensures
        step == race_step(race, event, now, grace),
        race.wf() ==> (step matches RaceStep::Wait(next) ==> next.wf()),
{
    let mut race = race;
    match event {
        RaceEvent::TimedOut => RaceStep::Finish(race.settle()),
        RaceEvent::Disconnected => {
            if race.fallback.is_some() {
                RaceStep::Finish(race.settle())
            } else {
                RaceStep::Finish(RaceOutcome::Interrupted)
            }
        },
        RaceEvent::Reported(source, Ok(probe)) => {
            if source == BuiltInSource::Production || race.production_error.is_some() {
                return RaceStep::Finish(RaceOutcome::Use(source, probe));
            }
            if race.fallback.is_none() {
                race.fallback = Some((source, probe));
                race.deadline = Some(now + grace);
            }
            RaceStep::Wait(race)
        },
        RaceEvent::Reported(source, Err(error)) => {
            match source {
                BuiltInSource::Production => {
                    race.production_error = Some(error);
                    if race.fallback.is_some() {
                        return RaceStep::Finish(race.settle());
                    }
                },
                BuiltInSource::Pages => {
                    race.pages_error = Some(error);
                },
                BuiltInSource::JsDelivr => {
                    race.jsdelivr_error = Some(error);
                },
            }
            if race.production_error.is_some() && race.pages_error.is_some()
                && race.jsdelivr_error.is_some() {
                RaceStep::Finish(race.settle())
            } else {
                RaceStep::Wait(race)
            }
        },
    }
}

} // verus!
