//! The lifecycle of the reporting loop: what is published, when, and in what order.
//!
//! The loop itself is run by the caller: it performs the action that the state
//! machine hands out and reports how the action ended.

use crate::configuration::{announce_cycles, check_period, expire_cycles, valid_period, ConfigError};
use vstd::prelude::*;

verus! {

/// Seconds to wait after the first registration, before the first status.
pub const SETTLE_SECONDS: u64 = 1;

/// Seconds to wait after the last status, before leaving.
pub const GRACE_SECONDS: u64 = 1;

/// The phases of the reporting loop, in the order in which they are passed.
#[derive(Debug, Clone, Copy, PartialEq, Eq, Structural)]
pub enum Phase {
    /// The registration is announced for the first time
    Starting,
    /// The status is reported at each cycle
    Running,
    /// The monitor tells that it leaves
    Stopping,
    /// Nothing more is done
    Stopped,
}

/// What the caller has to do next.
#[derive(Debug, Clone, Copy, PartialEq, Eq, Structural)]
pub enum Action {
    /// Publish the registration descriptor to the discovery topic
    PublishRegistration,
    /// Wait for `SETTLE_SECONDS`
    Settle,
    /// Sample the metrics and publish the status to the state topic
    PublishStatus,
    /// Wait for the update period, or until the process is told to stop
    Sleep,
    /// Publish the status of a monitor that leaves to the state topic
    PublishOff,
    /// Wait for `GRACE_SECONDS`
    Grace,
    /// Leave the loop
    Exit,
}

/// How an action ended.
#[derive(Debug, Clone, Copy, PartialEq, Eq, Structural)]
pub enum Event {
    /// The message was published, or the time has passed
    Completed,
    /// The message could not be published
    Failed,
    /// The process was told to stop while it waited
    Cancelled,
}

/// The state of the reporting loop.
#[derive(Debug, Clone, Copy, PartialEq, Eq, Structural)]
pub struct ReportingLoop {
    /// The phase that the loop is in
    pub phase: Phase,
    /// The action that was handed out last and whose end is awaited
    pub pending: Action,
    /// Seconds between two reports
    pub period: u64,
    /// Cycles since the registration was last published
    pub cycles_counter: u64,
    /// Cycles after which the registration is published again
    pub expire_cycles: u64,
    /// Whether the loop was left because a message could not be published
    pub failed: bool,
}

impl Phase {
    /// The place of the phase in the order of the phases.
    pub open spec fn rank(self) -> int {
        match self {
            Phase::Starting => 0,
            Phase::Running => 1,
            Phase::Stopping => 2,
            Phase::Stopped => 3,
        }
    }
}

impl ReportingLoop {
    /// The loop before anything was done: the first registration is awaited.
    pub open spec fn initial(period: u64) -> ReportingLoop {
        ReportingLoop {
            phase: Phase::Starting,
            pending: Action::PublishRegistration,
            period,
            cycles_counter: 0,
            expire_cycles: announce_cycles(period) as u64,
            failed: false,
        }
    }

    /// The state is one that the loop can reach.
    pub open spec fn wf(self) -> bool {
        &&& valid_period(self.period)
        &&& self.expire_cycles == announce_cycles(self.period)
        &&& self.cycles_counter < self.expire_cycles
        &&& match self.phase {
            Phase::Starting => self.pending == Action::PublishRegistration || self.pending
                == Action::Settle,
            Phase::Running => self.pending == Action::PublishRegistration || self.pending
                == Action::PublishStatus || self.pending == Action::Sleep,
            Phase::Stopping => self.pending == Action::PublishOff || self.pending == Action::Grace,
            Phase::Stopped => self.pending == Action::Exit,
        }
        &&& self.failed ==> self.phase == Phase::Stopped
    }

    /// The loop at the start of a cycle: the counter goes on by one and wraps
    /// at `expire_cycles`; where it wraps the registration is published
    /// first, else the status at once.
    pub open spec fn begin_cycle(self) -> ReportingLoop {
        let counter = ((self.cycles_counter + 1) % (self.expire_cycles as int)) as u64;
        ReportingLoop {
            phase: Phase::Running,
            pending: if counter == 0 {
                Action::PublishRegistration
            } else {
                Action::PublishStatus
            },
            cycles_counter: counter,
            ..self
        }
    }

    /// The loop after a message could not be published while starting or running.
    pub open spec fn aborted(self) -> ReportingLoop {
        ReportingLoop { phase: Phase::Stopped, pending: Action::Exit, failed: true, ..self }
    }

    /// The loop after the pending action ended with `event`.
    pub open spec fn next(self, event: Event) -> ReportingLoop {
        match self.pending {
            Action::PublishRegistration => if event == Event::Failed {
                self.aborted()
            } else if self.phase == Phase::Starting {
                ReportingLoop { pending: Action::Settle, ..self }
            } else {
                ReportingLoop { pending: Action::PublishStatus, ..self }
            },
            Action::Settle => self.begin_cycle(),
            Action::PublishStatus => if event == Event::Failed {
                self.aborted()
            } else {
                ReportingLoop { pending: Action::Sleep, ..self }
            },
            Action::Sleep => if event == Event::Cancelled {
                ReportingLoop { phase: Phase::Stopping, pending: Action::PublishOff, ..self }
            } else {
                self.begin_cycle()
            },
            Action::PublishOff => ReportingLoop { pending: Action::Grace, ..self },
            Action::Grace => ReportingLoop { phase: Phase::Stopped, pending: Action::Exit, ..self },
            Action::Exit => self,
        }
    }

    /// Seconds that the pending action waits, for the actions that wait.
    pub open spec fn delay(self) -> Option<u64> {
        match self.pending {
            Action::Settle => Some(SETTLE_SECONDS),
            Action::Sleep => Some(self.period),
            Action::Grace => Some(GRACE_SECONDS),
            _ => None,
        }
    }

    /// Starts the loop for an update period of `period` seconds. A period
    /// that is not valid is refused, and nothing is published.
    pub fn start(period: u64) -> (r: Result<ReportingLoop, ConfigError>)
        ensures
            match r {
                Ok(state) => valid_period(period) && state == ReportingLoop::initial(period)
                    && state.wf(),
                Err(e) => !valid_period(period) && e == (if period == 0 {
                    ConfigError::ZeroPeriod
                } else {
                    ConfigError::PeriodTooLong
                }),
            },
    {
        match check_period(period) {
            Err(e) => Err(e),
            Ok(()) => Ok(Self::begin(period)),
        }
    }

    /// The loop for a valid update period of `period` seconds, before
    /// anything was done.
    pub fn begin(period: u64) -> (state: ReportingLoop)
        requires
            valid_period(period),
        ensures
            state == ReportingLoop::initial(period),
            state.wf(),
    {
        ReportingLoop {
            phase: Phase::Starting,
            pending: Action::PublishRegistration,
            period,
            cycles_counter: 0,
            expire_cycles: expire_cycles(period),
            failed: false,
        }
    }

    /// Takes note of how the pending action ended and returns the action to
    /// do next, which is pending from then on.
    pub fn advance(&mut self, event: Event) -> (action: Action)
        requires
            old(self).wf(),
        ensures
            final(self).wf(),
            *final(self) == old(self).next(event),
            action == final(self).pending,
    {
        match self.pending {
            Action::PublishRegistration => {
                if event == Event::Failed {
                    self.abort();
                } else if self.phase == Phase::Starting {
                    self.pending = Action::Settle;
                } else {
                    self.pending = Action::PublishStatus;
                }
            },
            Action::Settle => {
                self.enter_cycle();
            },
            Action::PublishStatus => {
                if event == Event::Failed {
                    self.abort();
                } else {
                    self.pending = Action::Sleep;
                }
            },
            Action::Sleep => {
                if event == Event::Cancelled {
                    self.phase = Phase::Stopping;
                    self.pending = Action::PublishOff;
                } else {
                    self.enter_cycle();
                }
            },
            Action::PublishOff => {
                self.pending = Action::Grace;
            },
            Action::Grace => {
                self.phase = Phase::Stopped;
                self.pending = Action::Exit;
            },
            Action::Exit => {},
        }
        self.pending
    }

    /// Leaves the loop after a message could not be published.
    fn abort(&mut self)
        ensures
            *final(self) == old(self).aborted(),
    {
        self.phase = Phase::Stopped;
        self.pending = Action::Exit;
        self.failed = true;
    }

    /// Starts the next cycle.
    fn enter_cycle(&mut self)
        requires
            old(self).expire_cycles >= 1,
            old(self).cycles_counter < old(self).expire_cycles,
        ensures
            *final(self) == old(self).begin_cycle(),
            final(self).cycles_counter < final(self).expire_cycles,
    {
        let counter: u64 = (self.cycles_counter + 1) % self.expire_cycles;
        self.phase = Phase::Running;
        self.cycles_counter = counter;
        self.pending = if counter == 0 {
            Action::PublishRegistration
        } else {
            Action::PublishStatus
        };
    }

    /// Seconds to wait for the pending action, or `None` where it does not wait.
    pub fn wait_seconds(&self) -> (seconds: Option<u64>)
        ensures
            seconds == self.delay(),
    {
        match self.pending {
            Action::Settle => Some(SETTLE_SECONDS),
            Action::Sleep => Some(self.period),
            Action::Grace => Some(GRACE_SECONDS),
            _ => None,
        }
    }

    /// Whether the loop has ended.
    pub fn is_stopped(&self) -> (stopped: bool)
        ensures
            stopped == (self.phase == Phase::Stopped),
    {
        self.phase == Phase::Stopped
    }

    /// The loop never goes back to an earlier phase, and every state that it
    /// reaches is well formed.
    pub proof fn lemma_phases_in_order(self, event: Event)
        requires
            self.wf(),
        ensures
            self.next(event).wf(),
            self.next(event).phase.rank() >= self.phase.rank(),
            self.next(event).period == self.period,
            self.next(event).expire_cycles == self.expire_cycles,
    {
    }

    /// Once stopped, the loop stays as it is and only hands out `Exit`.
    pub proof fn lemma_stopped_is_terminal(self, event: Event)
        requires
            self.wf(),
            self.phase == Phase::Stopped,
        ensures
            self.next(event) == self,
            self.next(event).pending == Action::Exit,
    {
    }

    /// A message that cannot be published while starting or running ends the
    /// loop at once: nothing more is published.
    pub proof fn lemma_failure_is_fatal(self)
        requires
            self.wf(),
            self.phase == Phase::Starting || self.phase == Phase::Running,
            self.pending == Action::PublishRegistration || self.pending == Action::PublishStatus,
        ensures
            self.next(Event::Failed).phase == Phase::Stopped,
            self.next(Event::Failed).pending == Action::Exit,
            self.next(Event::Failed).failed,
    {
    }

    /// When the process is told to stop while the loop sleeps, the next
    /// message is the status of a monitor that leaves; then the loop waits
    /// for the grace delay and ends, whether or not that message went out.
    pub proof fn lemma_shutdown(self, sent: Event, waited: Event)
        requires
            self.wf(),
            self.pending == Action::Sleep,
        ensures
            self.next(Event::Cancelled).phase == Phase::Stopping,
            self.next(Event::Cancelled).pending == Action::PublishOff,
            self.next(Event::Cancelled).next(sent).pending == Action::Grace,
            self.next(Event::Cancelled).next(sent).delay() == Some(GRACE_SECONDS),
            self.next(Event::Cancelled).next(sent).next(waited).phase == Phase::Stopped,
            !self.next(Event::Cancelled).next(sent).next(waited).failed,
    {
    }

    /// A cycle of the running loop: the counter goes on by one modulo
    /// `expire_cycles`; the registration is published again exactly when the
    /// counter is back at zero; the status is published in every cycle, and
    /// then the loop sleeps for the update period.
    pub proof fn lemma_cycle(self, event: Event)
        requires
            self.wf(),
            self.pending == Action::Sleep || self.pending == Action::Settle,
            event != Event::Cancelled || self.pending == Action::Settle,
        ensures
            self.next(event).phase == Phase::Running,
            self.next(event).cycles_counter == (self.cycles_counter + 1) % (
            self.expire_cycles as int),
            self.next(event).pending == Action::PublishRegistration <==> self.next(
                event,
            ).cycles_counter == 0,
            self.next(event).pending != Action::PublishRegistration ==> self.next(event).pending
                == Action::PublishStatus,
            self.next(event).pending == Action::PublishRegistration ==> self.next(event).next(
                Event::Completed,
            ).pending == Action::PublishStatus,
            self.next(event).status_step().pending == Action::PublishStatus,
            self.next(event).status_step().next(Event::Completed).pending == Action::Sleep,
            self.next(event).status_step().next(Event::Completed).delay() == Some(self.period),
    {
    }

    /// The loop at the point of a cycle where the status is published: after
    /// the registration went out, where the cycle starts with it.
    pub open spec fn status_step(self) -> ReportingLoop {
        if self.pending == Action::PublishRegistration {
            self.next(Event::Completed)
        } else {
            self
        }
    }

    /// The first steps of the loop: the registration is published, and after
    /// the settle delay the first cycle starts.
    pub proof fn lemma_startup(period: u64, waited: Event)
        requires
            valid_period(period),
        ensures
            ReportingLoop::initial(period).wf(),
            ReportingLoop::initial(period).pending == Action::PublishRegistration,
            ReportingLoop::initial(period).next(Event::Completed).pending == Action::Settle,
            ReportingLoop::initial(period).next(Event::Completed).delay() == Some(SETTLE_SECONDS),
            ReportingLoop::initial(period).next(Event::Completed).next(waited).phase
                == Phase::Running,
    {
        crate::configuration::lemma_valid_period(period);
    }
}

} // verus!
