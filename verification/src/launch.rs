//! The orbit controller: the order of the steps of a launch.
//!
//! A launch starts the listener for the shutdown signal, runs the liftoff
//! hooks, serves until the signal is observed, and then drains. The listener
//! is started before the liftoff hooks run, so that a signal given during
//! liftoff is not lost: it is kept, and the drain starts in place of serving.
//! A fault of liftoff starts the drain at once.
//!
//! The controller decides what is done next; doing it, and reporting what
//! happened, is the caller's work.

use crate::config::ShutdownConfig;
use crate::shutdown::{Drain, Stage, Step};
use vstd::prelude::*;

verus! {

/// Where a launch stands.
#[derive(Clone, Copy, Debug, PartialEq, Eq, Structural)]
pub enum Flight {
    /// The instance is in orbit; nothing was started.
    Grounded,
    /// The listener for the shutdown signal is being started.
    Listening,
    /// The liftoff hooks run.
    Lifting,
    /// The instance serves.
    Serving,
    /// The instance is drained.
    Draining,
    /// The launch is over.
    Landed,
}

/// What happened.
#[derive(Clone, Copy, Debug, PartialEq, Eq, Structural)]
pub enum Event {
    /// The launch is to begin.
    Launch,
    /// The listener for the shutdown signal is started.
    Listening,
    /// All liftoff hooks have ended; `fault` says whether liftoff failed in
    /// a way that could not be kept to one hook.
    Lifted { fault: bool },
    /// The shutdown signal was observed.
    Signal,
    /// The references to the instance were counted; `unique` says whether
    /// it is uniquely owned.
    Polled { unique: bool },
}

/// What is to be done next.
#[derive(Clone, Copy, Debug, PartialEq, Eq, Structural)]
pub enum Action {
    /// Nothing: the event changes nothing that is to be done.
    Nothing,
    /// Start the listener for the shutdown signal, then report `Listening`.
    Listen,
    /// Run the liftoff hooks, all at once, and report `Lifted` when all
    /// have ended.
    Liftoff,
    /// Serve, and report `Signal` when the shutdown signal is observed.
    Serve,
    /// Start the shutdown hooks without waiting for them, count the
    /// references and report `Polled`.
    Shutdown,
    /// Wait for so many microseconds, then count the references and report
    /// `Polled`.
    Wait(u64),
    /// The launch is over. `quiesced` says whether the instance is
    /// uniquely owned, `fault` whether liftoff failed.
    Land { quiesced: bool, fault: bool },
}

/// The controller of one launch.
#[derive(Clone, Copy, Debug, PartialEq, Eq, Structural)]
pub struct Controller {
    /// Where the launch stands.
    pub flight: Flight,
    /// Whether the shutdown signal was observed before serving began.
    pub signalled: bool,
    /// Whether liftoff failed.
    pub fault: bool,
    /// The coordinator of the drain.
    pub drain: Drain,
}

impl Controller {
    /// The controller after `event`, and what is to be done next.
    pub open spec fn step(self, event: Event) -> (Controller, Action) {
        match (self.flight, event) {
            (Flight::Grounded, Event::Launch) => (
                Controller { flight: Flight::Listening, ..self },
                Action::Listen,
            ),
            (Flight::Listening, Event::Listening) => (
                Controller { flight: Flight::Lifting, ..self },
                Action::Liftoff,
            ),
            (Flight::Lifting, Event::Lifted { fault }) => if fault || self.signalled {
                (
                    Controller {
                        flight: Flight::Draining,
                        fault,
                        drain: self.drain.signalled(),
                        ..self
                    },
                    Action::Shutdown,
                )
            } else {
                (Controller { flight: Flight::Serving, ..self }, Action::Serve)
            },
            (Flight::Grounded, Event::Signal) | (Flight::Listening, Event::Signal) | (
                Flight::Lifting,
                Event::Signal,
            ) => (Controller { signalled: true, ..self }, Action::Nothing),
            (Flight::Serving, Event::Signal) => (
                Controller { flight: Flight::Draining, drain: self.drain.signalled(), ..self },
                Action::Shutdown,
            ),
            (Flight::Draining, Event::Polled { unique }) => {
                let (drain, step) = self.drain.polled(unique);
                match step {
                    Step::Wait(t) => (Controller { drain, ..self }, Action::Wait(t)),
                    Step::Quiesced => (
                        Controller { flight: Flight::Landed, drain, ..self },
                        Action::Land { quiesced: true, fault: self.fault },
                    ),
                    Step::TimedOut => (
                        Controller { flight: Flight::Landed, drain, ..self },
                        Action::Land { quiesced: false, fault: self.fault },
                    ),
                    Step::Serve => (self, Action::Nothing),
                }
            },
            _ => (self, Action::Nothing),
        }
    }

    /// The controller is one that `new` and `next` can give: it drains
    /// exactly while its coordinator does, and has landed exactly when the
    /// drain has ended.
    pub open spec fn coherent(self) -> bool {
        &&& self.flight == Flight::Draining <==> self.drain.stage == Stage::Draining
        &&& self.flight == Flight::Landed <==> self.drain.ended()
        &&& self.fault ==> self.flight == Flight::Draining || self.flight == Flight::Landed
    }

    /// A controller for a launch with the periods of `config`: nothing was
    /// started.
    pub fn new(config: ShutdownConfig) -> (r: Controller)
        ensures
            r == (Controller {
                flight: Flight::Grounded,
                signalled: false,
                fault: false,
                drain: Drain { stage: Stage::Running, waited: 0, config },
            }),
            r.coherent(),
    {
        Controller {
            flight: Flight::Grounded,
            signalled: false,
            fault: false,
            drain: Drain::new(config),
        }
    }

    /// Takes `event` in and says what is to be done next.
    pub fn next(&mut self, event: Event) -> (action: Action)
        ensures
            (*final(self), action) == old(self).step(event),
    {
        match (self.flight, event) {
            (Flight::Grounded, Event::Launch) => {
                self.flight = Flight::Listening;
                Action::Listen
            },
            (Flight::Listening, Event::Listening) => {
                self.flight = Flight::Lifting;
                Action::Liftoff
            },
            (Flight::Lifting, Event::Lifted { fault }) => {
                if fault || self.signalled {
                    self.flight = Flight::Draining;
                    self.fault = fault;
                    let mut drain = self.drain;
                    drain.signal();
                    self.drain = drain;
                    Action::Shutdown
                } else {
                    self.flight = Flight::Serving;
                    Action::Serve
                }
            },
            (Flight::Grounded, Event::Signal) | (Flight::Listening, Event::Signal) | (
                Flight::Lifting,
                Event::Signal,
            ) => {
                self.signalled = true;
                Action::Nothing
            },
            (Flight::Serving, Event::Signal) => {
                self.flight = Flight::Draining;
                let mut drain = self.drain;
                drain.signal();
                self.drain = drain;
                Action::Shutdown
            },
            (Flight::Draining, Event::Polled { unique }) => {
                let mut drain = self.drain;
                let step = drain.poll(unique);
                match step {
                    Step::Wait(t) => {
                        self.drain = drain;
                        Action::Wait(t)
                    },
                    Step::Quiesced => {
                        self.flight = Flight::Landed;
                        self.drain = drain;
                        Action::Land { quiesced: true, fault: self.fault }
                    },
                    Step::TimedOut => {
                        self.flight = Flight::Landed;
                        self.drain = drain;
                        Action::Land { quiesced: false, fault: self.fault }
                    },
                    Step::Serve => Action::Nothing,
                }
            },
            _ => Action::Nothing,
        }
    }
}

/// Every step keeps a controller coherent.
pub proof fn lemma_step_keeps_coherent(c: Controller, event: Event)
    requires
        c.coherent(),
    ensures
        c.step(event).0.coherent(),
        c.step(event).0.drain.config == c.drain.config,
{
}

/// The liftoff hooks run only once the listener for the shutdown signal is
/// started, and the listener is started first of all: `Liftoff` is the
/// answer to `Listening` alone, and `Listen` to `Launch` on a launch where
/// nothing was started.
pub proof fn lemma_listener_before_liftoff(c: Controller, event: Event)
    ensures
        c.step(event).1 == Action::Liftoff ==> c.flight == Flight::Listening && event
            == Event::Listening,
        c.step(event).1 == Action::Listen ==> c.flight == Flight::Grounded && event
            == Event::Launch,
        c.step(event).0.flight == Flight::Lifting ==> c.flight == Flight::Lifting
            || c.flight == Flight::Listening,
        c.step(event).0.flight == Flight::Listening ==> c.flight == Flight::Listening
            || c.flight == Flight::Grounded,
{
}

/// Serving begins only when all liftoff hooks have ended without a fault
/// and no shutdown signal was observed before.
pub proof fn lemma_serving_follows_liftoff(c: Controller, event: Event)
    ensures
        c.step(event).1 == Action::Serve ==> c.flight == Flight::Lifting && !c.signalled && event
            == (Event::Lifted { fault: false }),
{
}

/// A shutdown signal that is observed before serving begins is not lost:
/// when liftoff has ended the drain starts in place of serving.
pub proof fn lemma_early_signal_is_kept(c: Controller, event: Event, fault: bool)
    requires
        c.coherent(),
        c.flight == Flight::Grounded || c.flight == Flight::Listening || c.flight
            == Flight::Lifting,
    ensures
        c.step(Event::Signal).0.signalled,
        c.step(Event::Signal).0.flight == c.flight,
        c.signalled ==> c.step(event).0.signalled,
        c.signalled && c.flight == Flight::Lifting ==> c.step(Event::Lifted { fault }).1
            == Action::Shutdown && c.step(Event::Lifted { fault }).0.flight == Flight::Draining,
{
}

/// The shutdown signal is idempotent: observed a second time it changes
/// nothing and asks for nothing.
pub proof fn lemma_second_signal_is_no_op(c: Controller)
    ensures
        c.step(Event::Signal).0.step(Event::Signal) == (c.step(Event::Signal).0, Action::Nothing),
{
}

/// A fault of liftoff starts the drain at once, and the launch lands with
/// that fault however the drain ends.
pub proof fn lemma_fault_drains(c: Controller, unique: bool)
    requires
        c.coherent(),
    ensures
        c.flight == Flight::Lifting ==> c.step(Event::Lifted { fault: true }).1
            == Action::Shutdown && c.step(Event::Lifted { fault: true }).0.fault,
        c.step(Event::Polled { unique }).1 matches Action::Land { fault, .. } ==> fault == c.fault,
        c.step(Event::Polled { unique }).0.fault == c.fault,
{
}

/// During a drain the controller answers as the coordinator of the drain
/// does, and the launch lands as quiesced exactly when the instance is
/// found uniquely owned.
pub proof fn lemma_drain_follows_coordinator(c: Controller, unique: bool)
    requires
        c.coherent(),
        c.flight == Flight::Draining,
    ensures
        c.step(Event::Polled { unique }).0.drain == c.drain.polled(unique).0,
        unique ==> c.step(Event::Polled { unique }).1 == (Action::Land {
            quiesced: true,
            fault: c.fault,
        }),
        c.step(Event::Polled { unique }).1 matches Action::Land { quiesced, .. } ==> quiesced
            == unique,
{
}

/// A launch that has landed stays landed, whatever happens.
pub proof fn lemma_landed_is_final(c: Controller, event: Event)
    requires
        c.flight == Flight::Landed,
    ensures
        c.step(event) == (c, Action::Nothing),
{
}

} // verus!
