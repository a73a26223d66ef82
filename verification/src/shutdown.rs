//! Graceful shutdown: the signal, and the schedule by which a running
//! instance is drained.
//!
//! A drain starts when the shutdown signal is observed. It then waits
//! through five intervals: a short pause to settle, the grace period, a short
//! pause, the mercy period and a last pause. Before each wait, and after the
//! last, it asks whether the instance is uniquely owned, that is, whether every
//! task that shared it has let go. If so the drain ends at once; if references
//! are left after the last wait, it ends as timed out.
//!
//! The coordinator decides; waiting and counting references is the caller's
//! work.

use crate::config::ShutdownConfig;
use std::sync::atomic::AtomicBool;
use std::sync::Arc;
use vstd::prelude::*;

verus! {

/// A handle on the shutdown signal of one instance. Every copy signals and
/// observes the same signal. Once given, the signal stays: it is never taken
/// back. So a handle remembers that it has given the signal or seen it given,
/// and from then on answers without asking again.
pub struct Shutdown {
    wire: Arc<AtomicBool>,
    seen: bool,
}

impl Clone for Shutdown {
    /// Another handle on the same signal, which has seen what this one has.
    fn clone(&self) -> (r: Shutdown)
        ensures
            r == *self,
    {
        Shutdown { wire: self.wire.clone(), seen: self.seen }
    }
}

impl Shutdown {
    /// The signal that the handle is on.
    pub closed spec fn signal(&self) -> Arc<AtomicBool> {
        self.wire
    }

    /// The handle has given the signal or has seen it given.
    pub closed spec fn observed(&self) -> bool {
        self.seen
    }

    /// A handle on a new signal. It has not given the signal and has not
    /// seen it given.
    pub fn new() -> (r: Shutdown)
        ensures
            !r.observed(),
    {
        Shutdown { wire: Arc::new(AtomicBool::new(false)), seen: false }
    }

    /// Gives the signal. The result says whether this call was the one that
    /// gave it: a call on a signal that was given already changes nothing.
    /// From now on the handle has observed the signal, so that a second call
    /// through it is such a call: it gives `false`.
    pub fn notify(&mut self) -> (first: bool)
        ensures
            final(self).observed(),
            final(self).signal() == old(self).signal(),
            old(self).observed() ==> !first,
    {
        if self.seen {
            return false;
        }
        let given = self.wire.swap(true, std::sync::atomic::Ordering::SeqCst);
        self.seen = true;
        !given
    }

    /// Whether the signal was given. A handle that has observed the signal
    /// says so again; one that has not asks, and remembers the answer if the
    /// signal was given.
    pub fn notified(&mut self) -> (given: bool)
        ensures
            given == final(self).observed(),
            final(self).signal() == old(self).signal(),
            old(self).observed() ==> given,
    {
        if self.seen {
            return true;
        }
        let given = self.wire.load(std::sync::atomic::Ordering::SeqCst);
        self.seen = given;
        given
    }
}

/// The length, in microseconds, of the short pauses of a drain.
pub const PAUSE: u64 = 250;

/// The length, in microseconds, of the last pause of a drain.
pub const LAST_PAUSE: u64 = 1000;

/// The number of microseconds in a second.
pub const MICROS: u64 = 1000000;

/// The number of intervals of a drain.
pub const INTERVALS: u8 = 5;

/// Where the coordinator stands.
#[derive(Clone, Copy, Debug, PartialEq, Eq, Structural)]
pub enum Stage {
    /// The instance serves; no shutdown was signalled.
    Running,
    /// The signal was observed; the drain goes through its intervals.
    Draining,
    /// The instance is uniquely owned: the drain succeeded.
    Quiesced,
    /// References were left after the last interval.
    TimedOut,
}

/// What the caller is to do next.
#[derive(Clone, Copy, Debug, PartialEq, Eq, Structural)]
pub enum Step {
    /// Go on serving: no shutdown was signalled.
    Serve,
    /// Wait for so many microseconds, then ask again.
    Wait(u64),
    /// The drain succeeded: take the instance back.
    Quiesced,
    /// The drain timed out: report the instance as still shared.
    TimedOut,
}

/// The length, in microseconds, of the interval with number `k` of a drain
/// with the periods of `config`: a pause, the grace period, a pause, the
/// mercy period, the last pause.
pub open spec fn interval(config: ShutdownConfig, k: int) -> int {
    if k == 0 || k == 2 {
        PAUSE as int
    } else if k == 1 {
        config.grace * MICROS
    } else if k == 3 {
        config.mercy * MICROS
    } else {
        LAST_PAUSE as int
    }
}

/// The length of a whole drain, in microseconds.
pub open spec fn schedule(config: ShutdownConfig) -> int {
    interval(config, 0) + interval(config, 1) + interval(config, 2) + interval(config, 3)
        + interval(config, 4)
}

/// The shutdown coordinator of one launch.
#[derive(Clone, Copy, Debug, PartialEq, Eq, Structural)]
pub struct Drain {
    /// Where the coordinator stands.
    pub stage: Stage,
    /// The number of intervals that were handed out.
    pub waited: u8,
    /// The periods.
    pub config: ShutdownConfig,
}

impl Drain {
    /// The coordinator after the shutdown signal: a running one starts to
    /// drain, any other is left as it is.
    pub open spec fn signalled(self) -> Drain {
        if self.stage == Stage::Running {
            Drain { stage: Stage::Draining, waited: 0, ..self }
        } else {
            self
        }
    }

    /// The coordinator after it was asked, and its answer; `unique` says
    /// whether the instance is uniquely owned.
    pub open spec fn polled(self, unique: bool) -> (Drain, Step) {
        match self.stage {
            Stage::Running => (self, Step::Serve),
            Stage::Draining => if unique {
                (Drain { stage: Stage::Quiesced, ..self }, Step::Quiesced)
            } else if self.waited < INTERVALS {
                (
                    Drain { waited: (self.waited + 1) as u8, ..self },
                    Step::Wait(interval(self.config, self.waited as int) as u64),
                )
            } else {
                (Drain { stage: Stage::TimedOut, ..self }, Step::TimedOut)
            },
            Stage::Quiesced => (self, Step::Quiesced),
            Stage::TimedOut => (self, Step::TimedOut),
        }
    }

    /// The drain has ended, one way or the other.
    pub open spec fn ended(self) -> bool {
        self.stage == Stage::Quiesced || self.stage == Stage::TimedOut
    }

    /// The coordinator after it was asked once for each answer of `answers`,
    /// and the time that it asked to wait in all.
    pub open spec fn run(self, answers: Seq<bool>) -> (Drain, int)
        decreases answers.len(),
    {
        if answers.len() == 0 {
            (self, 0)
        } else {
            let (before, waited) = self.run(answers.drop_last());
            let (after, step) = before.polled(answers.last());
            match step {
                Step::Wait(t) => (after, waited + t),
                _ => (after, waited),
            }
        }
    }

    /// The time that was asked to wait for the first `waited` intervals.
    pub open spec fn elapsed(config: ShutdownConfig, waited: int) -> int
        decreases waited,
    {
        if waited <= 0 {
            0
        } else {
            Drain::elapsed(config, waited - 1) + interval(config, waited - 1)
        }
    }

    /// A coordinator for a launch with the periods of `config`: running.
    pub fn new(config: ShutdownConfig) -> (r: Drain)
        ensures
            r == (Drain { stage: Stage::Running, waited: 0, config }),
    {
        Drain { stage: Stage::Running, waited: 0, config }
    }

    /// Observes the shutdown signal. The result says whether the drain
    /// starts with this call; then the shutdown hooks are to be started.
    pub fn signal(&mut self) -> (started: bool)
        ensures
            *final(self) == old(self).signalled(),
            started == (old(self).stage == Stage::Running),
    {
        match self.stage {
            Stage::Running => {
                self.stage = Stage::Draining;
                self.waited = 0;
                true
            },
            _ => false,
        }
    }

    /// Asks the coordinator what to do next; `unique` says whether the
    /// instance is uniquely owned now.
    pub fn poll(&mut self, unique: bool) -> (step: Step)
        ensures
            (*final(self), step) == old(self).polled(unique),
    {
        match self.stage {
            Stage::Running => Step::Serve,
            Stage::Draining => {
                if unique {
                    self.stage = Stage::Quiesced;
                    Step::Quiesced
                } else if self.waited < INTERVALS {
                    let k = self.waited;
                    self.waited = k + 1;
                    if k == 0 || k == 2 {
                        Step::Wait(PAUSE)
                    } else if k == 1 {
                        assert(self.config.grace * MICROS <= u64::MAX) by (nonlinear_arith)
                            requires
                                self.config.grace <= u32::MAX,
                                MICROS == 1000000,
                        ;
                        Step::Wait((self.config.grace as u64) * MICROS)
                    } else if k == 3 {
                        assert(self.config.mercy * MICROS <= u64::MAX) by (nonlinear_arith)
                            requires
                                self.config.mercy <= u32::MAX,
                                MICROS == 1000000,
                        ;
                        Step::Wait((self.config.mercy as u64) * MICROS)
                    } else {
                        Step::Wait(LAST_PAUSE)
                    }
                } else {
                    self.stage = Stage::TimedOut;
                    Step::TimedOut
                }
            },
            Stage::Quiesced => Step::Quiesced,
            Stage::TimedOut => Step::TimedOut,
        }
    }

    /// Whether the drain has ended.
    pub fn is_ended(&self) -> (r: bool)
        ensures
            r == self.ended(),
    {
        match self.stage {
            Stage::Quiesced | Stage::TimedOut => true,
            _ => false,
        }
    }
}

/// The shutdown signal is idempotent: a second signal changes nothing.
pub proof fn lemma_signal_is_idempotent(drain: Drain)
    ensures
        drain.signalled().signalled() == drain.signalled(),
        drain.signalled().stage != Stage::Running,
        drain.stage != Stage::Running ==> drain.signalled() == drain,
{
}

/// A drain that has ended stays as it is, whatever it is asked and whether
/// or not the signal is given again.
pub proof fn lemma_ended_is_final(drain: Drain, unique: bool)
    requires
        drain.ended(),
    ensures
        drain.polled(unique).0 == drain,
        drain.signalled() == drain,
        drain.polled(unique).1 == Step::Quiesced || drain.polled(unique).1 == Step::TimedOut,
{
}

/// A drain ends as quiesced as soon as the instance is uniquely owned, and
/// without any further wait.
pub proof fn lemma_unique_ends_drain(drain: Drain)
    requires
        drain.stage == Stage::Draining,
    ensures
        drain.polled(true).1 == Step::Quiesced,
        drain.polled(true).0.stage == Stage::Quiesced,
{
}

/// However often a draining coordinator is asked and whatever it is told, it
/// has handed out at most the five intervals, and the time that it asked to
/// wait is that of the intervals it handed out: never more than the whole
/// schedule.
pub proof fn lemma_drain_is_bounded(drain: Drain, answers: Seq<bool>)
    requires
        drain.stage == Stage::Draining,
        drain.waited == 0,
    ensures
        ({
            let (after, waited) = drain.run(answers);
            &&& after.stage != Stage::Running
            &&& after.waited <= INTERVALS
            &&& after.config == drain.config
            &&& waited == Drain::elapsed(drain.config, after.waited as int)
            &&& 0 <= waited <= schedule(drain.config)
        }),
    decreases answers.len(),
{
    let config = drain.config;
    lemma_elapsed(config);
    if answers.len() > 0 {
        lemma_drain_is_bounded(drain, answers.drop_last());
        let (before, waited) = drain.run(answers.drop_last());
        if before.stage == Stage::Draining && !answers.last() && before.waited < INTERVALS {
            assert(interval(config, before.waited as int) <= u64::MAX) by (nonlinear_arith)
                requires
                    interval(config, before.waited as int) <= 0xffff_ffff * 1000000,
            ;
        }
    }
}

/// Asked six times, a draining coordinator has ended.
pub proof fn lemma_drain_ends(drain: Drain, answers: Seq<bool>)
    requires
        drain.stage == Stage::Draining,
        drain.waited == 0,
        answers.len() > INTERVALS,
    ensures
        drain.run(answers).0.ended(),
{
    lemma_drain_progress(drain, answers);
}

proof fn lemma_drain_progress(drain: Drain, answers: Seq<bool>)
    requires
        drain.stage == Stage::Draining,
        drain.waited == 0,
    ensures
        ({
            let after = drain.run(answers).0;
            after.ended() || (after.stage == Stage::Draining && after.waited == answers.len())
        }),
        drain.run(answers).0.waited <= INTERVALS,
    decreases answers.len(),
{
    if answers.len() > 0 {
        lemma_drain_progress(drain, answers.drop_last());
    }
}

proof fn lemma_elapsed(config: ShutdownConfig)
    ensures
        Drain::elapsed(config, 0) == 0,
        Drain::elapsed(config, 1) == interval(config, 0),
        Drain::elapsed(config, 2) == Drain::elapsed(config, 1) + interval(config, 1),
        Drain::elapsed(config, 3) == Drain::elapsed(config, 2) + interval(config, 2),
        Drain::elapsed(config, 4) == Drain::elapsed(config, 3) + interval(config, 3),
        Drain::elapsed(config, 5) == schedule(config),
        forall|k: int| 0 <= k <= 5 ==> 0 <= #[trigger] Drain::elapsed(config, k) <= schedule(config),
        forall|k: int| 0 <= k < 5 ==> 0 <= #[trigger] interval(config, k) <= 0xffff_ffff * 1000000,
{
    reveal_with_fuel(Drain::elapsed, 6);
    assert(0 <= config.grace * MICROS <= 0xffff_ffff * 1000000) by (nonlinear_arith)
        requires
            0 <= config.grace <= 0xffff_ffff,
            MICROS == 1000000,
    ;
    assert(0 <= config.mercy * MICROS <= 0xffff_ffff * 1000000) by (nonlinear_arith)
        requires
            0 <= config.mercy <= 0xffff_ffff,
            MICROS == 1000000,
    ;
}

} // verus!
