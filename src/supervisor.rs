//! The supervisor's decisions, as a state machine over the session it holds.
//!
//! The caller performs each action (spawning, probing, killing, cancelling)
//! and reports the outcome back; the machine decides what comes next and
//! tracks which parts of the session exist.
use vstd::prelude::*;

verus! {

/// Time from spawn within which the worker must answer a probe, in milliseconds.
pub const STARTUP_TIMEOUT_MS: u64 = 20_000;

/// Milliseconds between two startup probes.
pub const STARTUP_PROBE_INTERVAL_MS: u64 = 1_000;

/// Seconds between two sampling ticks.
pub const SAMPLE_INTERVAL_SECS: u64 = 3;

/// Timeout of an RPC call to the worker, in milliseconds; a startup probe
/// gets less when less is left of the startup window.
pub const RPC_TIMEOUT_MS: u64 = 10_000;

#[derive(Clone, Copy, Debug, PartialEq, Eq, Structural)]
pub enum Phase {
    Idle,
    Starting,
    Running,
}

/// The supervisor's state: its phase, and which parts of the session exist
/// (the worker process and the two tasks).
#[derive(Clone, Copy, Debug, PartialEq, Eq, Structural)]
pub struct Supervisor {
    pub phase: Phase,
    pub worker: bool,
    pub log_task: bool,
    pub sample_task: bool,
}

#[derive(Clone, Copy, Debug, PartialEq, Eq, Structural)]
pub enum StartError {
    /// A session is already starting or running; nothing was changed.
    AlreadyRunning,
    /// The worker executable could not be launched.
    Spawn,
    /// The worker never answered a startup probe; it has been killed.
    Unresponsive,
}

/// What to do after a startup probe.
#[derive(Clone, Copy, Debug, PartialEq, Eq, Structural)]
pub enum StartupAction {
    /// The worker answered: start the ingestion and sampling tasks.
    Launch,
    /// Wait this many milliseconds and probe again.
    Retry(u64),
    /// Kill the worker and fail the start as unresponsive.
    Abort,
}

/// The teardown steps to perform; a step that is `false` has nothing to act
/// on and is only worth a warning.
#[derive(Clone, Copy, Debug, PartialEq, Eq, Structural)]
pub struct Teardown {
    pub kill_worker: bool,
    pub cancel_log: bool,
    pub cancel_sampler: bool,
}

impl Supervisor {
    /// The session is all there or all absent outside startup.
    pub open spec fn wf(self) -> bool {
        match self.phase {
            Phase::Idle => !self.worker && !self.log_task && !self.sample_task,
            Phase::Starting => !self.log_task && !self.sample_task,
            Phase::Running => self.worker && self.log_task && self.sample_task,
        }
    }

    pub open spec fn idle() -> Supervisor {
        Supervisor {
            phase: Phase::Idle,
            worker: false,
            log_task: false,
            sample_task: false,
        }
    }

    /// The state right after the worker was spawned.
    pub open spec fn spawned() -> Supervisor {
        Supervisor {
            phase: Phase::Starting,
            worker: true,
            log_task: false,
            sample_task: false,
        }
    }

    pub open spec fn teardown_of(self) -> Teardown {
        Teardown {
            kill_worker: self.worker,
            cancel_log: self.log_task,
            cancel_sampler: self.sample_task,
        }
    }

    /// The state a stop leads to, and the steps it performs.
    pub open spec fn stop_spec(self) -> (Supervisor, Teardown) {
        (Supervisor::idle(), self.teardown_of())
    }

    /// The decision after a startup probe that finished `elapsed_ms` after
    /// the spawn, and the state it leads to. A failed probe is retried only
    /// when the next one would start before the startup deadline.
    pub open spec fn probe_spec(self, alive: bool, elapsed_ms: u64) -> (Supervisor, StartupAction) {
        if alive {
            (
                Supervisor { phase: Phase::Running, worker: true, log_task: true, sample_task: true },
                StartupAction::Launch,
            )
        } else if elapsed_ms + STARTUP_PROBE_INTERVAL_MS >= STARTUP_TIMEOUT_MS {
            (Supervisor::idle(), StartupAction::Abort)
        } else {
            (self, StartupAction::Retry(STARTUP_PROBE_INTERVAL_MS))
        }
    }

    pub fn new() -> (r: Supervisor)
        ensures
            r == Supervisor::idle(),
            r.wf(),
    {
        Supervisor {
            phase: Phase::Idle,
            worker: false,
            log_task: false,
            sample_task: false,
        }
    }

    /// A request to start: only an idle supervisor begins starting; otherwise
    /// the request fails and nothing changes.
    pub fn request_start(&mut self) -> (r: Result<(), StartError>)
        requires
            old(self).wf(),
        ensures
            final(self).wf(),
            old(self).phase == Phase::Idle ==> r is Ok && *final(self) == (Supervisor {
                phase: Phase::Starting,
                ..*old(self)
            }),
            old(self).phase != Phase::Idle ==> r == Err::<(), StartError>(
                StartError::AlreadyRunning,
            ) && *final(self) == *old(self),
    {
        match self.phase {
            Phase::Idle => {
                self.phase = Phase::Starting;
                Ok(())
            },
            _ => Err(StartError::AlreadyRunning),
        }
    }

    /// The outcome of launching the worker.
    pub fn spawn_finished(&mut self, ok: bool) -> (r: Result<(), StartError>)
        requires
            old(self).wf(),
            old(self).phase == Phase::Starting,
            !old(self).worker,
        ensures
            final(self).wf(),
            ok ==> r is Ok && *final(self) == Supervisor::spawned(),
            !ok ==> r == Err::<(), StartError>(StartError::Spawn) && *final(self)
                == Supervisor::idle(),
    {
        if ok {
            self.worker = true;
            Ok(())
        } else {
            self.phase = Phase::Idle;
            Err(StartError::Spawn)
        }
    }

    /// The outcome of one startup probe, finished `elapsed_ms` after the
    /// spawn: launch the tasks on an answer, retry after the probe interval on
    /// silence, and give up when no further probe fits before the deadline.
    pub fn probe_finished(&mut self, alive: bool, elapsed_ms: u64) -> (r: StartupAction)
        requires
            old(self).wf(),
            old(self).phase == Phase::Starting,
            old(self).worker,
        ensures
            final(self).wf(),
            (*final(self), r) == old(self).probe_spec(alive, elapsed_ms),
    {
        if alive {
            self.phase = Phase::Running;
            self.log_task = true;
            self.sample_task = true;
            StartupAction::Launch
        } else if elapsed_ms >= STARTUP_TIMEOUT_MS - STARTUP_PROBE_INTERVAL_MS {
            self.phase = Phase::Idle;
            self.worker = false;
            StartupAction::Abort
        } else {
            StartupAction::Retry(STARTUP_PROBE_INTERVAL_MS)
        }
    }

    /// Stops the session: every part that exists is torn down, each step on
    /// its own, and the supervisor is idle. Never fails.
    pub fn stop(&mut self) -> (r: Teardown)
        ensures
            (*final(self), r) == old(self).stop_spec(),
            final(self).wf(),
    {
        let r = Teardown {
            kill_worker: self.worker,
            cancel_log: self.log_task,
            cancel_sampler: self.sample_task,
        };
        self.phase = Phase::Idle;
        self.worker = false;
        self.log_task = false;
        self.sample_task = false;
        r
    }

    /// The sampling task saw the probe fail and has ended; the rest of the
    /// session is torn down.
    pub fn crash_detected(&mut self) -> (r: Teardown)
        ensures
            r == (Teardown { cancel_sampler: false, ..old(self).teardown_of() }),
            *final(self) == Supervisor::idle(),
            final(self).wf(),
    {
        self.sample_task = false;
        self.stop()
    }
}

/// Stopping twice in a row: the second stop has nothing to tear down and
/// leaves the supervisor as the first left it.
pub proof fn lemma_stop_idempotent(s: Supervisor)
    ensures
        s.stop_spec().0.stop_spec() == (
            s.stop_spec().0,
            Teardown { kill_worker: false, cancel_log: false, cancel_sampler: false },
        ),
{
}

/// The timeout for a startup probe that starts `start_ms` after the spawn:
/// the usual RPC timeout, cut to what is left of the startup window.
pub open spec fn probe_budget(start_ms: u64) -> u64 {
    if start_ms >= STARTUP_TIMEOUT_MS {
        0
    } else if STARTUP_TIMEOUT_MS - start_ms < RPC_TIMEOUT_MS {
        (STARTUP_TIMEOUT_MS - start_ms) as u64
    } else {
        RPC_TIMEOUT_MS
    }
}

/// The timeout to give a startup probe that starts `start_ms` after the spawn.
pub fn probe_timeout_ms(start_ms: u64) -> (r: u64)
    ensures
        r == probe_budget(start_ms),
{
    if start_ms >= STARTUP_TIMEOUT_MS {
        0
    } else if STARTUP_TIMEOUT_MS - start_ms < RPC_TIMEOUT_MS {
        STARTUP_TIMEOUT_MS - start_ms
    } else {
        RPC_TIMEOUT_MS
    }
}

/// A worker that never answers is given up on within the startup window: a
/// probe that starts before the deadline and keeps to its budget ends by the
/// deadline; a failure then either aborts, with the worker to be killed and
/// the supervisor idle, or waits one interval and probes again, still before
/// the deadline. Each retry moves the clock on by at least the interval, so
/// the abort comes after at most twenty probes.
pub proof fn lemma_startup_deadline(s: Supervisor, start_ms: u64, took_ms: u64)
    requires
        s.wf(),
        s.phase == Phase::Starting,
        s.worker,
        start_ms < STARTUP_TIMEOUT_MS,
        took_ms <= probe_budget(start_ms),
    ensures
        start_ms + took_ms <= STARTUP_TIMEOUT_MS,
        ({
            let (next, action) = s.probe_spec(false, (start_ms + took_ms) as u64);
            &&& action != StartupAction::Launch
            &&& action == StartupAction::Abort ==> next == Supervisor::idle() && !next.worker
            &&& action != StartupAction::Abort ==> action == StartupAction::Retry(
                STARTUP_PROBE_INTERVAL_MS,
            ) && next == s && start_ms + took_ms + STARTUP_PROBE_INTERVAL_MS < STARTUP_TIMEOUT_MS
        }),
        STARTUP_TIMEOUT_MS / STARTUP_PROBE_INTERVAL_MS == 20,
{
}

} // verus!
