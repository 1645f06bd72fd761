//! The runtime supervisor: a state machine that owns the lifecycle of the
//! peer-to-peer runtime. It is driven by events — launch results, one probe
//! observation per polling cycle, a termination request, shutdown results —
//! and answers with the single action the surrounding loop must perform
//! next. All I/O stays with the caller; the machine only decides.
//!
//! A restart is triggered by either of two independent conditions sampled
//! once per cycle: the probe result differing from the one observed before
//! (a reachability flip, which also picks the new mode unless the operator
//! pinned local-only networking), and the runtime's age exceeding a fixed
//! ceiling (a scheduled restart, which keeps the mode). When both fire in
//! one cycle, a single restart satisfies both, with the flip choosing the
//! mode. A mode is only committed once the new runtime launches: the machine
//! leaves `Running` for `Restarting` and `Launching` in between, and any
//! launch or mid-restart shutdown failure is fatal.

use crate::config::Mode;
use vstd::prelude::*;

verus! {

/// The operator's policy, fixed at startup.
#[derive(Clone, Copy, Debug, PartialEq, Eq, Structural)]
pub struct Policy {
    /// Never leave local-only networking, whatever the probe observes.
    pub pin_lan_only: bool,
    /// Runtime age, in seconds, past which a scheduled restart is due.
    pub restart_ceiling: u64,
    /// Seconds granted to a bounded shutdown of the runtime.
    pub shutdown_budget: u64,
}

/// Where the supervisor stands in the runtime's lifecycle.
#[derive(Clone, Copy, Debug, PartialEq, Eq, Structural)]
pub enum Phase {
    /// A launch with the configuration for `mode` is in flight.
    Launching { mode: Mode },
    /// The runtime is up in `mode`; the polling loop is running.
    Running { mode: Mode },
    /// The old runtime is being shut down to be relaunched in `mode`.
    Restarting { mode: Mode },
    /// A termination request arrived; the runtime is being shut down.
    ShuttingDown,
    /// Terminal: the process is to exit with `code`.
    Stopped { code: u8 },
}

/// What the surrounding loop reports to the supervisor.
#[derive(Clone, Copy, Debug, PartialEq, Eq, Structural)]
pub enum Event {
    /// The requested launch produced a live runtime.
    LaunchSucceeded,
    /// The requested launch failed.
    LaunchFailed,
    /// One polling cycle: the probe's verdict on the relay endpoint, and the
    /// seconds elapsed since the current runtime (re)launched.
    Poll { reachable: bool, elapsed: u64 },
    /// An external termination request (a signal) arrived.
    TerminationRequested,
    /// The requested shutdown completed within its budget.
    ShutdownCompleted,
    /// The requested shutdown overran its budget.
    ShutdownTimedOut,
    /// The requested shutdown failed outright.
    ShutdownFailed,
}

/// What the surrounding loop must do next.
#[derive(Clone, Copy, Debug, PartialEq, Eq, Structural)]
pub enum Action {
    /// Launch a runtime with the configuration for `mode` against the
    /// storage directory.
    Launch { mode: Mode },
    /// Request a bounded shutdown of the current runtime.
    Shutdown { budget: u64 },
    /// Exit the process with `code`; when `shutdown_failure` is set, a
    /// shutdown overran its budget or failed and is to be logged first.
    Exit { code: u8, shutdown_failure: bool },
    /// Nothing to perform; sleep until the next polling cycle.
    Continue,
}

/// The supervisor: its policy, its phase, and the probe result observed on
/// the previous cycle (the bookkeeping a reachability flip is detected
/// against).
#[derive(Clone, Copy, Debug, PartialEq, Eq, Structural)]
pub struct Supervisor {
    pub policy: Policy,
    pub phase: Phase,
    pub last_reachable: bool,
}

/// The exit code of a graceful termination.
pub const EXIT_OK: u8 = 0;

/// The exit code of a fatal failure: a launch that failed, or a shutdown
/// that failed mid-restart.
pub const EXIT_FATAL: u8 = 1;

/// The mode the node starts in: wide-area unless local-only is pinned.
pub open spec fn initial_mode(policy: Policy) -> Mode {
    if policy.pin_lan_only {
        Mode::LanOnly
    } else {
        Mode::Wan
    }
}

/// The supervisor as it first stands: launching in the initial mode, with
/// the prior observation consistent with that mode.
pub open spec fn init_spec(policy: Policy) -> Supervisor {
    Supervisor {
        policy,
        phase: Phase::Launching { mode: initial_mode(policy) },
        last_reachable: !policy.pin_lan_only,
    }
}

/// The transition relation of the supervisor, as a function: from a state
/// and an event to the next state and the action the loop must perform.
pub open spec fn step_spec(s: Supervisor, event: Event) -> (Supervisor, Action) {
    match s.phase {
        Phase::Launching { mode } => match event {
            Event::LaunchSucceeded => (
                Supervisor { phase: Phase::Running { mode }, ..s },
                Action::Continue,
            ),
            Event::LaunchFailed => (
                Supervisor { phase: Phase::Stopped { code: EXIT_FATAL }, ..s },
                Action::Exit { code: EXIT_FATAL, shutdown_failure: false },
            ),
            Event::TerminationRequested => (
                Supervisor { phase: Phase::Stopped { code: EXIT_OK }, ..s },
                Action::Exit { code: EXIT_OK, shutdown_failure: false },
            ),
            _ => (s, Action::Continue),
        },
        Phase::Running { mode } => match event {
            Event::Poll { reachable, elapsed } => {
                let observed = Supervisor { last_reachable: reachable, ..s };
                let flip = reachable != s.last_reachable;
                let switch = flip && !s.policy.pin_lan_only;
                let target = if switch {
                    if reachable {
                        Mode::Wan
                    } else {
                        Mode::LanOnly
                    }
                } else {
                    mode
                };
                if switch || elapsed >= s.policy.restart_ceiling {
                    (
                        Supervisor { phase: Phase::Restarting { mode: target }, ..observed },
                        Action::Shutdown { budget: s.policy.shutdown_budget },
                    )
                } else {
                    (observed, Action::Continue)
                }
            },
            Event::TerminationRequested => (
                Supervisor { phase: Phase::ShuttingDown, ..s },
                Action::Shutdown { budget: s.policy.shutdown_budget },
            ),
            _ => (s, Action::Continue),
        },
        Phase::Restarting { mode } => match event {
            Event::ShutdownCompleted => (
                Supervisor { phase: Phase::Launching { mode }, ..s },
                Action::Launch { mode },
            ),
            Event::ShutdownTimedOut | Event::ShutdownFailed => (
                Supervisor { phase: Phase::Stopped { code: EXIT_FATAL }, ..s },
                Action::Exit { code: EXIT_FATAL, shutdown_failure: true },
            ),
            Event::TerminationRequested => (
                Supervisor { phase: Phase::ShuttingDown, ..s },
                Action::Continue,
            ),
            _ => (s, Action::Continue),
        },
        Phase::ShuttingDown => match event {
            Event::ShutdownCompleted => (
                Supervisor { phase: Phase::Stopped { code: EXIT_OK }, ..s },
                Action::Exit { code: EXIT_OK, shutdown_failure: false },
            ),
            Event::ShutdownTimedOut | Event::ShutdownFailed => (
                Supervisor { phase: Phase::Stopped { code: EXIT_OK }, ..s },
                Action::Exit { code: EXIT_OK, shutdown_failure: true },
            ),
            _ => (s, Action::Continue),
        },
        Phase::Stopped { .. } => (s, Action::Continue),
    }
}

impl Supervisor {
    /// Start supervising under `policy`: the machine stands in `Launching`
    /// and the caller is to perform the returned launch action.
    pub fn new(policy: Policy) -> (r: (Supervisor, Action))
        ensures
            r.0 == init_spec(policy),
            r.1 == (Action::Launch { mode: initial_mode(policy) }),
    {
        let mode = if policy.pin_lan_only {
            Mode::LanOnly
        } else {
            Mode::Wan
        };
        (
            Supervisor {
                policy,
                phase: Phase::Launching { mode },
                last_reachable: !policy.pin_lan_only,
            },
            Action::Launch { mode },
        )
    }

    /// Feed one event to the supervisor; the new state and the returned
    /// action are exactly what the transition relation prescribes.
    pub fn step(&mut self, event: Event) -> (action: Action)
        ensures
            (*final(self), action) == step_spec(*old(self), event),
    {
        let (next, action): (Supervisor, Action) = match self.phase {
            Phase::Launching { mode } => match event {
                Event::LaunchSucceeded => (
                    Supervisor { phase: Phase::Running { mode }, ..*self },
                    Action::Continue,
                ),
                Event::LaunchFailed => (
                    Supervisor { phase: Phase::Stopped { code: EXIT_FATAL }, ..*self },
                    Action::Exit { code: EXIT_FATAL, shutdown_failure: false },
                ),
                Event::TerminationRequested => (
                    Supervisor { phase: Phase::Stopped { code: EXIT_OK }, ..*self },
                    Action::Exit { code: EXIT_OK, shutdown_failure: false },
                ),
                _ => (*self, Action::Continue),
            },
            Phase::Running { mode } => match event {
                Event::Poll { reachable, elapsed } => {
                    let flip = reachable != self.last_reachable;
                    let switch = flip && !self.policy.pin_lan_only;
                    let target = if switch {
                        if reachable {
                            Mode::Wan
                        } else {
                            Mode::LanOnly
                        }
                    } else {
                        mode
                    };
                    if switch || elapsed >= self.policy.restart_ceiling {
                        (
                            Supervisor {
                                phase: Phase::Restarting { mode: target },
                                last_reachable: reachable,
                                ..*self
                            },
                            Action::Shutdown { budget: self.policy.shutdown_budget },
                        )
                    } else {
                        (
                            Supervisor { last_reachable: reachable, ..*self },
                            Action::Continue,
                        )
                    }
                },
                Event::TerminationRequested => (
                    Supervisor { phase: Phase::ShuttingDown, ..*self },
                    Action::Shutdown { budget: self.policy.shutdown_budget },
                ),
                _ => (*self, Action::Continue),
            },
            Phase::Restarting { mode } => match event {
                Event::ShutdownCompleted => (
                    Supervisor { phase: Phase::Launching { mode }, ..*self },
                    Action::Launch { mode },
                ),
                Event::ShutdownTimedOut | Event::ShutdownFailed => (
                    Supervisor { phase: Phase::Stopped { code: EXIT_FATAL }, ..*self },
                    Action::Exit { code: EXIT_FATAL, shutdown_failure: true },
                ),
                Event::TerminationRequested => (
                    Supervisor { phase: Phase::ShuttingDown, ..*self },
                    Action::Continue,
                ),
                _ => (*self, Action::Continue),
            },
            Phase::ShuttingDown => match event {
                Event::ShutdownCompleted => (
                    Supervisor { phase: Phase::Stopped { code: EXIT_OK }, ..*self },
                    Action::Exit { code: EXIT_OK, shutdown_failure: false },
                ),
                Event::ShutdownTimedOut | Event::ShutdownFailed => (
                    Supervisor { phase: Phase::Stopped { code: EXIT_OK }, ..*self },
                    Action::Exit { code: EXIT_OK, shutdown_failure: true },
                ),
                _ => (*self, Action::Continue),
            },
            Phase::Stopped { .. } => (*self, Action::Continue),
        };
        *self = next;
        action
    }
}

/// Law (mode switch): when the relay becomes reachable while the node runs
/// local-only and local-only is not pinned, the poll triggers exactly one
/// restart cycle — shut down, relaunch with a wide-area configuration, run —
/// and a further poll with the same observation triggers nothing more.
pub proof fn lemma_mode_switch(s: Supervisor, elapsed: u64, elapsed_after: u64)
    requires
        s.phase == (Phase::Running { mode: Mode::LanOnly }),
        !s.policy.pin_lan_only,
        !s.last_reachable,
        elapsed < s.policy.restart_ceiling,
        elapsed_after < s.policy.restart_ceiling,
    ensures
        ({
            let poll = (Event::Poll { reachable: true, elapsed });
            let (restarting, first) = step_spec(s, poll);
            let (launching, second) = step_spec(restarting, Event::ShutdownCompleted);
            let (running, third) = step_spec(launching, Event::LaunchSucceeded);
            let (after, fourth) = step_spec(
                running,
                Event::Poll { reachable: true, elapsed: elapsed_after },
            );
            &&& restarting.phase == (Phase::Restarting { mode: Mode::Wan })
            &&& first == (Action::Shutdown { budget: s.policy.shutdown_budget })
            &&& launching.phase == (Phase::Launching { mode: Mode::Wan })
            &&& second == (Action::Launch { mode: Mode::Wan })
            &&& running.phase == (Phase::Running { mode: Mode::Wan })
            &&& third == Action::Continue
            &&& after == running
            &&& fourth == Action::Continue
        }),
{
}

/// Law (scheduled restart): with the probe observation unchanged, a poll
/// whose elapsed time reaches the ceiling triggers exactly one restart with
/// the mode kept; once the runtime is back up, a poll inside the ceiling
/// triggers nothing.
pub proof fn lemma_scheduled_restart(
    s: Supervisor,
    mode: Mode,
    reachable: bool,
    elapsed: u64,
    elapsed_after: u64,
)
    requires
        s.phase == (Phase::Running { mode }),
        reachable == s.last_reachable,
        elapsed >= s.policy.restart_ceiling,
        elapsed_after < s.policy.restart_ceiling,
    ensures
        ({
            let poll = (Event::Poll { reachable, elapsed });
            let (restarting, first) = step_spec(s, poll);
            let (launching, second) = step_spec(restarting, Event::ShutdownCompleted);
            let (running, third) = step_spec(launching, Event::LaunchSucceeded);
            let (after, fourth) = step_spec(
                running,
                Event::Poll { reachable, elapsed: elapsed_after },
            );
            &&& restarting.phase == (Phase::Restarting { mode })
            &&& first == (Action::Shutdown { budget: s.policy.shutdown_budget })
            &&& launching.phase == (Phase::Launching { mode })
            &&& second == (Action::Launch { mode })
            &&& running.phase == (Phase::Running { mode })
            &&& third == Action::Continue
            &&& after == running
            &&& fourth == Action::Continue
        }),
{
}

/// Law (pinned local-only): with local-only pinned, a reachability flip
/// changes neither the mode nor the phase — the node stays running
/// local-only — though the observation is still recorded.
pub proof fn lemma_pinned_lan_only(s: Supervisor, reachable: bool, elapsed: u64)
    requires
        s.policy.pin_lan_only,
        s.phase == (Phase::Running { mode: Mode::LanOnly }),
        reachable != s.last_reachable,
        elapsed < s.policy.restart_ceiling,
    ensures
        ({
            let (after, action) = step_spec(s, Event::Poll { reachable, elapsed });
            &&& after.phase == (Phase::Running { mode: Mode::LanOnly })
            &&& action == Action::Continue
            &&& after.last_reachable == reachable
        }),
{
}

/// Law (shutdown bound): a final shutdown that overruns its budget still
/// ends the process — the machine reaches its terminal phase and orders an
/// exit, with the failure noted for the log.
pub proof fn lemma_shutdown_bound(s: Supervisor)
    requires
        s.phase == Phase::ShuttingDown,
    ensures
        ({
            let (stopped, action) = step_spec(s, Event::ShutdownTimedOut);
            &&& stopped.phase == (Phase::Stopped { code: EXIT_OK })
            &&& action == (Action::Exit { code: EXIT_OK, shutdown_failure: true })
        }),
{
}

} // verus!
