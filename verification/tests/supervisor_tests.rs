use always_online_node::Action;
use always_online_node::Event;
use always_online_node::Mode;
use always_online_node::Phase;
use always_online_node::Policy;
use always_online_node::Supervisor;

fn wan_policy() -> Policy {
    Policy { pin_lan_only: false, restart_ceiling: 1800, shutdown_budget: 10 }
}

fn running(policy: Policy) -> Supervisor {
    let (mut supervisor, action) = Supervisor::new(policy);
    assert!(matches!(action, Action::Launch { .. }));
    let action = supervisor.step(Event::LaunchSucceeded);
    assert_eq!(action, Action::Continue);
    supervisor
}

#[test]
fn starts_wide_area_unless_lan_only_is_pinned() {
    let (supervisor, action) = Supervisor::new(wan_policy());
    assert_eq!(action, Action::Launch { mode: Mode::Wan });
    assert_eq!(supervisor.phase, Phase::Launching { mode: Mode::Wan });

    let pinned = Policy { pin_lan_only: true, ..wan_policy() };
    let (supervisor, action) = Supervisor::new(pinned);
    assert_eq!(action, Action::Launch { mode: Mode::LanOnly });
    assert_eq!(supervisor.phase, Phase::Launching { mode: Mode::LanOnly });
}

#[test]
fn mode_switch_happens_exactly_once() {
    let mut s = running(wan_policy());
    // the relay drops away: one restart into local-only
    assert_eq!(s.step(Event::Poll { reachable: false, elapsed: 30 }), Action::Shutdown {
        budget: 10
    });
    assert_eq!(s.phase, Phase::Restarting { mode: Mode::LanOnly });
    assert_eq!(s.step(Event::ShutdownCompleted), Action::Launch { mode: Mode::LanOnly });
    assert_eq!(s.step(Event::LaunchSucceeded), Action::Continue);
    assert_eq!(s.phase, Phase::Running { mode: Mode::LanOnly });
    // the relay comes back: exactly one restart into wide-area
    assert_eq!(s.step(Event::Poll { reachable: true, elapsed: 30 }), Action::Shutdown {
        budget: 10
    });
    assert_eq!(s.phase, Phase::Restarting { mode: Mode::Wan });
    assert_eq!(s.step(Event::ShutdownCompleted), Action::Launch { mode: Mode::Wan });
    assert_eq!(s.step(Event::LaunchSucceeded), Action::Continue);
    assert_eq!(s.phase, Phase::Running { mode: Mode::Wan });
    // the same observation again triggers nothing further
    assert_eq!(s.step(Event::Poll { reachable: true, elapsed: 60 }), Action::Continue);
    assert_eq!(s.phase, Phase::Running { mode: Mode::Wan });
}

#[test]
fn scheduled_restart_keeps_the_mode() {
    let mut s = running(wan_policy());
    assert_eq!(s.step(Event::Poll { reachable: true, elapsed: 1799 }), Action::Continue);
    // the ceiling is crossed: one restart, mode unchanged
    assert_eq!(s.step(Event::Poll { reachable: true, elapsed: 1800 }), Action::Shutdown {
        budget: 10
    });
    assert_eq!(s.phase, Phase::Restarting { mode: Mode::Wan });
    assert_eq!(s.step(Event::ShutdownCompleted), Action::Launch { mode: Mode::Wan });
    assert_eq!(s.step(Event::LaunchSucceeded), Action::Continue);
    // freshly launched: the next poll inside the ceiling restarts nothing
    assert_eq!(s.step(Event::Poll { reachable: true, elapsed: 30 }), Action::Continue);
    assert_eq!(s.phase, Phase::Running { mode: Mode::Wan });
}

#[test]
fn pinned_lan_only_records_the_flip_but_keeps_the_mode() {
    let pinned = Policy { pin_lan_only: true, ..wan_policy() };
    let mut s = running(pinned);
    assert_eq!(s.phase, Phase::Running { mode: Mode::LanOnly });
    assert!(!s.last_reachable);
    // the relay becomes reachable: observed, but no mode change
    assert_eq!(s.step(Event::Poll { reachable: true, elapsed: 30 }), Action::Continue);
    assert_eq!(s.phase, Phase::Running { mode: Mode::LanOnly });
    assert!(s.last_reachable);
}

#[test]
fn pinned_lan_only_still_restarts_on_the_ceiling() {
    let pinned = Policy { pin_lan_only: true, ..wan_policy() };
    let mut s = running(pinned);
    assert_eq!(s.step(Event::Poll { reachable: true, elapsed: 1800 }), Action::Shutdown {
        budget: 10
    });
    assert_eq!(s.phase, Phase::Restarting { mode: Mode::LanOnly });
}

#[test]
fn graceful_shutdown_exits_cleanly() {
    let mut s = running(wan_policy());
    assert_eq!(s.step(Event::TerminationRequested), Action::Shutdown { budget: 10 });
    assert_eq!(s.phase, Phase::ShuttingDown);
    assert_eq!(s.step(Event::ShutdownCompleted), Action::Exit {
        code: 0,
        shutdown_failure: false
    });
    assert_eq!(s.phase, Phase::Stopped { code: 0 });
}

#[test]
fn shutdown_overrunning_its_budget_still_exits() {
    let mut s = running(wan_policy());
    assert_eq!(s.step(Event::TerminationRequested), Action::Shutdown { budget: 10 });
    assert_eq!(s.step(Event::ShutdownTimedOut), Action::Exit {
        code: 0,
        shutdown_failure: true
    });
    assert_eq!(s.phase, Phase::Stopped { code: 0 });
}

#[test]
fn launch_failure_is_fatal() {
    let (mut s, _) = Supervisor::new(wan_policy());
    assert_eq!(s.step(Event::LaunchFailed), Action::Exit { code: 1, shutdown_failure: false });
    assert_eq!(s.phase, Phase::Stopped { code: 1 });
}

#[test]
fn shutdown_failure_during_a_restart_is_fatal() {
    let mut s = running(wan_policy());
    assert_eq!(s.step(Event::Poll { reachable: false, elapsed: 30 }), Action::Shutdown {
        budget: 10
    });
    assert_eq!(s.step(Event::ShutdownTimedOut), Action::Exit { code: 1, shutdown_failure: true });
    assert_eq!(s.phase, Phase::Stopped { code: 1 });
}

#[test]
fn termination_during_a_restart_stops_instead_of_relaunching() {
    let mut s = running(wan_policy());
    assert_eq!(s.step(Event::Poll { reachable: false, elapsed: 30 }), Action::Shutdown {
        budget: 10
    });
    assert_eq!(s.step(Event::TerminationRequested), Action::Continue);
    assert_eq!(s.phase, Phase::ShuttingDown);
    assert_eq!(s.step(Event::ShutdownCompleted), Action::Exit {
        code: 0,
        shutdown_failure: false
    });
}
