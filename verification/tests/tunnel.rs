//! The tunnel session supervisor: restart policy, the retry cap, the
//! reset after a stable run, and the stop flag winning over restarts.

use emacs_remote::errors::TunnelError;
use emacs_remote::utils::stcp::STCPSession;
use emacs_remote::utils::stcp::TunnelAction;
use emacs_remote::utils::stcp::TunnelEvent;
use emacs_remote::utils::stcp::TunnelState;

fn session() -> STCPSession {
    STCPSession::new(
        "host".to_string(),
        "9130".to_string(),
        "9131".to_string(),
        "/proj".to_string(),
    )
}

#[test]
fn three_early_exits_then_stable_run() {
    let mut s = session();
    assert_eq!(s.start_ssh(), TunnelAction::SpawnProcess);

    let mut restarts: u32 = 0;
    // The process comes up, then exits immediately, three times over.
    for _ in 0..3 {
        assert_eq!(s.step(TunnelEvent::SpawnOk), Ok(TunnelAction::AwaitProcess));
        match s.step(TunnelEvent::ProcessExited) {
            Ok(TunnelAction::SpawnProcess) => restarts += 1,
            other => panic!("expected a restart, got {:?}", other),
        }
    }
    // The fourth process stays alive past the grace period.
    assert_eq!(s.step(TunnelEvent::SpawnOk), Ok(TunnelAction::AwaitProcess));
    assert_eq!(s.step(TunnelEvent::GracePassed), Ok(TunnelAction::AwaitProcess));

    // Exactly three restarts; the counter is reset; nothing is fatal.
    assert_eq!(restarts, 3);
    assert_eq!(s.retry_count, 0);
    assert_eq!(s.state, TunnelState::Running);
    assert_eq!(s.status(), Ok(()));
}

#[test]
fn six_consecutive_failures_are_fatal() {
    let mut s = session();
    assert_eq!(s.start_ssh(), TunnelAction::SpawnProcess);
    assert_eq!(s.step(TunnelEvent::SpawnOk), Ok(TunnelAction::AwaitProcess));

    let mut spawns_asked: u32 = 1;
    // Failure one: the process dies; failures two to five: each respawn
    // fails again.
    assert_eq!(s.step(TunnelEvent::ProcessExited), Ok(TunnelAction::SpawnProcess));
    spawns_asked += 1;
    for _ in 0..4 {
        match s.step(TunnelEvent::SpawnFailed) {
            Ok(TunnelAction::SpawnProcess) => spawns_asked += 1,
            other => panic!("expected a retry, got {:?}", other),
        }
    }
    assert_eq!(s.retry_count, 5);

    // The sixth consecutive failure is fatal: no further spawn is asked
    // for, and the session reports the fatal condition.
    assert_eq!(s.step(TunnelEvent::SpawnFailed), Err(TunnelError::TunnelFatal));
    assert_eq!(s.state, TunnelState::Failed);
    assert_eq!(s.status(), Err(TunnelError::TunnelFatal));
    assert_eq!(spawns_asked, 6);

    // And it stays that way: every further step surfaces the error.
    assert_eq!(s.step(TunnelEvent::SpawnOk), Err(TunnelError::TunnelFatal));
    assert_eq!(s.state, TunnelState::Failed);
}

#[test]
fn a_requested_stop_wins_over_a_restart() {
    let mut s = session();
    assert_eq!(s.start_ssh(), TunnelAction::SpawnProcess);
    assert_eq!(s.step(TunnelEvent::SpawnOk), Ok(TunnelAction::AwaitProcess));

    // Stop while the process runs: it is torn down, and once its exit is
    // observed the session is idle; no restart was attempted.
    assert_eq!(s.close(), TunnelAction::KillProcess);
    assert_eq!(s.step(TunnelEvent::ProcessExited), Ok(TunnelAction::NoAction));
    assert_eq!(s.state, TunnelState::Idle);

    // After a stop, even a fresh start request does nothing.
    assert_eq!(s.start_ssh(), TunnelAction::NoAction);
    assert!(!s.supervisor_running());
}

#[test]
fn spawn_failure_is_reported_synchronously() {
    let mut s = session();
    assert_eq!(s.start_ssh(), TunnelAction::SpawnProcess);
    assert_eq!(s.step(TunnelEvent::SpawnFailed), Err(TunnelError::SpawnError));
    assert_eq!(s.state, TunnelState::Idle);
}

#[test]
fn late_exit_after_reset_restarts_counting_from_zero() {
    let mut s = session();
    assert_eq!(s.start_ssh(), TunnelAction::SpawnProcess);
    assert_eq!(s.step(TunnelEvent::SpawnOk), Ok(TunnelAction::AwaitProcess));

    // Five failures bring the counter to the cap.
    assert_eq!(s.step(TunnelEvent::ProcessExited), Ok(TunnelAction::SpawnProcess));
    for _ in 0..4 {
        assert_eq!(s.step(TunnelEvent::SpawnFailed), Ok(TunnelAction::SpawnProcess));
    }
    assert_eq!(s.retry_count, 5);

    // A sustained run resets the count, so later failures start over.
    assert_eq!(s.step(TunnelEvent::SpawnOk), Ok(TunnelAction::AwaitProcess));
    assert_eq!(s.step(TunnelEvent::GracePassed), Ok(TunnelAction::AwaitProcess));
    assert_eq!(s.retry_count, 0);
    assert_eq!(s.step(TunnelEvent::ProcessExited), Ok(TunnelAction::SpawnProcess));
    assert_eq!(s.retry_count, 1);
    assert_eq!(s.status(), Ok(()));
}
