use ipc::supervisor::{needs_kill, shutdown_target};
use ipc::{Backoff, ExitStatus, LoopAction, Phase, Supervisor};

#[test]
fn supervisor_runs_rounds_until_killed() {
    let mut s = Supervisor::new();
    let mut backoff = Backoff::from_secs(5);
    assert_eq!(s.phase(), Phase::Ready);
    assert_eq!(s.get_pid(), None);

    assert_eq!(s.begin_iteration(), LoopAction::Spawn);
    assert_eq!(s.phase(), Phase::Spawning);
    s.child_started(41);
    assert_eq!(s.phase(), Phase::Running);
    assert_eq!(s.get_pid(), Some(41));
    assert_eq!(s.child_exited(&mut backoff).as_secs(), 0);
    assert_eq!(backoff.get_restart_count(), 1);
    assert_eq!(s.phase(), Phase::Ready);
    assert_eq!(s.get_pid(), None);

    assert_eq!(s.begin_iteration(), LoopAction::Spawn);
    s.child_started(42);
    assert_eq!(s.get_pid(), Some(42));

    s.request_kill();
    assert_eq!(s.get_pid(), Some(42));
    assert_eq!(s.child_exited(&mut backoff).as_secs(), 2);
    assert_eq!(backoff.get_restart_count(), 2);
    assert_eq!(s.get_pid(), None);
    assert_eq!(s.begin_iteration(), LoopAction::Stop);
    assert_eq!(s.phase(), Phase::Stopped);
    assert_eq!(s.get_pid(), None);
}

#[test]
fn kill_before_first_round_stops_at_once() {
    let mut s = Supervisor::new();
    s.request_kill();
    assert_eq!(s.begin_iteration(), LoopAction::Stop);
    assert_eq!(s.get_pid(), None);
}

#[test]
fn shutdown_targets() {
    assert_eq!(shutdown_target(None), None);
    assert_eq!(shutdown_target(Some(300)), Some(300));
    assert_eq!(shutdown_target(Some(u32::MAX)), Some(-1));
}

#[test]
fn kill_only_a_running_process() {
    assert!(needs_kill::<&str>(&Ok(None)));
    assert!(!needs_kill::<&str>(&Ok(Some(ExitStatus(0)))));
    assert!(!needs_kill(&Err("waitpid failed")));
}
