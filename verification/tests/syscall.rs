use ipc::syscall::{c_rv, c_rv_needs_retry, interpret_try_wait, interpret_wait};
use ipc::{ExitStatus, WaitError};
use std::io::{Error, ErrorKind};

#[test]
fn c_rv_accepts_any_value_but_minus_one() {
    assert_eq!(c_rv(0).unwrap(), 0);
    assert_eq!(c_rv(42).unwrap(), 42);
    assert_eq!(c_rv(-2).unwrap(), -2);
    assert!(c_rv(-1).is_err());
    assert!(c_rv(-1).unwrap_err().raw_os_error().is_some());
}

#[test]
fn retry_only_on_interrupted() {
    assert!(c_rv_needs_retry(&Err(Error::from(ErrorKind::Interrupted))));
    assert!(!c_rv_needs_retry(&Err(Error::from(ErrorKind::NotFound))));
    assert!(!c_rv_needs_retry(&Err(Error::from(ErrorKind::Other))));
    assert!(!c_rv_needs_retry(&Ok(0)));
    assert!(!c_rv_needs_retry(&Ok(-1)));
}

#[test]
fn try_wait_still_running() {
    let r: Result<_, WaitError<&str>> = interpret_try_wait(7, Ok(0), 99);
    assert!(matches!(r, Ok(None)));
}

#[test]
fn try_wait_exited() {
    // exit(1) leaves the status word 256
    let r: Result<_, WaitError<&str>> = interpret_try_wait(7, Ok(7), 256);
    assert!(matches!(r, Ok(Some(ExitStatus(1)))));
    let r: Result<_, WaitError<&str>> = interpret_try_wait(7, Ok(7), 42 << 8);
    assert!(matches!(r, Ok(Some(ExitStatus(42)))));
    let r: Result<_, WaitError<&str>> = interpret_try_wait(7, Ok(7), 0);
    assert!(matches!(r, Ok(Some(ExitStatus(0)))));
}

#[test]
fn try_wait_unknown_pid() {
    let r: Result<_, WaitError<&str>> = interpret_try_wait(7, Ok(8), 0);
    assert!(matches!(r, Err(WaitError::UnknownPid(8))));
}

#[test]
fn try_wait_failed_call() {
    let r = interpret_try_wait(7, Err("no child"), 0);
    assert!(matches!(r, Err(WaitError::Failed("no child"))));
}

#[test]
fn try_wait_zero_wins_over_matching_id() {
    let r: Result<_, WaitError<&str>> = interpret_try_wait(0, Ok(0), 5);
    assert!(matches!(r, Ok(None)));
}

#[test]
fn wait_reports_status_or_error() {
    let ok: Result<ExitStatus, &str> = interpret_wait(Ok(12), 3 << 8);
    assert_eq!(ok, Ok(ExitStatus(3)));
    // killed by SIGKILL
    let killed: Result<ExitStatus, &str> = interpret_wait(Ok(12), 9);
    assert_eq!(killed, Ok(ExitStatus(1)));
    let err: Result<ExitStatus, &str> = interpret_wait(Err("interrupted"), 3);
    assert_eq!(err, Err("interrupted"));
}
