use crate::status::{decode_wait_status, decoded_status, ExitStatus};
use libc::c_int;
use vstd::prelude::*;

verus! {

#[verifier::external_type_specification]
#[verifier::external_body]
pub struct ExIoError(std::io::Error);

/// Whether the error's kind is `ErrorKind::Interrupted`: what
/// `std::io::Error::kind` tells of it.
pub uninterp spec fn io_error_is_interrupted(e: std::io::Error) -> bool;

/// The OS error code that `e` carries, if any: what
/// `std::io::Error::raw_os_error` returns.
pub uninterp spec fn io_error_raw_os_error(e: std::io::Error) -> Option<i32>;

/// Calls `std::io::Error::last_os_error`. The error is read from the thread's
/// `errno`, so which code it carries is not stated; std documents that an
/// error built this way carries an OS error code.
#[verifier::external_body]
fn last_os_error() -> (e: std::io::Error)
    ensures
        io_error_raw_os_error(e) is Some,
{
    std::io::Error::last_os_error()
}

/// Calls `std::io::Error::kind` and tells whether the kind is
/// `ErrorKind::Interrupted`.
#[verifier::external_body]
fn is_interrupted(e: &std::io::Error) -> (interrupted: bool)
    ensures
        interrupted == io_error_is_interrupted(*e),
{
    match e.kind() {
        std::io::ErrorKind::Interrupted => true,
        _ => false,
    }
}

/// Checks the return value of a libc function: `-1` reports a failure,
/// whose cause is the last OS error; any other value is a success.
pub fn c_rv(t: c_int) -> (r: std::io::Result<c_int>)
    ensures
        r is Err <==> t == -1,
        r is Ok ==> r->Ok_0 == t,
        r is Err ==> io_error_raw_os_error(r->Err_0) is Some,
{
    if t == -1 {
        Err(last_os_error())
    } else {
        Ok(t)
    }
}

/// Whether a libc call whose checked result is `r` must be made again:
/// exactly when it failed because it was interrupted (`EINTR`).
pub fn c_rv_needs_retry(r: &std::io::Result<c_int>) -> (retry: bool)
    ensures
        retry == (r is Err && io_error_is_interrupted(r->Err_0)),
{
    match r {
        Err(e) => is_interrupted(e),
        Ok(_) => false,
    }
}

/// Why a non-blocking wait for a process failed.
pub enum WaitError<E> {
    /// `waitpid` reported a process other than the one asked for.
    UnknownPid(c_int),
    /// `waitpid` itself failed.
    Failed(E),
}

/// What a non-blocking wait for process `id` reports, given what `waitpid`
/// returned (`rv`, already checked) and the status it wrote.
pub open spec fn try_wait_outcome<E>(id: c_int, rv: Result<c_int, E>, status: c_int) -> Result<
    Option<ExitStatus>,
    WaitError<E>,
> {
    match rv {
        Ok(n) => if n == 0 {
            Ok(None)
        } else if n == id {
            Ok(Some(decoded_status(status)))
        } else {
            Err(WaitError::UnknownPid(n))
        },
        Err(e) => Err(WaitError::Failed(e)),
    }
}

/// Interprets the result of `waitpid(id, &status, WNOHANG)`: `0` means the
/// process is still running, `id` that it ended, with the exit status that
/// the status word tells of; any other process id is an error, and so is a
/// failed call.
pub fn interpret_try_wait<E>(id: c_int, rv: Result<c_int, E>, status: c_int) -> (r: Result<
    Option<ExitStatus>,
    WaitError<E>,
>)
    ensures
        r == try_wait_outcome(id, rv, status),
        rv == Ok::<c_int, E>(0) ==> r == Ok::<Option<ExitStatus>, WaitError<E>>(None),
        id != 0 && rv == Ok::<c_int, E>(id) ==> r == Ok::<Option<ExitStatus>, WaitError<E>>(
            Some(decoded_status(status)),
        ),
        r == Ok::<Option<ExitStatus>, WaitError<E>>(None) ==> rv == Ok::<c_int, E>(0),
        r is Err ==> rv != Ok::<c_int, E>(0) && rv != Ok::<c_int, E>(id),
{
    match rv {
        Ok(n) => {
            if n == 0 {
                Ok(None)
            } else if n == id {
                Ok(Some(decode_wait_status(status)))
            } else {
                Err(WaitError::UnknownPid(n))
            }
        },
        Err(e) => Err(WaitError::Failed(e)),
    }
}

/// Interprets the result of a blocking `waitpid(id, &status, 0)`: on success
/// the process ended with the exit status that the status word tells of; a
/// failure is passed on.
pub fn interpret_wait<E>(rv: Result<c_int, E>, status: c_int) -> (r: Result<ExitStatus, E>)
    ensures
        r == (match rv {
            Ok(_) => Ok::<ExitStatus, E>(decoded_status(status)),
            Err(e) => Err(e),
        }),
{
    match rv {
        Ok(_) => Ok(decode_wait_status(status)),
        Err(e) => Err(e),
    }
}

/// A non-blocking wait reports a process as still running exactly when
/// `waitpid` returned `0`. When it returned the id asked for, the process
/// has ended, whatever its status word, and is reported with the exit
/// status that the word tells of; any other id, or a failed call, is an
/// error that names what `waitpid` gave.
pub proof fn lemma_try_wait_reports_ended_processes<E>(
    id: c_int,
    rv: Result<c_int, E>,
    status: c_int,
)
    ensures
        (try_wait_outcome(id, rv, status) == Ok::<Option<ExitStatus>, WaitError<E>>(None)) <==> (rv
            == Ok::<c_int, E>(0)),
        id != 0 ==> try_wait_outcome(id, Ok::<c_int, E>(id), status) == Ok::<
            Option<ExitStatus>,
            WaitError<E>,
        >(Some(decoded_status(status))),
        rv is Ok && rv->Ok_0 != 0 && rv->Ok_0 != id ==> try_wait_outcome(id, rv, status) == Err::<
            Option<ExitStatus>,
            WaitError<E>,
        >(WaitError::UnknownPid(rv->Ok_0)),
        rv is Err ==> try_wait_outcome(id, rv, status) == Err::<
            Option<ExitStatus>,
            WaitError<E>,
        >(WaitError::Failed(rv->Err_0)),
{
}

} // verus!
