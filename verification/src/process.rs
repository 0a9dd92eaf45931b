use crate::status::ExitStatus;
use libc::{c_int, pid_t};
use vstd::prelude::*;

verus! {

/// Which side of a `fork` the caller is on.
#[derive(PartialEq, Eq, Clone, Copy, Debug, Structural)]
pub enum ForkResult {
    /// The call failed; no child was created.
    Failed,
    /// This is the new child process.
    InChild,
    /// This is the parent; the child has the given process id.
    InParent(pid_t),
}

/// What `fork` returning `rv` means: `-1` is a failure, `0` is returned in
/// the child, and any other value is the child's id, returned in the parent.
pub fn classify_fork(rv: pid_t) -> (r: ForkResult)
    ensures
        r == (if rv == -1 {
            ForkResult::Failed
        } else if rv == 0 {
            ForkResult::InChild
        } else {
            ForkResult::InParent(rv)
        }),
{
    if rv == -1 {
        ForkResult::Failed
    } else if rv == 0 {
        ForkResult::InChild
    } else {
        ForkResult::InParent(rv)
    }
}

/// The code with which a forked child exits once its work returned
/// `outcome`: `0` when it succeeded, `1` when it failed.
pub fn child_exit_code<E>(outcome: &Result<(), E>) -> (code: c_int)
    ensures
        code == (if outcome is Ok {
            0int
        } else {
            1int
        }),
{
    match outcome {
        Ok(()) => 0,
        Err(_) => 1,
    }
}

/// The process id of a child, as handed out to callers, from its raw `pid`.
pub fn pid_to_id(pid: pid_t) -> (id: u32)
    ensures
        id == pid as u32,
{
    pid as u32
}

/// The raw pid to hand to the process calls for the process id `id`.
pub fn id_to_pid(id: u32) -> (pid: pid_t)
    ensures
        pid == id as pid_t,
{
    id as pid_t
}

/// Turning a raw pid into a process id and back gives the same pid.
pub proof fn lemma_pid_round_trip(pid: pid_t)
    ensures
        (pid as u32) as pid_t == pid,
{
    assert((pid as u32) as i32 == pid) by (bit_vector);
}

/// Turning a process id into a raw pid and back gives the same id.
pub proof fn lemma_id_round_trip(id: u32)
    ensures
        (id as pid_t) as u32 == id,
{
    assert((id as i32) as u32 == id) by (bit_vector);
}

/// What is known of a child's exit after a wait that reported `status`,
/// given what was known before: the first status reported is kept.
pub open spec fn after_wait(known: Option<ExitStatus>, status: ExitStatus) -> Option<ExitStatus> {
    match known {
        Some(s) => Some(s),
        None => Some(status),
    }
}

/// The exit status of a child, once it has been waited for. A child can be
/// reaped only once, so the first status obtained is the one every later
/// wait reports.
pub struct ExitRecord {
    status: Option<ExitStatus>,
}

impl View for ExitRecord {
    type V = Option<ExitStatus>;

    closed spec fn view(&self) -> Option<ExitStatus> {
        self.status
    }
}

impl ExitRecord {
    /// A record of a child that has not been waited for.
    pub fn new() -> (r: Self)
        ensures
            r@ is None,
    {
        ExitRecord { status: None }
    }

    /// The recorded exit status, if the child has been waited for.
    pub fn known(&self) -> (s: Option<ExitStatus>)
        ensures
            s == self@,
    {
        self.status
    }

    /// Records that a wait reported `status`, and returns the status the
    /// child exited with: the one recorded first.
    pub fn record(&mut self, status: ExitStatus) -> (exited_with: ExitStatus)
        ensures
            final(self)@ == after_wait(old(self)@, status),
            final(self)@ == Some(exited_with),
    {
        match self.status {
            Some(s) => s,
            None => {
                self.status = Some(status);
                status
            },
        }
    }
}

/// Once a status is recorded, later waits change nothing: every one of them
/// reports the first status.
pub proof fn lemma_first_status_is_kept(
    known: Option<ExitStatus>,
    first: ExitStatus,
    later: ExitStatus,
)
    ensures
        after_wait(after_wait(known, first), later) == after_wait(known, first),
        known is None ==> after_wait(known, first) == Some(first),
{
}

} // verus!
