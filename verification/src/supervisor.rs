use crate::backoff::{backoff_step, fresh, restart_step, Backoff, BackoffView};
use crate::process::id_to_pid;
use crate::status::ExitStatus;
use libc::pid_t;
use std::time::Duration;
use vstd::prelude::*;

verus! {

/// Where the supervision loop stands.
#[derive(PartialEq, Eq, Clone, Copy, Debug, Structural)]
pub enum Phase {
    /// About to decide whether to start the process again.
    Ready,
    /// Starting the process.
    Spawning,
    /// The process is running and being waited for.
    Running,
    /// The loop has ended for good.
    Stopped,
}

/// What the supervision loop does next.
#[derive(PartialEq, Eq, Clone, Copy, Debug, Structural)]
pub enum LoopAction {
    /// Start the process.
    Spawn,
    /// Leave the loop: a shutdown was asked for.
    Stop,
}

/// The abstract state of a [`Supervisor`].
pub struct SupervisorView {
    /// Whether a shutdown was asked for.
    pub kill_requested: bool,
    /// The id of the running process, if one is running.
    pub pid: Option<u32>,
    pub phase: Phase,
    /// How many processes have been started.
    pub spawned: nat,
}

impl SupervisorView {
    /// A supervisor that has not started anything yet.
    pub open spec fn initial() -> SupervisorView {
        SupervisorView { kill_requested: false, pid: None, phase: Phase::Ready, spawned: 0 }
    }

    /// The state once a shutdown was asked for.
    pub open spec fn kill(self) -> SupervisorView {
        SupervisorView { kill_requested: true, ..self }
    }

    /// The decision at the top of the loop and the state after it.
    pub open spec fn begin(self) -> (SupervisorView, LoopAction) {
        if self.kill_requested {
            (SupervisorView { pid: None, phase: Phase::Stopped, ..self }, LoopAction::Stop)
        } else {
            (SupervisorView { phase: Phase::Spawning, ..self }, LoopAction::Spawn)
        }
    }

    /// The state once the process was started with id `pid`.
    pub open spec fn started(self, pid: u32) -> SupervisorView {
        SupervisorView {
            pid: Some(pid),
            phase: Phase::Running,
            spawned: self.spawned + 1,
            ..self
        }
    }

    /// The state once the process exited.
    pub open spec fn exited(self) -> SupervisorView {
        SupervisorView { pid: None, phase: Phase::Ready, ..self }
    }
}

/// The decisions of the loop that keeps a process running: it starts the
/// process, waits for it to exit and starts it again, until a shutdown is
/// asked for. The loop itself, and the waiting between restarts, are left to
/// the caller, which reports each event here and does what it is told.
pub struct Supervisor {
    kill_requested: bool,
    pid: Option<u32>,
    phase: Phase,
    spawned: Ghost<nat>,
}

impl View for Supervisor {
    type V = SupervisorView;

    closed spec fn view(&self) -> SupervisorView {
        SupervisorView {
            kill_requested: self.kill_requested,
            pid: self.pid,
            phase: self.phase,
            spawned: self.spawned@,
        }
    }
}

impl Supervisor {
    /// A supervisor that has not started anything yet.
    pub fn new() -> (s: Self)
        ensures
            s@ == SupervisorView::initial(),
    {
        Supervisor { kill_requested: false, pid: None, phase: Phase::Ready, spawned: Ghost(0) }
    }

    /// Asks the loop to stop at its next decision.
    pub fn request_kill(&mut self)
        ensures
            final(self)@ == old(self)@.kill(),
            final(self)@.kill_requested,
            final(self)@.phase == old(self)@.phase,
            final(self)@.pid == old(self)@.pid,
            final(self)@.spawned == old(self)@.spawned,
    {
        self.kill_requested = true;
    }

    /// The id of the running process, or `None` if no process is running.
    pub fn get_pid(&self) -> (pid: Option<u32>)
        ensures
            pid == self@.pid,
    {
        self.pid
    }

    /// Where the loop stands.
    pub fn phase(&self) -> (phase: Phase)
        ensures
            phase == self@.phase,
    {
        self.phase
    }

    /// The decision at the top of the loop: stop, forgetting the process id,
    /// if a shutdown was asked for; start the process otherwise.
    pub fn begin_iteration(&mut self) -> (action: LoopAction)
        requires
            old(self)@.phase == Phase::Ready,
        ensures
            (final(self)@, action) == old(self)@.begin(),
            action == (if old(self)@.kill_requested {
                LoopAction::Stop
            } else {
                LoopAction::Spawn
            }),
            final(self)@.kill_requested == old(self)@.kill_requested,
            final(self)@.spawned == old(self)@.spawned,
    {
        if self.kill_requested {
            self.pid = None;
            self.phase = Phase::Stopped;
            LoopAction::Stop
        } else {
            self.phase = Phase::Spawning;
            LoopAction::Spawn
        }
    }

    /// Records that the process was started with id `pid`.
    pub fn child_started(&mut self, pid: u32)
        requires
            old(self)@.phase == Phase::Spawning,
        ensures
            final(self)@ == old(self)@.started(pid),
            final(self)@.pid == Some(pid),
            final(self)@.phase == Phase::Running,
            final(self)@.kill_requested == old(self)@.kill_requested,
            final(self)@.spawned == old(self)@.spawned + 1,
    {
        self.pid = Some(pid);
        self.phase = Phase::Running;
        self.spawned = Ghost(self.spawned@ + 1);
    }

    /// Records that the process exited, so that no process is running any
    /// more, and records the restart in `backoff`; returns how long to wait
    /// before the next one.
    pub fn child_exited(&mut self, backoff: &mut Backoff) -> (delay: Duration)
        requires
            old(self)@.phase == Phase::Running,
            old(backoff)@.can_restart_any(),
        ensures
            final(self)@ == old(self)@.exited(),
            final(self)@.phase == Phase::Ready,
            final(self)@.pid is None,
            final(self)@.kill_requested == old(self)@.kill_requested,
            final(self)@.spawned == old(self)@.spawned,
            backoff_step(old(backoff)@, final(backoff)@, delay),
            final(backoff)@.inv(),
    {
        self.pid = None;
        self.phase = Phase::Ready;
        backoff.next_backoff()
    }
}

/// The process a shutdown has to deal with, as a raw pid: the running one,
/// if any.
pub fn shutdown_target(pid: Option<u32>) -> (target: Option<pid_t>)
    ensures
        target == (match pid {
            Some(p) => Some(p as pid_t),
            None => None::<pid_t>,
        }),
{
    match pid {
        Some(p) => Some(id_to_pid(p)),
        None => None,
    }
}

/// Whether a shutdown must kill the process, given what a non-blocking wait
/// for it reported: only when it is still running. A process that already
/// exited may have its id reused, and a failed wait gives no certainty.
pub fn needs_kill<E>(probe: &Result<Option<ExitStatus>, E>) -> (kill: bool)
    ensures
        kill == (probe is Ok && probe->Ok_0 is None),
{
    match probe {
        Ok(None) => true,
        Ok(Some(_)) => false,
        Err(_) => false,
    }
}

/// A shutdown asked for before the loop's next decision stops the loop and
/// forgets the process id; once stopped, the supervisor has no process for
/// a shutdown to kill.
pub proof fn lemma_kill_stops_the_loop(s: SupervisorView)
    ensures
        s.kill().begin().1 == LoopAction::Stop,
        s.kill().begin().0.phase == Phase::Stopped,
        s.kill().begin().0.pid is None,
{
}

/// Without a shutdown, each round of the loop starts the process, knows its
/// id while it runs, and after it exits is ready for the next round with no
/// process running.
pub proof fn lemma_round_tracks_running_pid(s: SupervisorView, pid: u32)
    requires
        !s.kill_requested,
        s.phase == Phase::Ready,
    ensures
        s.begin().1 == LoopAction::Spawn,
        s.begin().0.started(pid).pid == Some(pid),
        s.begin().0.started(pid).exited().phase == Phase::Ready,
        s.begin().0.started(pid).exited().pid is None,
        !s.begin().0.started(pid).exited().kill_requested,
{
}

/// A shutdown, once asked for, is never forgotten by the loop's steps.
pub proof fn lemma_kill_request_persists(s: SupervisorView, pid: u32)
    requires
        s.kill_requested,
    ensures
        s.begin().0.kill_requested,
        s.started(pid).kill_requested,
        s.exited().kill_requested,
        s.kill().kill_requested,
{
}

/// The loop's state and its backoff agree: every process started has been
/// counted as a restart once it exited, a process runs exactly while the
/// loop is in the running phase, and its id is known exactly then.
pub open spec fn loop_consistent(s: SupervisorView, b: BackoffView) -> bool {
    &&& s.spawned == b.restart_count + (if s.phase == Phase::Running {
        1int
    } else {
        0int
    })
    &&& (s.pid is Some <==> s.phase == Phase::Running)
}

/// The loop starts consistent, and each of its steps keeps it so. Hence at
/// every moment the restart count is at most the number of processes
/// started and at least one less; a process is started only when none is
/// running; and none is started once the loop stopped.
pub proof fn lemma_loop_stays_consistent(
    s: SupervisorView,
    b: BackoffView,
    pid: u32,
    after: BackoffView,
    quick: bool,
    delay: nat,
    threshold: Duration,
)
    requires
        loop_consistent(s, b),
    ensures
        loop_consistent(SupervisorView::initial(), fresh(threshold)),
        b.restart_count <= s.spawned <= b.restart_count + 1,
        s.phase == Phase::Spawning ==> s.pid is None,
        s.phase == Phase::Ready ==> loop_consistent(s.begin().0, b),
        s.phase == Phase::Spawning ==> loop_consistent(s.started(pid), b),
        s.phase == Phase::Running && restart_step(b, after, quick, delay) ==> loop_consistent(
            s.exited(),
            after,
        ),
        loop_consistent(s.kill(), b),
{
}

/// Asking for a shutdown only records the request: the loop's phase and the
/// running process stay as they were, and the loop itself acts on it at its
/// next decision. If the loop was between rounds, that decision is to stop.
pub proof fn lemma_kill_only_records_request(s: SupervisorView)
    ensures
        s.kill().kill_requested,
        s.kill().phase == s.phase,
        s.kill().pid == s.pid,
        s.kill().spawned == s.spawned,
        s.phase == Phase::Ready ==> s.kill().phase == Phase::Ready && s.kill().begin().1
            == LoopAction::Stop,
{
}

/// An exit always brings the loop back to its decision, with no process
/// running, whether or not a shutdown was asked for; with one asked for,
/// that decision is to stop, so a shutdown of a running process ends the
/// loop once the process exits.
pub proof fn lemma_exit_returns_to_decision(s: SupervisorView)
    ensures
        s.exited().phase == Phase::Ready,
        s.exited().pid is None,
        s.exited().kill_requested == s.kill_requested,
        s.kill_requested ==> s.exited().begin().1 == LoopAction::Stop && s.exited().begin().0.phase
            == Phase::Stopped,
        !s.kill_requested ==> s.exited().begin().1 == LoopAction::Spawn,
{
}

/// A shutdown asked for while the process runs: the process is still known
/// until it exits, the exit brings the loop back to its decision, and the
/// loop then stops with no process left.
pub proof fn lemma_shutdown_of_running_process(s: SupervisorView, pid: u32)
    requires
        s.phase == Phase::Spawning,
    ensures
        s.started(pid).kill().pid == Some(pid),
        s.started(pid).kill().exited().phase == Phase::Ready,
        s.started(pid).kill().exited().begin().1 == LoopAction::Stop,
        s.started(pid).kill().exited().begin().0.pid is None,
        s.started(pid).kill().exited().begin().0.phase == Phase::Stopped,
{
}

} // verus!
