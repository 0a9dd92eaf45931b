use std::time::{Duration, Instant};
use vstd::prelude::*;

verus! {

#[verifier::external_type_specification]
#[verifier::external_body]
pub struct ExInstant(Instant);

/// The length of `d` in nanoseconds: what `Duration::as_nanos` returns.
pub uninterp spec fn duration_as_nanos(d: Duration) -> u128;

/// The span of time from `earlier` to `later` (zero when `later` is the
/// earlier one): what `Instant::saturating_duration_since` returns.
pub uninterp spec fn instant_duration_since(later: Instant, earlier: Instant) -> Duration;

/// The duration of `secs` whole seconds: what `Duration::from_secs` returns.
pub uninterp spec fn duration_from_secs(secs: u64) -> Duration;

/// Reads the monotonic clock through `Instant::now`. Nothing is stated of the
/// instant it returns: it depends on when the call is made.
#[verifier::external_body]
fn clock_now() -> Instant {
    Instant::now()
}

/// Calls `Instant::saturating_duration_since`, which is what subtracting two
/// instants does; the contract only names the result after its arguments.
#[verifier::external_body]
fn elapsed_between(later: Instant, earlier: Instant) -> (span: Duration)
    ensures
        span == instant_duration_since(later, earlier),
{
    later.saturating_duration_since(earlier)
}

/// Compares two durations with `<`; std orders durations by their length.
#[verifier::external_body]
fn duration_shorter(a: &Duration, b: &Duration) -> (shorter: bool)
    ensures
        shorter == (duration_as_nanos(*a) < duration_as_nanos(*b)),
{
    a < b
}

/// Calls `Duration::from_secs`, which builds a duration of `secs` whole
/// seconds.
#[verifier::external_body]
fn duration_of_secs(secs: u64) -> (d: Duration)
    ensures
        d == duration_from_secs(secs),
        duration_as_nanos(d) == secs * 1_000_000_000,
{
    Duration::from_secs(secs)
}

/// The abstract state of a [`Backoff`].
pub struct BackoffView {
    /// How many restarts have been recorded.
    pub restart_count: nat,
    /// A run of the process shorter than this counts as a quick failure.
    pub threshold: Duration,
    /// When the last restart happened, if any did.
    pub start: Option<Instant>,
    /// The backoff level; it grows by one with each quick failure.
    pub level: nat,
}

impl BackoffView {
    /// The level is never zero.
    pub open spec fn inv(self) -> bool {
        self.level >= 1
    }

    /// A restart follows a quick failure: the process had been started
    /// before, and it ran for less than the threshold.
    pub open spec fn quick(self, within_threshold: bool) -> bool {
        self.start is Some && within_threshold
    }

    /// How long to wait before the restart, in seconds.
    pub open spec fn delay_secs(self, within_threshold: bool) -> nat {
        if self.quick(within_threshold) {
            ((self.level + 1) * (self.level + 1) / 2) as nat
        } else {
            0
        }
    }

    /// The state after a restart at `at`.
    pub open spec fn restarted(self, within_threshold: bool, at: Instant) -> BackoffView {
        BackoffView {
            restart_count: self.restart_count + 1,
            threshold: self.threshold,
            start: Some(at),
            level: if self.start is Some {
                if within_threshold {
                    self.level + 1
                } else {
                    1
                }
            } else {
                self.level
            },
        }
    }

    /// Whether, with the clock reading `now`, the process has run for less
    /// than the threshold since the last restart.
    pub open spec fn within_threshold(self, now: Instant) -> bool {
        match self.start {
            Some(s) => duration_as_nanos(instant_duration_since(now, s)) < duration_as_nanos(
                self.threshold,
            ),
            None => false,
        }
    }

    /// A restart can be recorded without overflowing the restart counter, and
    /// a quick failure without overflowing the delay.
    pub open spec fn can_restart(self, within_threshold: bool) -> bool {
        &&& self.restart_count < u64::MAX
        &&& self.quick(within_threshold) ==> self.level < 0xFFFF_FFFF
    }

    /// A restart can be recorded whatever the clock says.
    pub open spec fn can_restart_any(self) -> bool {
        self.can_restart(true) && self.can_restart(false)
    }
}

/// A simple non-linear backoff strategy for restarting a process.
///
/// A process that fails within the threshold of being started is restarted
/// after a delay that grows quadratically with the number of quick failures
/// in a row; one that ran for longer is restarted at once.
pub struct Backoff {
    restart_count: u64,
    restart_threshold: Duration,
    start_time: Option<Instant>,
    backoff: u64,
}

impl View for Backoff {
    type V = BackoffView;

    closed spec fn view(&self) -> BackoffView {
        BackoffView {
            restart_count: self.restart_count as nat,
            threshold: self.restart_threshold,
            start: self.start_time,
            level: self.backoff as nat,
        }
    }
}

impl Backoff {
    #[verifier::type_invariant]
    spec fn level_positive(self) -> bool {
        self.backoff >= 1
    }

    /// A backoff with no restart recorded yet.
    pub fn new(restart_threshold: Duration) -> (b: Self)
        ensures
            b@ == (BackoffView {
                restart_count: 0,
                threshold: restart_threshold,
                start: None,
                level: 1,
            }),
    {
        Backoff { restart_count: 0, restart_threshold, start_time: None, backoff: 1 }
    }

    /// A backoff whose threshold is `restart_threshold_secs` whole seconds.
    pub fn from_secs(restart_threshold_secs: u64) -> (b: Self)
        ensures
            b@ == (BackoffView {
                restart_count: 0,
                threshold: duration_from_secs(restart_threshold_secs),
                start: None,
                level: 1,
            }),
            duration_as_nanos(b@.threshold) == restart_threshold_secs * 1_000_000_000,
    {
        Backoff::new(duration_of_secs(restart_threshold_secs))
    }

    /// The number of restarts recorded so far.
    pub fn get_restart_count(&self) -> (count: u64)
        ensures
            count == self@.restart_count,
    {
        self.restart_count
    }

    /// Whether [`Backoff::next_backoff`] can be called: its counters cannot
    /// overflow, whatever the clock says.
    pub fn can_record_restart(&self) -> (ok: bool)
        ensures
            ok == self@.can_restart_any(),
    {
        self.restart_count < u64::MAX && (self.start_time.is_none() || self.backoff < 0xFFFF_FFFF)
    }

    /// Records a restart that happens at `restart_time` and returns how many
    /// seconds to wait before it. `within_threshold` tells whether the
    /// process ran for less than the threshold since the last restart; it
    /// does not matter for the first restart.
    pub fn record_restart(&mut self, within_threshold: bool, restart_time: Instant) -> (secs: u64)
        requires
            old(self)@.can_restart(within_threshold),
        ensures
            final(self)@ == old(self)@.restarted(within_threshold, restart_time),
            secs == old(self)@.delay_secs(within_threshold),
            restart_step(old(self)@, final(self)@, within_threshold, secs as nat),
            restart_step_at(old(self)@, final(self)@, within_threshold, restart_time, secs as nat),
            final(self)@.start == Some(restart_time),
            final(self)@.restart_count == old(self)@.restart_count + 1,
            final(self)@.threshold == old(self)@.threshold,
            final(self)@.inv(),
    {
        proof {
            use_type_invariant(&*self);
        }
        let secs: u64 = if self.start_time.is_some() {
            if within_threshold {
                self.backoff = self.backoff + 1;
                let level: u64 = self.backoff;
                assert(level * level <= u64::MAX) by (nonlinear_arith)
                    requires
                        level <= 0xFFFF_FFFF,
                ;
                let square: u64 = level * level;
                assert(square >> 1 == square / 2) by (bit_vector);
                square >> 1
            } else {
                self.backoff = 1;
                0
            }
        } else {
            0
        };
        self.restart_count = self.restart_count + 1;
        self.start_time = Some(restart_time);
        proof {
            use_type_invariant(&*self);
        }
        secs
    }

    /// Whether, with the clock reading `now`, the process has run for less
    /// than the threshold since the last restart; never before the first.
    pub fn is_quick(&self, now: Instant) -> (quick: bool)
        ensures
            quick == self@.within_threshold(now),
    {
        match self.start_time {
            Some(start) => {
                let elapsed = elapsed_between(now, start);
                duration_shorter(&elapsed, &self.restart_threshold)
            },
            None => false,
        }
    }

    /// Records a restart now and returns how long to wait before it.
    ///
    /// The first restart happens at once. Afterwards, a process that failed
    /// within the threshold of its last start waits `(n * n) / 2` seconds,
    /// where `n` grows by one with every quick failure in a row; one that ran
    /// longer resets the backoff and restarts at once.
    ///
    /// The clock is read once: the reading both tells whether the run was
    /// quick and becomes the time of this restart, from which the next call
    /// measures. The contract leaves the reading itself open.
    pub fn next_backoff(&mut self) -> (delay: Duration)
        requires
            old(self)@.can_restart_any(),
        ensures
            backoff_step(old(self)@, final(self)@, delay),
            final(self)@.start is Some,
            final(self)@.restart_count == old(self)@.restart_count + 1,
            final(self)@.threshold == old(self)@.threshold,
            final(self)@.inv(),
    {
        let now = clock_now();
        let within_threshold = self.is_quick(now);
        let secs = self.record_restart(within_threshold, now);
        duration_of_secs(secs)
    }
}

/// The time elapsed from `earlier` to `later`, in nanoseconds.
pub open spec fn gap_nanos(later: Instant, earlier: Instant) -> u128 {
    duration_as_nanos(instant_duration_since(later, earlier))
}

/// One restart, as [`Backoff::record_restart`] makes it: from `before` to
/// `after`, at `at`, `quick` telling whether the run was quick, with a wait
/// of `delay` seconds.
pub open spec fn restart_step_at(
    before: BackoffView,
    after: BackoffView,
    quick: bool,
    at: Instant,
    delay: nat,
) -> bool {
    &&& after == before.restarted(quick, at)
    &&& delay == before.delay_secs(quick)
}

/// A restart at the clock reading `now`, whose quickness is what that reading
/// tells: the run since the last restart was shorter than the threshold.
pub open spec fn timed_step(before: BackoffView, after: BackoffView, now: Instant, delay: nat) -> bool {
    restart_step_at(before, after, before.within_threshold(now), now, delay)
}

/// One call of [`Backoff::next_backoff`]: a restart at the clock reading that
/// becomes the new start, returning a duration of the delay.
pub open spec fn backoff_step(before: BackoffView, after: BackoffView, delay: Duration) -> bool {
    &&& after.start is Some
    &&& {
        let now = after.start.unwrap();
        let secs = before.delay_secs(before.within_threshold(now));
        &&& timed_step(before, after, now, secs)
        &&& delay == duration_from_secs(secs as u64)
        &&& duration_as_nanos(delay) == secs * 1_000_000_000
    }
}

/// One restart, as [`Backoff::record_restart`] makes it: from `before` to
/// `after`, with the restart at the start that `after` records, `quick`
/// telling whether the run was quick, and a wait of `delay` seconds.
pub open spec fn restart_step(before: BackoffView, after: BackoffView, quick: bool, delay: nat) -> bool {
    &&& after.start is Some
    &&& after == before.restarted(quick, after.start.unwrap())
    &&& delay == before.delay_secs(quick)
}

/// A backoff with threshold `threshold` and no restart recorded yet.
pub open spec fn fresh(threshold: Duration) -> BackoffView {
    BackoffView { restart_count: 0, threshold, start: None, level: 1 }
}

/// A run of restarts, one after another, as successive calls of
/// [`Backoff::next_backoff`] (or of [`Backoff::record_restart`] told what
/// [`Backoff::is_quick`] says) make them: `states[k]` is the state before
/// the `k`-th restart, `times[k]` the clock reading at it, and `delays[k]`
/// how many seconds it waited.
pub open spec fn is_timed_run(states: Seq<BackoffView>, times: Seq<Instant>, delays: Seq<nat>) -> bool {
    &&& states.len() == times.len() + 1
    &&& delays.len() == times.len()
    &&& forall|k: int|
        #![trigger delays[k]]
        0 <= k < times.len() ==> timed_step(states[k], states[k + 1], times[k], delays[k])
}

/// A restart at `at` becomes the last start, whatever the state before it:
/// the next restart measures the run from `at`, counts as quick exactly when
/// less than the threshold passed since `at`, and the restart is counted.
pub proof fn lemma_quick_measured_from_last_restart(
    b: BackoffView,
    within_threshold: bool,
    at: Instant,
    now: Instant,
)
    ensures
        b.restarted(within_threshold, at).start == Some(at),
        b.restarted(within_threshold, at).within_threshold(now) == (gap_nanos(now, at)
            < duration_as_nanos(b.threshold)),
        b.restarted(within_threshold, at).restart_count == b.restart_count + 1,
        b.restarted(within_threshold, at).threshold == b.threshold,
{
}

/// Along a run, each restart counts as one, the threshold stays, the level
/// stays positive, and every state after the first starts at the time of
/// the restart before it.
pub proof fn lemma_timed_run_state(states: Seq<BackoffView>, times: Seq<Instant>, delays: Seq<nat>, k: int)
    requires
        is_timed_run(states, times, delays),
        states[0].inv(),
        0 <= k < states.len(),
    ensures
        states[k].restart_count == states[0].restart_count + k,
        states[k].threshold == states[0].threshold,
        states[k].inv(),
        k > 0 ==> states[k].start == Some(times[k - 1]),
        states[k].start is None ==> states[k].level == states[0].level,
    decreases k,
{
    if k > 0 {
        lemma_timed_run_state(states, times, delays, k - 1);
        assert(timed_step(states[k - 1], states[k], times[k - 1], delays[k - 1]));
    }
}

/// Every state that calls reach from a fresh backoff with threshold `d`
/// has counted exactly the restarts made, keeps the threshold `d` and a
/// positive level, and has no start exactly before the first restart, when
/// its level is still one.
pub proof fn lemma_fresh_timed_run_states(
    states: Seq<BackoffView>,
    times: Seq<Instant>,
    delays: Seq<nat>,
    d: Duration,
)
    requires
        is_timed_run(states, times, delays),
        states[0] == fresh(d),
    ensures
        forall|k: int|
            0 <= k < states.len() ==> {
                &&& #[trigger] states[k].restart_count == k
                &&& states[k].threshold == d
                &&& states[k].inv()
                &&& (states[k].start is None <==> k == 0)
                &&& (states[k].start is None ==> states[k].level == 1)
            },
{
    assert forall|k: int| 0 <= k < states.len() implies {
        &&& #[trigger] states[k].restart_count == k
        &&& states[k].threshold == d
        &&& states[k].inv()
        &&& (states[k].start is None <==> k == 0)
        &&& (states[k].start is None ==> states[k].level == 1)
    } by {
        lemma_timed_run_state(states, times, delays, k);
    }
}

/// From a started state, quick failures in a row raise the level by one
/// each, and the `j`-th of them after `k0` waits `(level + j + 1)^2 / 2`
/// seconds, where `level` is the level at `k0`.
pub proof fn lemma_timed_quick_run_levels(
    states: Seq<BackoffView>,
    times: Seq<Instant>,
    delays: Seq<nat>,
    k0: int,
    k: int,
)
    requires
        is_timed_run(states, times, delays),
        0 <= k0 <= k < states.len(),
        states[k0].start is Some,
        forall|j: int| k0 <= j < k ==> #[trigger] states[j].within_threshold(times[j]),
    ensures
        states[k].start is Some,
        states[k].level == states[k0].level + (k - k0),
        k < times.len() && states[k].within_threshold(times[k]) ==> delays[k] == (states[k0].level
            + (k - k0) + 1) * (states[k0].level + (k - k0) + 1) / 2,
    decreases k - k0,
{
    if k > k0 {
        lemma_timed_quick_run_levels(states, times, delays, k0, k - 1);
        assert(states[k - 1].within_threshold(times[k - 1]));
        assert(timed_step(states[k - 1], states[k], times[k - 1], delays[k - 1]));
    }
    if k < times.len() {
        assert(timed_step(states[k], states[k + 1], times[k], delays[k]));
    }
}

/// From a fresh backoff with threshold `d`, when every restart after the
/// first comes less than `d` after the one before it, the `k`-th call
/// (counting from one) waits `k^2 / 2` seconds: 0, 2, 4, 8, 12, 18, 24, ...
pub proof fn lemma_fresh_timed_run_schedule(
    states: Seq<BackoffView>,
    times: Seq<Instant>,
    delays: Seq<nat>,
    d: Duration,
)
    requires
        is_timed_run(states, times, delays),
        states[0] == fresh(d),
        forall|k: int|
            1 <= k < times.len() ==> #[trigger] gap_nanos(times[k], times[k - 1])
                < duration_as_nanos(d),
    ensures
        forall|k: int| 0 <= k < delays.len() ==> #[trigger] delays[k] == (k + 1) * (k + 1) / 2,
{
    assert forall|j: int| 1 <= j < times.len() implies #[trigger] states[j].within_threshold(
        times[j],
    ) by {
        lemma_timed_run_state(states, times, delays, j);
        assert(gap_nanos(times[j], times[j - 1]) < duration_as_nanos(d));
    }
    assert forall|k: int| 0 <= k < delays.len() implies #[trigger] delays[k] == (k + 1) * (k + 1)
        / 2 by {
        assert(timed_step(states[0], states[1], times[0], delays[0]));
        if k == 0 {
            assert((0 + 1) * (0 + 1) / 2 == 0) by (nonlinear_arith);
        } else {
            lemma_timed_run_state(states, times, delays, 1);
            lemma_timed_quick_run_levels(states, times, delays, 1, k);
        }
    }
}

/// A restart that comes less than the threshold after the one before it
/// waits at least two seconds, and strictly longer than that one did.
pub proof fn lemma_timed_run_quick_delays_increase(
    states: Seq<BackoffView>,
    times: Seq<Instant>,
    delays: Seq<nat>,
    k: int,
)
    requires
        is_timed_run(states, times, delays),
        states[0].inv(),
        0 <= k,
        k + 1 < times.len(),
        gap_nanos(times[k + 1], times[k]) < duration_as_nanos(states[0].threshold),
    ensures
        delays[k + 1] >= 2,
        delays[k + 1] > delays[k],
{
    lemma_timed_run_state(states, times, delays, k);
    lemma_timed_run_state(states, times, delays, k + 1);
    assert(timed_step(states[k], states[k + 1], times[k], delays[k]));
    assert(timed_step(states[k + 1], states[k + 2], times[k + 1], delays[k + 1]));
    let l = states[k].level;
    let m = states[k + 1].level;
    assert(m >= 1 ==> (m + 1) * (m + 1) / 2 >= 2) by (nonlinear_arith);
    if states[k].quick(states[k].within_threshold(times[k])) {
        assert((l + 1) * (l + 1) / 2 < (l + 2) * (l + 2) / 2) by (nonlinear_arith);
    }
}

/// A restart that comes at least the threshold after the one before it
/// happens at once and resets the backoff: if the next one comes less than
/// the threshold after it, that one waits two seconds, as the second restart
/// of a fresh backoff does.
pub proof fn lemma_run_long_gap_resets(
    states: Seq<BackoffView>,
    times: Seq<Instant>,
    delays: Seq<nat>,
    k: int,
)
    requires
        is_timed_run(states, times, delays),
        states[0].inv(),
        1 <= k < times.len(),
        gap_nanos(times[k], times[k - 1]) >= duration_as_nanos(states[0].threshold),
    ensures
        delays[k] == 0,
        states[k + 1].level == 1,
        k + 1 < times.len() && gap_nanos(times[k + 1], times[k]) < duration_as_nanos(
            states[0].threshold,
        ) ==> delays[k + 1] == 2,
{
    lemma_timed_run_state(states, times, delays, k);
    lemma_timed_run_state(states, times, delays, k + 1);
    assert(timed_step(states[k], states[k + 1], times[k], delays[k]));
    if k + 1 < times.len() {
        assert(timed_step(states[k + 1], states[k + 2], times[k + 1], delays[k + 1]));
        assert(((1 + 1) * (1 + 1) / 2) as nat == 2) by (nonlinear_arith);
    }
}

/// Two runs that start at the same level, both started or both not, and
/// find the same restarts quick, wait the same delays at every restart.
pub proof fn lemma_timed_runs_agree(
    states1: Seq<BackoffView>,
    times1: Seq<Instant>,
    delays1: Seq<nat>,
    states2: Seq<BackoffView>,
    times2: Seq<Instant>,
    delays2: Seq<nat>,
)
    requires
        is_timed_run(states1, times1, delays1),
        is_timed_run(states2, times2, delays2),
        times1.len() == times2.len(),
        states1[0].level == states2[0].level,
        (states1[0].start is Some) == (states2[0].start is Some),
        forall|k: int|
            0 <= k < times1.len() ==> #[trigger] states1[k].within_threshold(times1[k])
                == states2[k].within_threshold(times2[k]),
    ensures
        delays1 == delays2,
{
    assert forall|k: int| 0 <= k < delays1.len() implies #[trigger] delays1[k] == delays2[k] by {
        lemma_timed_runs_agree_at(states1, times1, delays1, states2, times2, delays2, k);
        assert(states1[k].within_threshold(times1[k]) == states2[k].within_threshold(times2[k]));
        assert(timed_step(states1[k], states1[k + 1], times1[k], delays1[k]));
        assert(timed_step(states2[k], states2[k + 1], times2[k], delays2[k]));
    }
    assert(delays1 =~= delays2);
}

proof fn lemma_timed_runs_agree_at(
    states1: Seq<BackoffView>,
    times1: Seq<Instant>,
    delays1: Seq<nat>,
    states2: Seq<BackoffView>,
    times2: Seq<Instant>,
    delays2: Seq<nat>,
    k: int,
)
    requires
        is_timed_run(states1, times1, delays1),
        is_timed_run(states2, times2, delays2),
        times1.len() == times2.len(),
        states1[0].level == states2[0].level,
        (states1[0].start is Some) == (states2[0].start is Some),
        forall|k: int|
            0 <= k < times1.len() ==> #[trigger] states1[k].within_threshold(times1[k])
                == states2[k].within_threshold(times2[k]),
        0 <= k < states1.len(),
    ensures
        states1[k].level == states2[k].level,
        (states1[k].start is Some) == (states2[k].start is Some),
    decreases k,
{
    if k > 0 {
        lemma_timed_runs_agree_at(states1, times1, delays1, states2, times2, delays2, k - 1);
        assert(states1[k - 1].within_threshold(times1[k - 1]) == states2[k - 1].within_threshold(
            times2[k - 1],
        ));
        assert(timed_step(states1[k - 1], states1[k], times1[k - 1], delays1[k - 1]));
        assert(timed_step(states2[k - 1], states2[k], times2[k - 1], delays2[k - 1]));
    }
}

/// A run of restarts, one after another, as successive calls of
/// [`Backoff::record_restart`] or [`Backoff::next_backoff`] make them:
/// `states[k]` is the state before the `k`-th restart, `quick[k]` tells
/// whether that restart followed a quick failure, and `delays[k]` is how
/// many seconds it waited. Each restart has its own time.
pub open spec fn is_run(states: Seq<BackoffView>, quick: Seq<bool>, delays: Seq<nat>) -> bool {
    &&& states.len() == quick.len() + 1
    &&& delays.len() == quick.len()
    &&& forall|k: int|
        #![trigger delays[k]]
        0 <= k < quick.len() ==> restart_step(states[k], states[k + 1], quick[k], delays[k])
}

/// Along a run, each restart counts as one, the threshold stays, the level
/// stays positive, and every state after the first has a start.
pub proof fn lemma_run_state(states: Seq<BackoffView>, quick: Seq<bool>, delays: Seq<nat>, k: int)
    requires
        is_run(states, quick, delays),
        states[0].inv(),
        0 <= k < states.len(),
    ensures
        states[k].restart_count == states[0].restart_count + k,
        states[k].threshold == states[0].threshold,
        states[k].inv(),
        k > 0 ==> states[k].start is Some,
        states[k].start is None ==> states[k].level == states[0].level,
    decreases k,
{
    if k > 0 {
        lemma_run_state(states, quick, delays, k - 1);
        assert(restart_step(states[k - 1], states[k], quick[k - 1], delays[k - 1]));
    }
}

/// Every state that calls reach from a fresh backoff with threshold `d`
/// has counted exactly the restarts made, keeps the threshold `d` and a
/// positive level, and has no start exactly before the first restart, when
/// its level is still one.
pub proof fn lemma_fresh_run_states(
    states: Seq<BackoffView>,
    quick: Seq<bool>,
    delays: Seq<nat>,
    d: Duration,
)
    requires
        is_run(states, quick, delays),
        states[0] == fresh(d),
    ensures
        forall|k: int|
            0 <= k < states.len() ==> {
                &&& #[trigger] states[k].restart_count == k
                &&& states[k].threshold == d
                &&& states[k].inv()
                &&& (states[k].start is None <==> k == 0)
                &&& (states[k].start is None ==> states[k].level == 1)
            },
{
    assert forall|k: int| 0 <= k < states.len() implies {
        &&& #[trigger] states[k].restart_count == k
        &&& states[k].threshold == d
        &&& states[k].inv()
        &&& (states[k].start is None <==> k == 0)
        &&& (states[k].start is None ==> states[k].level == 1)
    } by {
        lemma_run_state(states, quick, delays, k);
    }
}

/// From a started state, quick failures in a row raise the level by one
/// each, and the `j`-th of them after `k0` waits `(level + j + 1)^2 / 2`
/// seconds, where `level` is the level at `k0`.
pub proof fn lemma_quick_run_levels(
    states: Seq<BackoffView>,
    quick: Seq<bool>,
    delays: Seq<nat>,
    k0: int,
    k: int,
)
    requires
        is_run(states, quick, delays),
        0 <= k0 <= k < states.len(),
        states[k0].start is Some,
        forall|j: int| k0 <= j < k ==> #[trigger] quick[j],
    ensures
        states[k].start is Some,
        states[k].level == states[k0].level + (k - k0),
        k < quick.len() && quick[k] ==> delays[k] == (states[k0].level + (k - k0) + 1) * (
        states[k0].level + (k - k0) + 1) / 2,
    decreases k - k0,
{
    if k > k0 {
        lemma_quick_run_levels(states, quick, delays, k0, k - 1);
        assert(quick[k - 1]);
        assert(restart_step(states[k - 1], states[k], quick[k - 1], delays[k - 1]));
    }
    if k < quick.len() {
        assert(restart_step(states[k], states[k + 1], quick[k], delays[k]));
    }
}

/// From a fresh backoff, when every restart after the first follows a quick
/// failure, the `k`-th call (counting from one) waits `k^2 / 2` seconds:
/// 0, 2, 4, 8, 12, 18, 24, 32, ...
pub proof fn lemma_fresh_run_schedule(
    states: Seq<BackoffView>,
    quick: Seq<bool>,
    delays: Seq<nat>,
    d: Duration,
)
    requires
        is_run(states, quick, delays),
        states[0] == fresh(d),
        forall|k: int| 1 <= k < quick.len() ==> #[trigger] quick[k],
    ensures
        forall|k: int| 0 <= k < delays.len() ==> #[trigger] delays[k] == (k + 1) * (k + 1) / 2,
{
    assert forall|k: int| 0 <= k < delays.len() implies #[trigger] delays[k] == (k + 1) * (k + 1)
        / 2 by {
        assert(restart_step(states[0], states[1], quick[0], delays[0]));
        if k == 0 {
            assert((0 + 1) * (0 + 1) / 2 == 0) by (nonlinear_arith);
        } else {
            assert forall|j: int| 1 <= j < k implies #[trigger] quick[j] by {}
            lemma_quick_run_levels(states, quick, delays, 1, k);
        }
    }
}

/// A quick failure after the first restart waits at least two seconds, and
/// strictly longer than the restart before it.
pub proof fn lemma_run_quick_delays_increase(
    states: Seq<BackoffView>,
    quick: Seq<bool>,
    delays: Seq<nat>,
    k: int,
)
    requires
        is_run(states, quick, delays),
        states[0].inv(),
        0 <= k,
        k + 1 < quick.len(),
        quick[k + 1],
    ensures
        delays[k + 1] >= 2,
        delays[k + 1] > delays[k],
{
    lemma_run_state(states, quick, delays, k);
    lemma_run_state(states, quick, delays, k + 1);
    assert(restart_step(states[k], states[k + 1], quick[k], delays[k]));
    assert(restart_step(states[k + 1], states[k + 2], quick[k + 1], delays[k + 1]));
    let l = states[k].level;
    let m = states[k + 1].level;
    assert(m >= 1 ==> (m + 1) * (m + 1) / 2 >= 2) by (nonlinear_arith);
    if states[k].quick(quick[k]) {
        assert((l + 1) * (l + 1) / 2 < (l + 2) * (l + 2) / 2) by (nonlinear_arith);
    }
}

/// Two runs that start at the same level, both started or both not, and
/// see the same quick failures, wait the same delays at every restart.
pub proof fn lemma_runs_agree(
    states1: Seq<BackoffView>,
    states2: Seq<BackoffView>,
    quick: Seq<bool>,
    delays1: Seq<nat>,
    delays2: Seq<nat>,
)
    requires
        is_run(states1, quick, delays1),
        is_run(states2, quick, delays2),
        states1[0].level == states2[0].level,
        (states1[0].start is Some) == (states2[0].start is Some),
    ensures
        delays1 == delays2,
{
    assert forall|k: int| 0 <= k < delays1.len() implies #[trigger] delays1[k] == delays2[k] by {
        lemma_runs_agree_at(states1, states2, quick, delays1, delays2, k);
        assert(restart_step(states1[k], states1[k + 1], quick[k], delays1[k]));
        assert(restart_step(states2[k], states2[k + 1], quick[k], delays2[k]));
    }
    assert(delays1 =~= delays2);
}

proof fn lemma_runs_agree_at(
    states1: Seq<BackoffView>,
    states2: Seq<BackoffView>,
    quick: Seq<bool>,
    delays1: Seq<nat>,
    delays2: Seq<nat>,
    k: int,
)
    requires
        is_run(states1, quick, delays1),
        is_run(states2, quick, delays2),
        states1[0].level == states2[0].level,
        (states1[0].start is Some) == (states2[0].start is Some),
        0 <= k < states1.len(),
    ensures
        states1[k].level == states2[k].level,
        (states1[k].start is Some) == (states2[k].start is Some),
    decreases k,
{
    if k > 0 {
        lemma_runs_agree_at(states1, states2, quick, delays1, delays2, k - 1);
        assert(restart_step(states1[k - 1], states1[k], quick[k - 1], delays1[k - 1]));
        assert(restart_step(states2[k - 1], states2[k], quick[k - 1], delays2[k - 1]));
    }
}

/// The first restart happens at once, whatever the clock says, and leaves the
/// level as it was.
pub proof fn lemma_first_restart_is_immediate(b: BackoffView, within_threshold: bool, at: Instant)
    requires
        b.start is None,
    ensures
        b.delay_secs(within_threshold) == 0,
        b.restarted(within_threshold, at).level == b.level,
        b.restarted(within_threshold, at).start == Some(at),
{
}

/// Each quick failure in a row waits strictly longer than the one before.
pub proof fn lemma_quick_delays_increase(b: BackoffView, at: Instant)
    requires
        b.start is Some,
    ensures
        b.restarted(true, at).delay_secs(true) > b.delay_secs(true),
{
    let l = b.level;
    assert((l + 1) * (l + 1) / 2 < (l + 2) * (l + 2) / 2) by (nonlinear_arith);
}

/// A process that ran for at least the threshold resets the backoff: its
/// restart happens at once, and leaves the backoff at the level and with a
/// start, as a fresh backoff with the same threshold is after its first
/// restart; from then on both wait the same delays for the same quick
/// failures (see [`lemma_runs_agree`] and [`lemma_timed_runs_agree`]), the next quick one two seconds.
pub proof fn lemma_long_run_resets(b: BackoffView, at: Instant, first: Instant, w: bool)
    requires
        b.start is Some,
    ensures
        b.delay_secs(false) == 0,
        b.restarted(false, at).level == 1,
        b.restarted(false, at).level == fresh(b.threshold).restarted(w, first).level,
        b.restarted(false, at).start == Some(at),
        fresh(b.threshold).restarted(w, first).start == Some(first),
        b.restarted(false, at).threshold == fresh(b.threshold).restarted(w, first).threshold,
        b.restarted(false, at).delay_secs(true) == 2,
{
    assert(((1 + 1) * (1 + 1) / 2) as nat == 2) by (nonlinear_arith);
}

/// With a zero threshold no run counts as a quick failure, so no restart
/// ever waits.
pub proof fn lemma_zero_threshold_never_waits(b: BackoffView, now: Instant)
    requires
        duration_as_nanos(b.threshold) == 0,
    ensures
        !b.within_threshold(now),
        b.delay_secs(b.within_threshold(now)) == 0,
{
}

} // verus!
