//! Warnings about suspicious tasks: tasks that wake themselves too often,
//! tasks that lost their waker, and tasks that never yield.
use vstd::prelude::*;
use crate::tasks::{
    awakened, busy_time, completed, running, task_state, waker_count, Task, TaskState,
};
use crate::text::{decimal, push_decimal, string_from};
use crate::time::{duration_debug, duration_parts, Duration, SystemTime, MAX_DURATION_NANOS, NANOS_PER_SEC};
use crate::util::percentage;

verus! {

broadcast use vstd::string::group_string_axioms;

/// A result for a warning check.
#[derive(PartialEq, Eq, Structural, Clone, Copy, Debug)]
pub enum Warning {
    /// `true` if the warning applies, `false` otherwise.
    Check(bool),
    /// The warning should be rechecked, as the conditions to allow for
    /// checking are not satisfied yet.
    Recheck,
}

/// A result for a linter check.
#[derive(PartialEq, Eq, Structural, Clone, Copy, Debug)]
pub enum Lint {
    /// No warning applies to the entity.
    Clear,
    /// The warning applies to the entity, which holds it from now on.
    Warning,
    /// The lint should be rechecked, as the conditions to allow for checking
    /// are not satisfied yet.
    Recheck,
}

/// A warning for a particular type of monitored entity (e.g. task or resource).
pub trait Warn<T> {
    /// Whether `format` can describe the warning for `val` at `now`.
    spec fn can_format(&self, val: &T, now: SystemTime) -> bool;

    /// Returns if the warning applies to `val` at `now`.
    fn check(&self, val: &T, now: SystemTime) -> Warning;

    /// Formats a description of the warning detected for a *specific* `val`:
    /// a complete sentence.
    fn format(&self, val: &T, now: SystemTime) -> String
        requires
            self.can_format(val, now),
    ;

    /// A sentence fragment summarizing the warning *in general*, to follow a
    /// count of the entities that have it.
    fn summary(&self) -> &str;
}

/// Warns about tasks that woke themselves for more than a percentage of their
/// wakeups.
pub struct SelfWakePercent {
    pub min_percent: u64,
    pub description: String,
}

/// Warns about tasks that lost their waker.
pub struct LostWaker;

/// Warns about tasks that never yielded while they were busy for at least a
/// duration.
pub struct NeverYielded {
    pub min_duration: Duration,
    pub description: String,
}

/// The summary of the self-wake warning for `min_percent`.
pub open spec fn self_wake_summary(min_percent: u64) -> Seq<char> {
    "tasks have woken themselves more than "@ + decimal(min_percent as nat) + "% of the time"@
}

/// The summary of the never-yielded warning for a threshold of `millis`
/// milliseconds.
pub open spec fn never_yielded_summary(millis: nat) -> Seq<char> {
    "tasks have never yielded (threshold "@ + decimal(millis) + "ms)"@
}

/// Appends the characters of `s` to `out`.
pub fn push_str(out: &mut Vec<char>, s: &str)
    ensures
        final(out)@ == old(out)@ + s@,
{
    let v = crate::text::chars_of(s);
    let n = v.len();
    crate::location::push_range(out, v.as_slice(), 0, n);
    assert(v@.subrange(0, n as int) == v@);
}

impl SelfWakePercent {
    pub const DEFAULT_PERCENT: u64 = 50;

    /// The warning for tasks that woke themselves more than `min_percent` percent
    /// of the time.
    pub fn new(min_percent: u64) -> (r: Self)
        ensures
            r.min_percent == min_percent,
            r.description@ == self_wake_summary(min_percent),
    {
        let mut out: Vec<char> = Vec::new();
        push_str(&mut out, "tasks have woken themselves more than ");
        push_decimal(min_percent as u128, &mut out);
        push_str(&mut out, "% of the time");
        SelfWakePercent { min_percent, description: string_from(out.as_slice()) }
    }
}

impl Default for SelfWakePercent {
    fn default() -> (r: Self)
        ensures
            r.min_percent == 50,
            r.description@ == self_wake_summary(50),
    {
        Self::new(Self::DEFAULT_PERCENT)
    }
}

impl Warn<Task> for SelfWakePercent {
    open spec fn can_format(&self, val: &Task, now: SystemTime) -> bool {
        true
    }

    fn summary(&self) -> (r: &str)
        ensures
            r@ == self.description@,
    {
        self.description.as_str()
    }

    fn check(&self, task: &Task, now: SystemTime) -> (r: Warning)
        ensures
            r == Warning::Check(
                percentage(task.stats.wakes as nat, task.stats.self_wakes as nat) > self.min_percent,
            ),
    {
        let self_wakes = task.self_wake_percent();
        Warning::Check(self_wakes > self.min_percent)
    }

    fn format(&self, task: &Task, now: SystemTime) -> (r: String)
        ensures
            r@ == "This"@ + " task has woken itself for more than "@ + decimal(self.min_percent as nat)
                + "% of its total wakeups ("@ + decimal(
                percentage(task.stats.wakes as nat, task.stats.self_wakes as nat),
            ) + "%)"@,
    {
        let self_wakes = task.self_wake_percent();
        let mut out: Vec<char> = Vec::new();
        push_str(&mut out, "This");
        push_str(&mut out, " task has woken itself for more than ");
        push_decimal(self.min_percent as u128, &mut out);
        push_str(&mut out, "% of its total wakeups (");
        push_decimal(self_wakes as u128, &mut out);
        push_str(&mut out, "%)");
        string_from(out.as_slice())
    }
}

/// Whether a task lost its waker: it is not completed, has no waker, is not
/// being polled and was not woken.
pub open spec fn lost_waker(t: Task) -> bool {
    !completed(t) && waker_count(t) == 0 && !running(t) && !awakened(t)
}

impl Warn<Task> for LostWaker {
    open spec fn can_format(&self, val: &Task, now: SystemTime) -> bool {
        true
    }

    fn summary(&self) -> (r: &str)
        ensures
            r@ == "tasks have lost their waker"@,
    {
        "tasks have lost their waker"
    }

    fn check(&self, task: &Task, now: SystemTime) -> (r: Warning)
        ensures
            r == Warning::Check(lost_waker(*task)),
    {
        Warning::Check(
            !task.is_completed() && task.waker_count() == 0 && !task.is_running()
                && !task.is_awakened(),
        )
    }

    fn format(&self, task: &Task, now: SystemTime) -> (r: String)
        ensures
            r@ == "This"@ + " task has lost its waker, and will never be woken again."@,
    {
        let mut out: Vec<char> = Vec::new();
        push_str(&mut out, "This");
        push_str(&mut out, " task has lost its waker, and will never be woken again.");
        string_from(out.as_slice())
    }
}

impl NeverYielded {
    /// The default threshold: one second.
    pub fn default_duration() -> (r: Duration)
        ensures
            r.spec_nanos() == NANOS_PER_SEC,
    {
        Duration::from_secs(1)
    }

    /// The warning for tasks that were busy for `min_duration` without
    /// yielding.
    pub fn new(min_duration: Duration) -> (r: Self)
        ensures
            r.min_duration == min_duration,
            r.description@ == never_yielded_summary(min_duration.spec_nanos() / 1000000),
    {
        let mut out: Vec<char> = Vec::new();
        push_str(&mut out, "tasks have never yielded (threshold ");
        push_decimal(min_duration.as_millis(), &mut out);
        push_str(&mut out, "ms)");
        NeverYielded { min_duration, description: string_from(out.as_slice()) }
    }
}

impl Default for NeverYielded {
    fn default() -> (r: Self)
        ensures
            r.min_duration.spec_nanos() == NANOS_PER_SEC,
            r.description@ == never_yielded_summary(1000),
    {
        Self::new(Self::default_duration())
    }
}

/// What the never-yielded check answers for `task` at `now` with the
/// threshold `min`: no warning unless the task is being polled and was polled
/// at most once; then a warning once it was busy for at least `min`, else a
/// recheck.
pub open spec fn never_yielded_check(task: Task, now: SystemTime, min: Duration) -> Warning {
    if task_state(task) != TaskState::Running {
        Warning::Check(false)
    } else if task.stats.polls > 1 {
        Warning::Check(false)
    } else if busy_time(task, now) >= min.spec_nanos() {
        Warning::Check(true)
    } else {
        Warning::Recheck
    }
}

/// Whether the task was busy for at least `min` up to `now`; unlike
/// [`Task::busy`], this needs no bound on the busy time.
fn busy_at_least(task: &Task, now: SystemTime, min: &Duration) -> (r: bool)
    ensures
        r == (busy_time(*task, now) >= min.spec_nanos()),
{
    let base = task.stats.busy.as_nanos();
    let extra: u128 = match task.stats.last_poll_started {
        Some(started) => if task.is_running() {
            now.elapsed_since(&started).as_nanos()
        } else {
            0
        },
        None => 0,
    };
    base + extra >= min.as_nanos()
}

impl Warn<Task> for NeverYielded {
    open spec fn can_format(&self, val: &Task, now: SystemTime) -> bool {
        busy_time(*val, now) <= MAX_DURATION_NANOS
    }

    fn summary(&self) -> (r: &str)
        ensures
            r@ == self.description@,
    {
        self.description.as_str()
    }

    fn check(&self, task: &Task, now: SystemTime) -> (r: Warning)
        ensures
            r == never_yielded_check(*task, now, self.min_duration),
    {
        // Don't fire warning for tasks that are waiting to run
        if task.state() != TaskState::Running {
            return Warning::Check(false);
        }
        if task.total_polls() > 1 {
            return Warning::Check(false);
        }
        // Avoid short-lived task false positives
        if busy_at_least(task, now, &self.min_duration) {
            Warning::Check(true)
        } else {
            Warning::Recheck
        }
    }

    fn format(&self, task: &Task, now: SystemTime) -> (r: String)
        ensures
            ({
                let (secs, nanos) = duration_parts(busy_time(*task, now));
                r@ == "This"@ + " task has never yielded ("@ + duration_debug(secs, nanos) + ")"@
            }),
    {
        let busy = task.busy(now);
        let mut out: Vec<char> = Vec::new();
        push_str(&mut out, "This");
        push_str(&mut out, " task has never yielded (");
        let text = busy.to_debug_string();
        push_str(&mut out, text.as_str());
        push_str(&mut out, ")");
        string_from(out.as_slice())
    }
}


/// A warning that the console checks tasks for.
pub enum Linter {
    SelfWakes(SelfWakePercent),
    LostWaker(LostWaker),
    NeverYielded(NeverYielded),
}

/// What a linter's check answers for `task` at `now`.
pub open spec fn linter_warning(l: Linter, task: Task, now: SystemTime) -> Warning {
    match l {
        Linter::SelfWakes(w) => Warning::Check(
            percentage(task.stats.wakes as nat, task.stats.self_wakes as nat) > w.min_percent,
        ),
        Linter::LostWaker(_) => Warning::Check(lost_waker(task)),
        Linter::NeverYielded(w) => never_yielded_check(task, now, w.min_duration),
    }
}

/// The lint for a warning check's answer.
pub open spec fn lint_of(w: Warning) -> Lint {
    match w {
        Warning::Check(false) => Lint::Clear,
        Warning::Check(true) => Lint::Warning,
        Warning::Recheck => Lint::Recheck,
    }
}

/// Whether a linter can describe its warning for `task` at `now`.
pub open spec fn linter_can_format(l: Linter, task: Task, now: SystemTime) -> bool {
    match l {
        Linter::NeverYielded(_) => busy_time(task, now) <= MAX_DURATION_NANOS,
        _ => true,
    }
}

/// The summary of a linter's warning.
pub open spec fn linter_summary(l: Linter) -> Seq<char> {
    match l {
        Linter::SelfWakes(w) => w.description@,
        Linter::LostWaker(_) => "tasks have lost their waker"@,
        Linter::NeverYielded(w) => w.description@,
    }
}

/// How a linter describes its warning for `task` at `now`.
pub open spec fn linter_text(l: Linter, task: Task, now: SystemTime) -> Seq<char> {
    match l {
        Linter::SelfWakes(w) => "This"@ + " task has woken itself for more than "@ + decimal(
            w.min_percent as nat,
        ) + "% of its total wakeups ("@ + decimal(
            percentage(task.stats.wakes as nat, task.stats.self_wakes as nat),
        ) + "%)"@,
        Linter::LostWaker(_) => "This"@ + " task has lost its waker, and will never be woken again."@,
        Linter::NeverYielded(_) => {
            let (secs, nanos) = duration_parts(busy_time(task, now));
            "This"@ + " task has never yielded ("@ + duration_debug(secs, nanos) + ")"@
        },
    }
}

impl Linter {
    /// Checks if the warning applies to `task` at `now`.
    pub fn check(&self, task: &Task, now: SystemTime) -> (r: Lint)
        ensures
            r == lint_of(linter_warning(*self, *task, now)),
    {
        let w = match self {
            Linter::SelfWakes(w) => w.check(task, now),
            Linter::LostWaker(w) => w.check(task, now),
            Linter::NeverYielded(w) => w.check(task, now),
        };
        match w {
            Warning::Check(false) => Lint::Clear,
            Warning::Check(true) => Lint::Warning,
            Warning::Recheck => Lint::Recheck,
        }
    }

    /// Whether the linter can describe its warning for `task` at `now`.
    pub fn can_format_at(&self, task: &Task, now: SystemTime) -> (r: bool)
        ensures
            r == linter_can_format(*self, *task, now),
    {
        match self {
            Linter::NeverYielded(_) => {
                if let Some(started) = task.stats.last_poll_started {
                    if task.is_running() {
                        return task.stats.busy.checked_add(&now.elapsed_since(&started)).is_some();
                    }
                }
                task.stats.busy.checked_add(&Duration::zero()).is_some()
            },
            _ => true,
        }
    }

    /// A description of the warning for `task`.
    pub fn format(&self, task: &Task, now: SystemTime) -> (r: String)
        requires
            linter_can_format(*self, *task, now),
        ensures
            r@ == linter_text(*self, *task, now),
    {
        match self {
            Linter::SelfWakes(w) => w.format(task, now),
            Linter::LostWaker(w) => w.format(task, now),
            Linter::NeverYielded(w) => w.format(task, now),
        }
    }

    /// A summary of the warning, to follow a count of the tasks that have it.
    pub fn summary(&self) -> (r: &str)
        ensures
            r@ == linter_summary(*self),
    {
        match self {
            Linter::SelfWakes(w) => w.summary(),
            Linter::LostWaker(w) => w.summary(),
            Linter::NeverYielded(w) => w.summary(),
        }
    }
}

/// The indices, in order, of the first `n` linters that warn about `task` at
/// `now`.
pub open spec fn warned_by(linters: Seq<Linter>, n: int, task: Task, now: SystemTime) -> Seq<usize>
    decreases n,
{
    if n <= 0 {
        Seq::empty()
    } else if lint_of(linter_warning(linters[n - 1], task, now)) == Lint::Warning {
        warned_by(linters, n - 1, task, now).push((n - 1) as usize)
    } else {
        warned_by(linters, n - 1, task, now)
    }
}

} // verus!
