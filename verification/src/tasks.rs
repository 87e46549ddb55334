//! Tasks of the observed program: their statistics, their state, and the
//! times they spent busy, scheduled and idle.
use vstd::prelude::*;
use crate::fields::{
    fields_from, has_field_named, name_from_fields, push_field_names, split_task_fields,
    task_id_from_fields, Field, Metadata, ProtoField,
};
use crate::intern::{holds_text, push_text, Strings};
use crate::location::{format_location, formatted_location, Location};
use crate::text::{decimal, push_decimal, string_from, chars_of};
use crate::intern::InternedStr;
use crate::store::{insert_all, last_with_key, lemma_insert_all_lookup, Id, Ids, SpanId, Store, Visibility};
use std::collections::HashMap;
use vstd::std_specs::iter::IteratorSpec;
use crate::time::{
    elapsed, opt_later, option_later, Duration, SystemTime, MAX_DURATION_NANOS,
};
use crate::util::{percent_of, percentage};
use crate::warnings::{warned_by, Lint, Linter};
use crate::styles::{span_views, Span, Styles};
use crate::order::le_of;
use crate::fields::field_spans;
use vstd::relations::sorted_by;

verus! {

/// The ID of a task in the runtime of the observed program.
pub type TaskId = u64;

/// Poll statistics of a task as the observed program sends them.
pub struct RawPollStats {
    pub polls: u64,
    pub busy_time: Option<Duration>,
    pub last_poll_started: Option<SystemTime>,
    pub last_poll_ended: Option<SystemTime>,
}

/// Statistics of a task as the observed program sends them.
pub struct RawTaskStats {
    pub created_at: Option<SystemTime>,
    pub dropped_at: Option<SystemTime>,
    pub poll_stats: Option<RawPollStats>,
    pub scheduled_time: Option<Duration>,
    pub last_wake: Option<SystemTime>,
    pub wakes: u64,
    pub waker_clones: u64,
    pub waker_drops: u64,
    pub self_wakes: u64,
}

/// Statistics of a task.
pub struct TaskStats {
    pub polls: u64,
    pub created_at: SystemTime,
    pub dropped_at: Option<SystemTime>,
    pub busy: Duration,
    pub scheduled: Duration,
    pub last_poll_started: Option<SystemTime>,
    pub last_poll_ended: Option<SystemTime>,
    pub idle: Option<Duration>,
    pub total: Option<Duration>,
    /// Total number of times the task has been woken over its lifetime.
    pub wakes: u64,
    /// Total number of times the task's waker has been cloned.
    pub waker_clones: u64,
    /// Total number of times the task's waker has been dropped.
    pub waker_drops: u64,
    /// The timestamp of when the task was last woken.
    pub last_wake: Option<SystemTime>,
    /// Total number of times the task has woken itself.
    pub self_wakes: u64,
}

/// The state of a task.
#[derive(PartialEq, Eq, Structural, Clone, Copy, Debug, PartialOrd, Ord)]
pub enum TaskState {
    Completed,
    Idle,
    Running,
    Scheduled,
}

/// A task of the observed program.
pub struct Task {
    /// The number of the task's pretty (console-generated, sequential) ID.
    pub id: u64,
    /// The ID of the task in the runtime of the observed program.
    pub task_id: Option<TaskId>,
    /// The span ID of the task in the observed program.
    pub span_id: SpanId,
    /// The task ID shown (empty when there is none).
    pub id_str: String,
    pub short_desc: InternedStr,
    /// The task's fields, in the order they are shown.
    pub fields: Vec<Field>,
    /// How each field is shown.
    pub formatted_fields: Vec<Vec<Span>>,
    pub stats: TaskStats,
    pub target: InternedStr,
    pub name: Option<InternedStr>,
    /// The linters that currently warn about the task, by their index.
    pub warnings: Vec<usize>,
    pub location: String,
}

/// The total time of a task dropped at `dropped` after its creation at
/// `created`.
pub open spec fn total_of(created: SystemTime, dropped: Option<SystemTime>) -> Option<nat> {
    match dropped {
        Some(d) => Some(elapsed(d, created)),
        None => None,
    }
}

/// Whether, for a dropped task, the busy and scheduled times of `pb` add up
/// to a duration (its idle time is computed from their sum).
pub open spec fn raw_times_fit(pb: RawTaskStats) -> bool {
    pb.dropped_at is Some ==> raw_busy(pb) + raw_scheduled(pb) <= MAX_DURATION_NANOS
}

/// The busy time that `pb` records (0 when it records none).
pub open spec fn raw_busy(pb: RawTaskStats) -> nat {
    match pb.poll_stats {
        Some(ps) => match ps.busy_time {
            Some(b) => b.spec_nanos(),
            None => 0,
        },
        None => 0,
    }
}

/// The scheduled time that `pb` records (0 when it records none).
pub open spec fn raw_scheduled(pb: RawTaskStats) -> nat {
    match pb.scheduled_time {
        Some(s) => s.spec_nanos(),
        None => 0,
    }
}

/// Whether `s` holds the statistics that `pb` sends: the total time runs from
/// creation to the drop, and the idle time is what the total leaves after the
/// busy and scheduled times (none if they exceed it).
pub open spec fn stats_from_raw(pb: RawTaskStats, s: TaskStats) -> bool {
    let ps = pb.poll_stats.unwrap();
    &&& s.created_at == pb.created_at.unwrap()
    &&& s.dropped_at == pb.dropped_at
    &&& s.busy.spec_nanos() == raw_busy(pb)
    &&& s.scheduled.spec_nanos() == raw_scheduled(pb)
    &&& s.total.is_some() == pb.dropped_at.is_some()
    &&& (s.total matches Some(t) ==> t.spec_nanos() == total_of(s.created_at, s.dropped_at).unwrap())
    &&& s.idle.is_some() == pb.dropped_at.is_some()
    &&& (s.idle matches Some(i) ==> {
        let t = total_of(s.created_at, s.dropped_at).unwrap();
        let used = raw_busy(pb) + raw_scheduled(pb);
        i.spec_nanos() == if used <= t {
            (t - used) as nat
        } else {
            0
        }
    })
    &&& s.last_wake == pb.last_wake
    &&& s.last_poll_started == ps.last_poll_started
    &&& s.last_poll_ended == ps.last_poll_ended
    &&& s.polls == ps.polls
    &&& s.wakes == pb.wakes
    &&& s.waker_clones == pb.waker_clones
    &&& s.waker_drops == pb.waker_drops
    &&& s.self_wakes == pb.self_wakes
}

impl TaskStats {
    /// The statistics that `pb` sends. A task's span must have been created
    /// and have poll statistics.
    pub fn from_raw(pb: RawTaskStats) -> (r: Self)
        requires
            pb.created_at is Some,
            pb.poll_stats is Some,
            raw_times_fit(pb),
        ensures
            stats_from_raw(pb, r),
    {
        let created_at = pb.created_at.unwrap();
        let dropped_at = pb.dropped_at;
        let total = match dropped_at {
            Some(d) => Some(d.elapsed_since(&created_at)),
            None => None,
        };
        let poll_stats = pb.poll_stats.unwrap();
        let busy = match poll_stats.busy_time {
            Some(b) => b,
            None => Duration::zero(),
        };
        let scheduled = match pb.scheduled_time {
            Some(s) => s,
            None => Duration::zero(),
        };
        let idle = match total {
            Some(t) => {
                let used = busy.add(&scheduled);
                Some(
                    match t.checked_sub(&used) {
                        Some(i) => i,
                        None => Duration::zero(),
                    },
                )
            },
            None => None,
        };
        TaskStats {
            total,
            idle,
            scheduled,
            busy,
            last_wake: pb.last_wake,
            last_poll_started: poll_stats.last_poll_started,
            last_poll_ended: poll_stats.last_poll_ended,
            polls: poll_stats.polls,
            created_at,
            dropped_at,
            wakes: pb.wakes,
            waker_clones: pb.waker_clones,
            waker_drops: pb.waker_drops,
            self_wakes: pb.self_wakes,
        }
    }
}

/// Whether the idle time of a dropped task can be computed from `pb` (the
/// sum of its busy and scheduled times is a duration).
pub fn raw_stats_fit(pb: &RawTaskStats) -> (r: bool)
    ensures
        r == raw_times_fit(*pb),
{
    if pb.dropped_at.is_none() {
        return true;
    }
    let busy = match &pb.poll_stats {
        Some(ps) => match ps.busy_time {
            Some(b) => b,
            None => Duration::zero(),
        },
        None => Duration::zero(),
    };
    let scheduled = match pb.scheduled_time {
        Some(s) => s,
        None => Duration::zero(),
    };
    busy.checked_add(&scheduled).is_some()
}

/// Whether the task is being polled.
pub open spec fn running(t: Task) -> bool {
    opt_later(t.stats.last_poll_started, t.stats.last_poll_ended)
}

/// Whether the task was woken after its last poll started.
pub open spec fn scheduled(t: Task) -> bool {
    opt_later(t.stats.last_wake, t.stats.last_poll_started)
}

/// Whether the task has completed.
pub open spec fn completed(t: Task) -> bool {
    t.stats.total is Some
}

/// The state of the task: completed, else running, else scheduled, else idle.
pub open spec fn task_state(t: Task) -> TaskState {
    if completed(t) {
        TaskState::Completed
    } else if running(t) {
        TaskState::Running
    } else if scheduled(t) {
        TaskState::Scheduled
    } else {
        TaskState::Idle
    }
}

/// The total time of the task up to `since`.
pub open spec fn total_time(t: Task, since: SystemTime) -> nat {
    match t.stats.total {
        Some(d) => d.spec_nanos(),
        None => elapsed(since, t.stats.created_at),
    }
}

/// The time the task was busy up to `since`: its busy time, and, while it is
/// being polled, the time since the poll started.
pub open spec fn busy_time(t: Task, since: SystemTime) -> nat {
    match t.stats.last_poll_started {
        Some(started) => if running(t) {
            t.stats.busy.spec_nanos() + elapsed(since, started)
        } else {
            t.stats.busy.spec_nanos()
        },
        None => t.stats.busy.spec_nanos(),
    }
}

/// The time the task was scheduled up to `since`: its scheduled time, and,
/// while it waits to be polled after a wake, the time since the wake.
pub open spec fn scheduled_time(t: Task, since: SystemTime) -> nat {
    match t.stats.last_wake {
        Some(wake) => if scheduled(t) {
            t.stats.scheduled.spec_nanos() + elapsed(since, wake)
        } else {
            t.stats.scheduled.spec_nanos()
        },
        None => t.stats.scheduled.spec_nanos(),
    }
}

/// Whether the busy and scheduled times of the task up to `since` add up to
/// a duration.
pub open spec fn times_fit(t: Task, since: SystemTime) -> bool {
    busy_time(t, since) + scheduled_time(t, since) <= MAX_DURATION_NANOS
}

/// The idle time of the task up to `since`: the recorded one, or what the
/// total leaves after the busy and scheduled times (0 if they exceed it).
pub open spec fn idle_time(t: Task, since: SystemTime) -> nat {
    match t.stats.idle {
        Some(d) => d.spec_nanos(),
        None => {
            let used = busy_time(t, since) + scheduled_time(t, since);
            if used <= total_time(t, since) {
                (total_time(t, since) - used) as nat
            } else {
                0
            }
        },
    }
}

/// Whether the task has signaled via its waker to run again: it was never
/// polled, or it was woken after its last poll started.
pub open spec fn awakened(t: Task) -> bool {
    t.stats.polls == 0 || scheduled(t)
}

/// The current number of wakers of the task.
pub open spec fn waker_count(t: Task) -> nat {
    if t.stats.waker_clones >= t.stats.waker_drops {
        (t.stats.waker_clones - t.stats.waker_drops) as nat
    } else {
        0
    }
}

impl Task {
    /// The task's sequential ID.
    pub fn id(&self) -> (r: Id<Task>)
        ensures
            r.value() == self.id,
    {
        Id::new(self.id)
    }

    /// The task's ID in its runtime, or 0 when it has none.
    pub fn task_id(&self) -> (r: TaskId)
        ensures
            r == match self.task_id {
                Some(id) => id,
                None => 0,
            },
    {
        match self.task_id {
            Some(id) => id,
            None => 0,
        }
    }

    pub fn span_id(&self) -> (r: SpanId)
        ensures
            r == self.span_id,
    {
        self.span_id
    }

    pub fn id_str(&self) -> (r: &str)
        ensures
            r@ == self.id_str@,
    {
        self.id_str.as_str()
    }

    pub fn target(&self) -> (r: &str)
        ensures
            r@ == self.target@,
    {
        self.target.as_str()
    }

    pub fn short_desc(&self) -> (r: &str)
        ensures
            r@ == self.short_desc@,
    {
        self.short_desc.as_str()
    }

    pub fn name(&self) -> (r: Option<&str>)
        ensures
            r is Some == self.name is Some,
            r matches Some(n) ==> n@ == self.name.unwrap()@,
    {
        match &self.name {
            Some(n) => Some(n.as_str()),
            None => None,
        }
    }

    /// The task's fields, in the order they are shown.
    pub fn fields(&self) -> (r: &[Field])
        ensures
            r@ == self.fields@,
    {
        self.fields.as_slice()
    }

    pub fn location(&self) -> (r: &str)
        ensures
            r@ == self.location@,
    {
        self.location.as_str()
    }

    /// Returns `true` if the task is currently being polled.
    pub fn is_running(&self) -> (r: bool)
        ensures
            r == running(*self),
    {
        option_later(&self.stats.last_poll_started, &self.stats.last_poll_ended)
    }

    /// Returns `true` if the task was woken after its last poll started.
    pub fn is_scheduled(&self) -> (r: bool)
        ensures
            r == scheduled(*self),
    {
        option_later(&self.stats.last_wake, &self.stats.last_poll_started)
    }

    pub fn is_completed(&self) -> (r: bool)
        ensures
            r == completed(*self),
    {
        self.stats.total.is_some()
    }

    pub fn state(&self) -> (r: TaskState)
        ensures
            r == task_state(*self),
    {
        if self.is_completed() {
            return TaskState::Completed;
        }
        if self.is_running() {
            return TaskState::Running;
        }
        if self.is_scheduled() {
            return TaskState::Scheduled;
        }
        TaskState::Idle
    }

    pub fn total(&self, since: SystemTime) -> (r: Duration)
        ensures
            r.spec_nanos() == total_time(*self, since),
    {
        match self.stats.total {
            Some(t) => t,
            None => since.elapsed_since(&self.stats.created_at),
        }
    }

    pub fn busy(&self, since: SystemTime) -> (r: Duration)
        requires
            busy_time(*self, since) <= MAX_DURATION_NANOS,
        ensures
            r.spec_nanos() == busy_time(*self, since),
    {
        if let Some(started) = self.stats.last_poll_started {
            if self.is_running() {
                // in this case the task is being polled at the moment
                let current_time_in_poll = since.elapsed_since(&started);
                return self.stats.busy.add(&current_time_in_poll);
            }
        }
        self.stats.busy
    }

    pub fn scheduled(&self, since: SystemTime) -> (r: Duration)
        requires
            scheduled_time(*self, since) <= MAX_DURATION_NANOS,
        ensures
            r.spec_nanos() == scheduled_time(*self, since),
    {
        if let Some(wake) = self.stats.last_wake {
            if self.is_scheduled() {
                // the task is scheduled, but has not yet been polled
                let current_time_since_wake = since.elapsed_since(&wake);
                return self.stats.scheduled.add(&current_time_since_wake);
            }
        }
        self.stats.scheduled
    }

    /// Whether the busy and scheduled times of the task up to `since` add up
    /// to a duration, so that its times can be shown.
    pub fn times_fit_at(&self, since: SystemTime) -> (r: bool)
        ensures
            r == times_fit(*self, since),
    {
        let mut busy = self.stats.busy;
        if let Some(started) = self.stats.last_poll_started {
            if self.is_running() {
                match busy.checked_add(&since.elapsed_since(&started)) {
                    Some(b) => busy = b,
                    None => return false,
                }
            }
        }
        let mut sched = self.stats.scheduled;
        if let Some(wake) = self.stats.last_wake {
            if self.is_scheduled() {
                match sched.checked_add(&since.elapsed_since(&wake)) {
                    Some(s) => sched = s,
                    None => return false,
                }
            }
        }
        busy.checked_add(&sched).is_some()
    }

    pub fn idle(&self, since: SystemTime) -> (r: Duration)
        requires
            times_fit(*self, since),
        ensures
            r.spec_nanos() == idle_time(*self, since),
    {
        match self.stats.idle {
            Some(i) => i,
            None => {
                let used = self.busy(since).add(&self.scheduled(since));
                match self.total(since).checked_sub(&used) {
                    Some(i) => i,
                    None => Duration::zero(),
                }
            },
        }
    }

    /// Returns the total number of times the task has been polled.
    pub fn total_polls(&self) -> (r: u64)
        ensures
            r == self.stats.polls,
    {
        self.stats.polls
    }

    /// The time since the task was last woken, up to `now`; `None` if it was
    /// never woken or was last woken after `now`.
    pub fn since_wake(&self, now: SystemTime) -> (r: Option<Duration>)
        ensures
            match self.stats.last_wake {
                None => r is None,
                Some(w) => if w.spec_nanos() <= now.spec_nanos() {
                    r matches Some(d) && d.spec_nanos() == now.spec_nanos() - w.spec_nanos()
                } else {
                    r is None
                },
            },
    {
        match self.stats.last_wake {
            Some(w) => now.duration_since(&w),
            None => None,
        }
    }

    pub fn last_wake(&self) -> (r: Option<SystemTime>)
        ensures
            r == self.stats.last_wake,
    {
        self.stats.last_wake
    }

    /// Returns the current number of wakers for the task.
    pub fn waker_count(&self) -> (r: u64)
        ensures
            r == waker_count(*self),
    {
        self.waker_clones().saturating_sub(self.waker_drops())
    }

    /// Returns the total number of times the task's waker has been cloned.
    pub fn waker_clones(&self) -> (r: u64)
        ensures
            r == self.stats.waker_clones,
    {
        self.stats.waker_clones
    }

    /// Returns the total number of times the task's waker has been dropped.
    pub fn waker_drops(&self) -> (r: u64)
        ensures
            r == self.stats.waker_drops,
    {
        self.stats.waker_drops
    }

    /// Returns the total number of times the task has been woken.
    pub fn wakes(&self) -> (r: u64)
        ensures
            r == self.stats.wakes,
    {
        self.stats.wakes
    }

    /// Returns the total number of times the task has woken itself.
    pub fn self_wakes(&self) -> (r: u64)
        ensures
            r == self.stats.self_wakes,
    {
        self.stats.self_wakes
    }

    /// Returns the percentage of the task's total wakeups that were self-wakes.
    pub fn self_wake_percent(&self) -> (r: u64)
        ensures
            r == percentage(self.stats.wakes as nat, self.stats.self_wakes as nat),
    {
        percent_of(self.self_wakes(), self.wakes())
    }

    /// Returns whether the task has signaled via its waker to run again.
    pub fn is_awakened(&self) -> (r: bool)
        ensures
            r == awakened(*self),
    {
        self.total_polls() == 0 || self.is_scheduled()
    }

    /// Checks the task against `linters` at `now`: afterwards it holds the
    /// warnings of exactly those that warn about it.
    pub fn lint(&mut self, linters: &[Linter], now: SystemTime)
        ensures
            final(self).warnings@ == warned_by(linters@, linters@.len() as int, *old(self), now),
            final(self).id == old(self).id,
            final(self).task_id == old(self).task_id,
            final(self).span_id == old(self).span_id,
            final(self).id_str == old(self).id_str,
            final(self).short_desc == old(self).short_desc,
            final(self).fields == old(self).fields,
            final(self).formatted_fields == old(self).formatted_fields,
            final(self).stats == old(self).stats,
            final(self).target == old(self).target,
            final(self).name == old(self).name,
            final(self).location == old(self).location,
    {
        let mut warnings: Vec<usize> = Vec::new();
        let n = linters.len();
        for i in 0..n
            invariant
                n == linters@.len(),
                warnings@ == warned_by(linters@, i as int, *self, now),
        {
            if let Lint::Warning = linters[i].check(self, now) {
                warnings.push(i);
            }
        }
        self.warnings = warnings;
    }

    /// The indices of the linters that currently warn about the task.
    pub fn warnings(&self) -> (r: &[usize])
        ensures
            r@ == self.warnings@,
    {
        self.warnings.as_slice()
    }
}

/// Columns by which the task list can be sorted.
#[derive(PartialEq, Eq, Structural, Clone, Copy, Debug)]
pub enum SortBy {
    Warns,
    Tid,
    State,
    Name,
    Total,
    Busy,
    Scheduled,
    Idle,
    Polls,
    Target,
    Location,
}

/// The column that each sort key belongs to.
pub open spec fn task_sort_column(s: SortBy) -> nat {
    match s {
        SortBy::Warns => 0,
        SortBy::Tid => 1,
        SortBy::State => 2,
        SortBy::Name => 3,
        SortBy::Total => 4,
        SortBy::Busy => 5,
        SortBy::Scheduled => 6,
        SortBy::Idle => 7,
        SortBy::Polls => 8,
        SortBy::Target => 9,
        SortBy::Location => 10,
    }
}

impl SortBy {
    /// The column of the task list that this sort key belongs to.
    pub fn as_column(&self) -> (r: usize)
        ensures
            r == task_sort_column(*self),
    {
        match self {
            SortBy::Warns => 0,
            SortBy::Tid => 1,
            SortBy::State => 2,
            SortBy::Name => 3,
            SortBy::Total => 4,
            SortBy::Busy => 5,
            SortBy::Scheduled => 6,
            SortBy::Idle => 7,
            SortBy::Polls => 8,
            SortBy::Target => 9,
            SortBy::Location => 10,
        }
    }

    /// The sort key of column `idx`, if there is one.
    pub fn try_from(idx: usize) -> (r: Result<Self, ()>)
        ensures
            match r {
                Ok(s) => task_sort_column(s) == idx,
                Err(_) => idx > 10,
            },
    {
        match idx {
            0 => Ok(SortBy::Warns),
            1 => Ok(SortBy::Tid),
            2 => Ok(SortBy::State),
            3 => Ok(SortBy::Name),
            4 => Ok(SortBy::Total),
            5 => Ok(SortBy::Busy),
            6 => Ok(SortBy::Scheduled),
            7 => Ok(SortBy::Idle),
            8 => Ok(SortBy::Polls),
            9 => Ok(SortBy::Target),
            10 => Ok(SortBy::Location),
            _ => Err(()),
        }
    }
}

impl Default for SortBy {
    fn default() -> (r: Self)
        ensures
            r == SortBy::Total,
    {
        SortBy::Total
    }
}


/// A task as the observed program announces it.
pub struct NewTask {
    pub id: Option<u64>,
    pub metadata: Option<u64>,
    pub fields: Vec<ProtoField>,
    pub location: Option<Location>,
}

/// Whether `pb` holds statistics that a task can be built from: its span was
/// created, it has poll statistics, and its busy and scheduled times add up
/// to a duration.
pub open spec fn raw_stats_ok(pb: RawTaskStats) -> bool {
    &&& pb.created_at is Some
    &&& pb.poll_stats is Some
    &&& raw_times_fit(pb)
}

/// The short description of a task: its ID and its name in parentheses, or
/// whichever of them it has.
pub open spec fn short_desc_text(task_id: Option<u64>, name: Option<Seq<char>>) -> Seq<char> {
    match (task_id, name) {
        (Some(t), Some(n)) => decimal(t as nat) + " ("@ + n + ")"@,
        (Some(t), None) => decimal(t as nat),
        (None, Some(n)) => n,
        (None, None) => Seq::empty(),
    }
}

/// The task ID that a task shows (empty when it has none).
pub open spec fn id_text(task_id: Option<u64>) -> Seq<char> {
    match task_id {
        Some(t) => decimal(t as nat),
        None => Seq::empty(),
    }
}

/// The view of an optional interned string.
pub open spec fn opt_interned(s: Option<InternedStr>) -> Option<Seq<char>> {
    match s {
        Some(s) => Some(s@),
        None => None,
    }
}

/// Whether `t` is the task built from the announcement `nt` under the
/// metadata `meta`, with sequential ID `id`, span ID `span` and statistics
/// `raw`, checked by `linters` at `now`, its fields sorted and shown in
/// `styles`.
pub open spec fn task_built(
    t: Task,
    nt: NewTask,
    meta: Metadata,
    id: u64,
    span: u64,
    raw: RawTaskStats,
    linters: Seq<Linter>,
    now: SystemTime,
    styles: Styles,
) -> bool {
    &&& t.id == id
    &&& t.span_id == span
    &&& t.task_id == task_id_from_fields(nt.fields@, meta)
    &&& opt_interned(t.name) == name_from_fields(nt.fields@, meta)
    &&& exists|f: Seq<Field>| fields_from(nt.fields@, meta, f) && #[trigger] f.to_multiset() == t.fields@.to_multiset()
    &&& sorted_by(t.fields@, le_of::<Field>())
    &&& t.formatted_fields@.len() == t.fields@.len()
    &&& forall|i: int|
        0 <= i < t.fields@.len() ==> span_views(#[trigger] t.formatted_fields@[i]@) == field_spans(styles, t.fields@[i])
    &&& stats_from_raw(raw, t.stats)
    &&& t.target@ == meta.target@
    &&& t.location@ == formatted_location(nt.location)
    &&& t.short_desc@ == short_desc_text(t.task_id, opt_interned(t.name))
    &&& t.id_str@ == id_text(t.task_id)
    &&& t.warnings@ == warned_by(linters, linters.len() as int, t, now)
}

/// The linters that warn about a task depend on its statistics alone.
pub proof fn lemma_warned_by_stats(linters: Seq<Linter>, n: int, a: Task, b: Task, now: SystemTime)
    requires
        a.stats == b.stats,
    ensures
        warned_by(linters, n, a, now) == warned_by(linters, n, b, now),
    decreases n,
{
    if n > 0 {
        lemma_warned_by_stats(linters, n - 1, a, b, now);
    }
}

/// Builds the task that `nt` announces, under the metadata `meta`, with
/// sequential ID `id`, span ID `span_id` and statistics `raw`, and checks it
/// with `linters` at `now`.
pub fn build_task(
    nt: NewTask,
    meta: &Metadata,
    id: Id<Task>,
    span_id: SpanId,
    raw: RawTaskStats,
    strings: &mut Strings,
    linters: &[Linter],
    now: SystemTime,
    styles: &Styles,
) -> (r: Task)
    requires
        raw_stats_ok(raw),
    ensures
        task_built(r, nt, *meta, id.value(), span_id, raw, linters@, now, *styles),
        old(strings)@.subset_of(final(strings)@),
{
    let ghost snt = nt;
    let NewTask { id: _, metadata: _, fields, location } = nt;
    let split = split_task_fields(fields, meta, strings);
    let ghost unsorted = split.fields@;
    let mut fields = split.fields;
    let formatted_fields = Field::make_formatted(styles, &mut fields);
    let stats = TaskStats::from_raw(raw);
    let location = format_location(location);
    let task_id = split.task_id;
    let name = split.name;
    let mut desc: Vec<char> = Vec::new();
    match (task_id, &name) {
        (Some(t), Some(n)) => {
            push_decimal(t as u128, &mut desc);
            crate::warnings::push_str(&mut desc, " (");
            crate::warnings::push_str(&mut desc, n.as_str());
            crate::warnings::push_str(&mut desc, ")");
        },
        (Some(t), None) => {
            push_decimal(t as u128, &mut desc);
        },
        (None, Some(n)) => {
            crate::warnings::push_str(&mut desc, n.as_str());
        },
        (None, None) => {},
    }
    let before = strings.string(string_from(desc.as_slice()));
    let short_desc = before;
    let id_str = match task_id {
        Some(t) => crate::text::decimal_string(t as u128),
        None => String::new(),
    };
    let mut task = Task {
        name,
        id: id.as_u64(),
        task_id,
        span_id,
        id_str,
        short_desc,
        fields,
        formatted_fields,
        stats,
        target: meta.target.clone(),
        warnings: Vec::new(),
        location,
    };
    let ghost unlinted = task;
    task.lint(linters, now);
    proof {
        lemma_warned_by_stats(linters@, linters@.len() as int, unlinted, task, now);
    }
    task
}


/// Whether the announcement `nt` is taken in: it names metadata that is
/// known, and it has a span ID whose statistics are at hand.
pub open spec fn admitted(
    nt: NewTask,
    metas: Map<u64, Metadata>,
    stats: Map<u64, RawTaskStats>,
) -> bool {
    &&& nt.metadata is Some
    &&& metas.contains_key(nt.metadata.unwrap())
    &&& nt.id is Some
    &&& stats.contains_key(nt.id.unwrap())
}

/// The statistics not yet used after the first `n` announcements of `tasks`
/// were taken in, starting from `stats0`.
pub open spec fn stats_after(
    tasks: Seq<NewTask>,
    n: int,
    metas: Map<u64, Metadata>,
    stats0: Map<u64, RawTaskStats>,
) -> Map<u64, RawTaskStats>
    decreases n,
{
    if n <= 0 {
        stats0
    } else {
        let m = stats_after(tasks, n - 1, metas, stats0);
        if admitted(tasks[n - 1], metas, m) {
            m.remove(tasks[n - 1].id.unwrap())
        } else {
            m
        }
    }
}

/// Whether the announcement at index `i` of `tasks` is taken in.
pub open spec fn admitted_at(
    tasks: Seq<NewTask>,
    i: int,
    metas: Map<u64, Metadata>,
    stats0: Map<u64, RawTaskStats>,
) -> bool {
    admitted(tasks[i], metas, stats_after(tasks, i, metas, stats0))
}

/// The next sequential number after `next`, wrapping around.
pub open spec fn next_number(next: u64) -> u64 {
    if next == u64::MAX {
        0
    } else {
        (next + 1) as u64
    }
}

/// The sequential IDs given (by span ID) and the next number, after the first
/// `n` announcements of `tasks` were taken in.
pub open spec fn ids_after(
    tasks: Seq<NewTask>,
    n: int,
    metas: Map<u64, Metadata>,
    stats0: Map<u64, RawTaskStats>,
    assigned0: Map<u64, u64>,
    next0: u64,
) -> (Map<u64, u64>, u64)
    decreases n,
{
    if n <= 0 {
        (assigned0, next0)
    } else {
        let (a, nx) = ids_after(tasks, n - 1, metas, stats0, assigned0, next0);
        let span = tasks[n - 1].id.unwrap();
        if admitted_at(tasks, n - 1, metas, stats0) && !a.contains_key(span) {
            (a.insert(span, nx), next_number(nx))
        } else {
            (a, nx)
        }
    }
}

/// The sequential ID of the task announced at index `i` of `tasks`.
pub open spec fn id_of(
    tasks: Seq<NewTask>,
    i: int,
    metas: Map<u64, Metadata>,
    stats0: Map<u64, RawTaskStats>,
    assigned0: Map<u64, u64>,
    next0: u64,
) -> u64 {
    ids_after(tasks, i + 1, metas, stats0, assigned0, next0).0[tasks[i].id.unwrap()]
}

/// The sequential IDs of the first `n` announcements of `tasks` that are
/// taken in, in order.
pub open spec fn admitted_ids(
    tasks: Seq<NewTask>,
    n: int,
    metas: Map<u64, Metadata>,
    stats0: Map<u64, RawTaskStats>,
    assigned0: Map<u64, u64>,
    next0: u64,
) -> Seq<u64>
    decreases n,
{
    if n <= 0 {
        Seq::empty()
    } else if admitted_at(tasks, n - 1, metas, stats0) {
        admitted_ids(tasks, n - 1, metas, stats0, assigned0, next0).push(
            id_of(tasks, n - 1, metas, stats0, assigned0, next0),
        )
    } else {
        admitted_ids(tasks, n - 1, metas, stats0, assigned0, next0)
    }
}

/// The last of the first `upto` announcements of `tasks` that is taken in
/// with sequential ID `k`.
pub open spec fn last_built(
    tasks: Seq<NewTask>,
    k: u64,
    upto: int,
    metas: Map<u64, Metadata>,
    stats0: Map<u64, RawTaskStats>,
    assigned0: Map<u64, u64>,
    next0: u64,
) -> Option<int>
    decreases upto,
{
    if upto <= 0 {
        None
    } else if admitted_at(tasks, upto - 1, metas, stats0) && id_of(
        tasks,
        upto - 1,
        metas,
        stats0,
        assigned0,
        next0,
    ) == k {
        Some(upto - 1)
    } else {
        last_built(tasks, k, upto - 1, metas, stats0, assigned0, next0)
    }
}

/// Whether `t` is the task built from the announcement at index `i` of
/// `tasks`.
pub open spec fn built_at(
    t: Task,
    tasks: Seq<NewTask>,
    i: int,
    metas: Map<u64, Metadata>,
    stats0: Map<u64, RawTaskStats>,
    assigned0: Map<u64, u64>,
    next0: u64,
    linters: Seq<Linter>,
    now: SystemTime,
    styles: Styles,
) -> bool {
    let nt = tasks[i];
    let span = nt.id.unwrap();
    task_built(
        t,
        nt,
        metas[nt.metadata.unwrap()],
        id_of(tasks, i, metas, stats0, assigned0, next0),
        span,
        stats_after(tasks, i, metas, stats0)[span],
        linters,
        now,
        styles,
    )
}

/// The pairs of sequential ID numbers and tasks.
pub open spec fn pairs_of(built: Seq<(Id<Task>, Task)>) -> Seq<(u64, Task)> {
    built.map_values(|p: (Id<Task>, Task)| (p.0.value(), p.1))
}

/// The tasks of the console, and the linters that check them.
pub struct TasksState {
    tasks: Store<Task>,
    linters: Vec<Linter>,
    dropped_events: u64,
}

impl TasksState {
    /// The stored tasks.
    pub closed spec fn store(self) -> Store<Task> {
        self.tasks
    }

    /// The linters that check the tasks.
    pub closed spec fn spec_linters(self) -> Seq<Linter> {
        self.linters@
    }

    /// The number of events the observed program dropped.
    pub closed spec fn spec_dropped_events(self) -> u64 {
        self.dropped_events
    }

    pub open spec fn wf(self) -> bool {
        self.store().wf()
    }

    /// No task, no linter, no dropped event.
    pub fn new() -> (r: Self)
        ensures
            r.wf(),
            r.store().items() == Map::<u64, Task>::empty(),
            r.store().new_ids() == Seq::<u64>::empty(),
            r.store().spec_ids().next_id() == 1,
            r.store().spec_ids().assigned() == Map::<u64, u64>::empty(),
            r.spec_linters() == Seq::<Linter>::empty(),
            r.spec_dropped_events() == 0,
    {
        TasksState { tasks: Store::new(), linters: Vec::new(), dropped_events: 0 }
    }

    /// Takes in the announced tasks `tasks`, in order, using the statistics of
    /// `stats` (each one is used once), and stores them.
    fn admit_new_tasks(
        &mut self,
        strings: &mut Strings,
        metas: &HashMap<u64, Metadata>,
        tasks: Vec<NewTask>,
        stats: &mut HashMap<u64, RawTaskStats>,
        visibility: Visibility,
        now: SystemTime,
        styles: &Styles,
    )
        requires
            old(self).wf(),
            forall|k: u64| #[trigger] old(stats)@.contains_key(k) ==> raw_stats_ok(old(stats)@[k]),
        ensures
            final(self).wf(),
            final(self).spec_linters() == old(self).spec_linters(),
            final(self).spec_dropped_events() == old(self).spec_dropped_events(),
            final(stats)@ == stats_after(tasks@, tasks@.len() as int, metas@, old(stats)@),
            final(self).store().new_ids() == (match visibility {
                Visibility::Show => Seq::<u64>::empty(),
                Visibility::Hide => old(self).store().new_ids(),
            }) + admitted_ids(
                tasks@,
                tasks@.len() as int,
                metas@,
                old(stats)@,
                old(self).store().spec_ids().assigned(),
                old(self).store().spec_ids().next_id(),
            ),
            (final(self).store().spec_ids().assigned(), final(self).store().spec_ids().next_id())
                == ids_after(
                tasks@,
                tasks@.len() as int,
                metas@,
                old(stats)@,
                old(self).store().spec_ids().assigned(),
                old(self).store().spec_ids().next_id(),
            ),
            forall|k: u64|
                #[trigger] final(self).store().items().contains_key(k) <==> (old(
                    self,
                ).store().items().contains_key(k) || last_built(
                    tasks@,
                    k,
                    tasks@.len() as int,
                    metas@,
                    old(stats)@,
                    old(self).store().spec_ids().assigned(),
                    old(self).store().spec_ids().next_id(),
                ) is Some),
            forall|k: u64| #[trigger]
                final(self).store().items().contains_key(k) ==> match last_built(
                    tasks@,
                    k,
                    tasks@.len() as int,
                    metas@,
                    old(stats)@,
                    old(self).store().spec_ids().assigned(),
                    old(self).store().spec_ids().next_id(),
                ) {
                    Some(i) => built_at(
                        final(self).store().items()[k],
                        tasks@,
                        i,
                        metas@,
                        old(stats)@,
                        old(self).store().spec_ids().assigned(),
                        old(self).store().spec_ids().next_id(),
                        old(self).spec_linters(),
                        now,
                        *styles,
                    ),
                    None => final(self).store().items()[k] == old(self).store().items()[k],
                },
            old(strings)@.subset_of(final(strings)@),
    {
        let ghost orig = tasks@;
        let ghost total = orig.len();
        let ghost stats0 = stats@;
        let ghost a0 = self.tasks.spec_ids().assigned();
        let ghost n0 = self.tasks.spec_ids().next_id();
        let ghost ms = metas@;
        let mut rest = crate::store::reversed(tasks);
        let mut built: Vec<(Id<Task>, Task)> = Vec::new();
        let ghost mut idxs: Seq<int> = Seq::empty();
        while rest.len() > 0
            invariant
                rest@.len() <= total,
                total == orig.len(),
                rest@ == orig.reverse().take(rest@.len() as int),
                ms == metas@,
                self.tasks.wf(),
                self.tasks.items() == old(self).tasks.items(),
                self.tasks.new_ids() == old(self).tasks.new_ids(),
                self.linters == old(self).linters,
                self.dropped_events == old(self).dropped_events,
                stats@ == stats_after(orig, total - rest@.len(), ms, stats0),
                (self.tasks.spec_ids().assigned(), self.tasks.spec_ids().next_id()) == ids_after(
                    orig,
                    total - rest@.len(),
                    ms,
                    stats0,
                    a0,
                    n0,
                ),
                forall|k: u64| #[trigger] stats0.contains_key(k) ==> raw_stats_ok(stats0[k]),
                forall|k: u64| #[trigger] stats@.contains_key(k) ==> stats0.contains_key(k) && stats@[k] == stats0[k],
                built@.len() == idxs.len(),
                built@.map_values(|p: (Id<Task>, Task)| p.0.value()) == admitted_ids(
                    orig,
                    total - rest@.len(),
                    ms,
                    stats0,
                    a0,
                    n0,
                ),
                forall|m: int| 0 <= m < idxs.len() ==> 0 <= #[trigger] idxs[m] < total - rest@.len(),
                forall|k: u64|
                    #[trigger] last_built(orig, k, total - rest@.len(), ms, stats0, a0, n0) == match last_with_key(
                        pairs_of(built@),
                        k,
                        built@.len() as int,
                    ) {
                        Some(m) => Some(idxs[m]),
                        None => None,
                    },
                forall|m: int|
                    0 <= m < idxs.len() ==> #[trigger] built@[m].0.value() == id_of(
                        orig,
                        idxs[m],
                        ms,
                        stats0,
                        a0,
                        n0,
                    ),
                forall|m: int|
                    0 <= m < idxs.len() ==> built_at(#[trigger] built@[m].1, orig, idxs[m], ms, stats0, a0, n0, self.linters@, now, *styles),
                old(strings)@.subset_of(strings@),
            decreases rest.len(),
        {
            let ghost done = total - rest@.len();
            let nt = rest.pop().unwrap();
            assert(orig[done] == nt) by {
                assert(orig.reverse()[rest@.len() as int] == orig[total - 1 - rest@.len()]);
            }
            assert(rest@ =~= orig.reverse().take(rest@.len() as int));
            let ghost snt = nt;
            proof {
                if !admitted_at(orig, done, ms, stats0) {
                    assert forall|k: u64| #[trigger] last_built(orig, k, done + 1, ms, stats0, a0, n0)
                        == last_built(orig, k, done, ms, stats0, a0, n0) by {}
                }
            }
            let meta_id = match nt.metadata {
                Some(id) => id,
                None => {
                    continue;
                },
            };
            let meta = match metas.get(&meta_id) {
                Some(meta) => meta,
                None => {
                    continue;
                },
            };
            let span_id = match nt.id {
                Some(id) => id,
                None => {
                    continue;
                },
            };
            let raw = match stats.remove(&span_id) {
                Some(raw) => raw,
                None => {
                    continue;
                },
            };
            assert(admitted_at(orig, done, ms, stats0));
            // remap the server's ID to a pretty, sequential task ID
            let id = self.tasks.ids_mut().id_for(span_id);
            let task = build_task(nt, meta, id, span_id, raw, strings, self.linters.as_slice(), now, styles);
            let ghost prev = built@;
            built.push((id, task));
            let ghost old_idxs = idxs;
            proof {
                assert(built@.map_values(|p: (Id<Task>, Task)| p.0.value()) =~= prev.map_values(
                    |p: (Id<Task>, Task)| p.0.value(),
                ).push(id.value()));
                idxs = idxs.push(done);
                assert(pairs_of(prev) =~= pairs_of(built@).take(prev.len() as int));
                assert forall|k: u64|
                    #[trigger] last_built(orig, k, done + 1, ms, stats0, a0, n0) == match last_with_key(
                        pairs_of(built@),
                        k,
                        built@.len() as int,
                    ) {
                        Some(m) => Some(idxs[m]),
                        None => None,
                    } by {
                    crate::store::lemma_last_with_key_take(pairs_of(built@), k, prev.len() as int);
                    crate::store::lemma_last_with_key_prefix(pairs_of(prev), k, prev.len() as int);
                    assert(last_built(orig, k, done, ms, stats0, a0, n0) == match last_with_key(
                        pairs_of(prev),
                        k,
                        prev.len() as int,
                    ) {
                        Some(m) => Some(old_idxs[m]),
                        None => None,
                    });
                }
            }
        }
        let ghost pairs = pairs_of(built@);
        self.tasks.insert_with(visibility, built);
        proof {
            assert(built@.map_values(|p: (Id<Task>, Task)| (p.0.value(), p.1)) == pairs);
            assert forall|k: u64| #[trigger] self.store().items().contains_key(k) implies match last_built(
                orig,
                k,
                total as int,
                ms,
                stats0,
                a0,
                n0,
            ) {
                Some(i) => built_at(self.store().items()[k], orig, i, ms, stats0, a0, n0, old(self).spec_linters(), now, *styles),
                None => self.store().items()[k] == old(self).store().items()[k],
            } by {
                lemma_insert_all_lookup(old(self).tasks.items(), pairs, k);
            }
            assert forall|k: u64| #[trigger] self.store().items().contains_key(k) <==> (old(self).store().items().contains_key(k) || last_built(
                orig,
                k,
                total as int,
                ms,
                stats0,
                a0,
                n0,
            ) is Some) by {
                lemma_insert_all_lookup(old(self).tasks.items(), pairs, k);
            }
        }

    }
}


/// Whether `b` is `a` with other statistics (and warnings).
pub open spec fn same_but_stats(a: Task, b: Task) -> bool {
    &&& a.id == b.id
    &&& a.task_id == b.task_id
    &&& a.span_id == b.span_id
    &&& a.id_str == b.id_str
    &&& a.short_desc == b.short_desc
    &&& a.fields == b.fields
    &&& a.formatted_fields == b.formatted_fields
    &&& a.target == b.target
    &&& a.name == b.name
    &&& a.location == b.location
}

/// Whether the task `after` is `before` updated with the statistics `stats`
/// (by span ID) of a task whose sequential ID is `k`, under the span IDs
/// `assigned`: some span ID of `stats` belongs to `k`, and `after` holds the
/// statistics of one such span ID and is checked anew; if none belongs to
/// `k`, `after` is `before`.
pub open spec fn stats_applied(
    before: Task,
    after: Task,
    k: u64,
    stats: Map<u64, RawTaskStats>,
    assigned: Map<u64, u64>,
    linters: Seq<Linter>,
    now: SystemTime,
) -> bool {
    if exists|s: u64| #[trigger] stats.contains_key(s) && assigned.contains_key(s) && assigned[s] == k {
        exists|s: u64|
            #[trigger] stats.contains_key(s) && assigned.contains_key(s) && assigned[s] == k
                && stats_from_raw(stats[s], after.stats) && same_but_stats(before, after)
                && after.warnings@ == warned_by(linters, linters.len() as int, after, now)
    } else {
        after == before
    }
}

proof fn lemma_stats_applied_extend(
    before: Task,
    after: Task,
    k: u64,
    p0: Map<u64, RawTaskStats>,
    span: u64,
    raw: RawTaskStats,
    a: Map<u64, u64>,
    linters: Seq<Linter>,
    now: SystemTime,
)
    requires
        stats_applied(before, after, k, p0, a, linters, now),
        !p0.contains_key(span),
        !a.contains_key(span) || a[span] != k,
    ensures
        stats_applied(before, after, k, p0.insert(span, raw), a, linters, now),
{
    let p1 = p0.insert(span, raw);
    if exists|s: u64| #[trigger] p1.contains_key(s) && a.contains_key(s) && a[s] == k {
        let s1 = choose|s: u64| #[trigger] p1.contains_key(s) && a.contains_key(s) && a[s] == k;
        assert(p0.contains_key(s1));
        let s0 = choose|s: u64|
            #[trigger] p0.contains_key(s) && a.contains_key(s) && a[s] == k && stats_from_raw(
                p0[s],
                after.stats,
            ) && same_but_stats(before, after) && after.warnings@ == warned_by(
                linters,
                linters.len() as int,
                after,
                now,
            );
        assert(p1.contains_key(s0) && p1[s0] == p0[s0]);
    } else {
        assert forall|s: u64| #[trigger] p0.contains_key(s) && a.contains_key(s) implies a[s] != k by {
            assert(p1.contains_key(s));
        }
    }
}

impl TasksState {
    /// Updates the stored tasks with the statistics of `stats`, by span ID,
    /// and checks each updated task anew.
    fn apply_stats(&mut self, stats: HashMap<u64, RawTaskStats>, now: SystemTime)
        requires
            old(self).wf(),
            forall|k: u64| #[trigger] stats@.contains_key(k) ==> raw_stats_ok(stats@[k]),
        ensures
            final(self).wf(),
            final(self).spec_linters() == old(self).spec_linters(),
            final(self).spec_dropped_events() == old(self).spec_dropped_events(),
            final(self).store().spec_ids() == old(self).store().spec_ids(),
            final(self).store().new_ids() == old(self).store().new_ids(),
            final(self).store().items().dom() == old(self).store().items().dom(),
            forall|k: u64| #[trigger]
                final(self).store().items().contains_key(k) ==> stats_applied(
                    old(self).store().items()[k],
                    final(self).store().items()[k],
                    k,
                    stats@,
                    old(self).store().spec_ids().assigned(),
                    old(self).spec_linters(),
                    now,
                ),
    {
        let ghost st = stats@;
        let ghost a = self.tasks.spec_ids().assigned();
        let ghost items0 = self.tasks.items();
        let mut keys: Vec<u64> = Vec::new();
        let ghost ks = vstd::std_specs::hash::spec_keys_iter(&stats).remaining();
        for k in it: stats.keys()
            invariant
                it.seq() == ks,
                keys@.len() == it.index(),
                forall|i: int| 0 <= i < keys@.len() ==> #[trigger] keys@[i] == *ks[i],
        {
            keys.push(*k);
        }
        proof {
            assert(keys@ =~= ks.unref());
        }
        let mut stats = stats;
        let n = keys.len();
        for i in 0..n
            invariant
                n == keys@.len(),
                keys@.to_set() == st.dom(),
                keys@.no_duplicates(),
                forall|j: int| i <= j < n ==> #[trigger] stats@.contains_key(keys@[j]),
                forall|s: u64| #[trigger] stats@.contains_key(s) ==> st.contains_key(s) && stats@[s] == st[s],
                forall|s: u64| #[trigger] st.contains_key(s) ==> raw_stats_ok(st[s]),
                self.wf(),
                self.linters == old(self).linters,
                self.dropped_events == old(self).dropped_events,
                self.tasks.spec_ids() == old(self).tasks.spec_ids(),
                a == old(self).tasks.spec_ids().assigned(),
                self.tasks.new_ids() == old(self).tasks.new_ids(),
                self.tasks.items().dom() == items0.dom(),
                items0 == old(self).tasks.items(),
                forall|k: u64| #[trigger]
                    self.tasks.items().contains_key(k) ==> stats_applied(
                        items0[k],
                        self.tasks.items()[k],
                        k,
                        st.restrict(keys@.take(i as int).to_set()),
                        a,
                        self.linters@,
                        now,
                    ),
        {
            let span = keys[i];
            let ghost before = self.tasks.items();
            let raw = stats.remove(&span).unwrap();
            assert(raw == st[span]);
            let ghost p0 = st.restrict(keys@.take(i as int).to_set());
            let ghost p1 = st.restrict(keys@.take(i + 1).to_set());
            proof {
                assert(p1 =~= p0.insert(span, raw)) by {
                    assert(keys@.take(i + 1).to_set() =~= keys@.take(i as int).to_set().insert(span)) by {
                        assert(keys@.take(i + 1) =~= keys@.take(i as int).push(span));
                        keys@.take(i as int).lemma_push_to_set_commute(span);
                    }
                }
                assert(keys@.take(i + 1).to_set() =~= keys@.take(i as int).to_set().insert(span)) by {
                    assert(keys@.take(i + 1) =~= keys@.take(i as int).push(span));
                    keys@.take(i as int).lemma_push_to_set_commute(span);
                }
                assert(!keys@.take(i as int).to_set().contains(span)) by {
                    if keys@.take(i as int).to_set().contains(span) {
                        let j = choose|j: int| 0 <= j < i && keys@.take(i as int)[j] == span;
                        assert(keys@[j] == keys@[i as int]);
                    }
                }
                assert forall|j: int| i + 1 <= j < n implies #[trigger] stats@.contains_key(keys@[j]) by {
                    assert(keys@[j] != keys@[i as int]);
                }
            }
            let found = self.tasks.ids().get(span);
            match found {
                Some(id) => {
                    match self.tasks.take(id) {
                        Some(task) => {
                            let mut task = task;
                            let ghost t0 = task;
                            task.stats = TaskStats::from_raw(raw);
                            let ghost t_unlinted = task;
                            task.lint(self.linters.as_slice(), now);
                            proof {
                                lemma_warned_by_stats(self.linters@, self.linters@.len() as int, t_unlinted, task, now);
                            }
                            self.tasks.put(id, task);
                            proof {
                                assert forall|k: u64| #[trigger] self.tasks.items().contains_key(k) implies stats_applied(
                                    items0[k],
                                    self.tasks.items()[k],
                                    k,
                                    p1,
                                    a,
                                    self.linters@,
                                    now,
                                ) by {
                                    if k == id.value() {
                                        let t1 = self.tasks.items()[k];
                                        assert(t0 == before[k]);
                                        assert(stats_applied(items0[k], t0, k, p0, a, self.linters@, now));
                                        assert(same_but_stats(t0, t1));
                                        if exists|s: u64| #[trigger] p0.contains_key(s) && a.contains_key(s) && a[s] == k {
                                            let s0 = choose|s: u64| #[trigger] p0.contains_key(s) && a.contains_key(s) && a[s] == k
                                                && stats_from_raw(p0[s], t0.stats) && same_but_stats(items0[k], t0)
                                                && t0.warnings@ == warned_by(self.linters@, self.linters@.len() as int, t0, now);
                                            assert(same_but_stats(items0[k], t1));
                                        } else {
                                            assert(t0 == items0[k]);
                                        }
                                        assert(p1.contains_key(span) && a.contains_key(span) && a[span] == k
                                            && stats_from_raw(p1[span], t1.stats) && same_but_stats(items0[k], t1)
                                            && t1.warnings@ == warned_by(self.linters@, self.linters@.len() as int, t1, now));
                                    } else {
                                        assert(before.contains_key(k));
                                        assert(self.tasks.items()[k] == before[k]);
                                        lemma_stats_applied_extend(items0[k], before[k], k, p0, span, raw, a, self.linters@, now);
                                    }
                                }
                            }
                        },
                        None => {
                            proof {
                                assert(self.tasks.items() =~= before);
                                assert forall|k: u64| #[trigger] self.tasks.items().contains_key(k) implies stats_applied(
                                    items0[k],
                                    self.tasks.items()[k],
                                    k,
                                    p1,
                                    a,
                                    self.linters@,
                                    now,
                                ) by {
                                    assert(before.contains_key(k));
                                    lemma_stats_applied_extend(items0[k], before[k], k, p0, span, raw, a, self.linters@, now);
                                }
                            }
                        },
                    }
                },
                None => {
                    proof {
                        assert forall|k: u64| #[trigger] self.tasks.items().contains_key(k) implies stats_applied(
                            items0[k],
                            self.tasks.items()[k],
                            k,
                            p1,
                            a,
                            self.linters@,
                            now,
                        ) by {
                            assert(before.contains_key(k));
                            lemma_stats_applied_extend(items0[k], before[k], k, p0, span, raw, a, self.linters@, now);
                        }
                    }
                },
            }
        }
        proof {
            assert(keys@.take(n as int) =~= keys@);
            assert(st.restrict(keys@.to_set()) =~= st);
        }
    }
}


/// An update of the tasks: announcements of new tasks, statistics by span
/// ID, and the number of events the observed program dropped.
pub struct TaskUpdate {
    pub new_tasks: Vec<NewTask>,
    pub stats_update: HashMap<u64, RawTaskStats>,
    pub dropped_events: u64,
}

/// Whether `t` is what key `k` held after the announced tasks were taken in:
/// the task last built under `k`, or else the task that was stored.
pub open spec fn admitted_item(
    t: Task,
    k: u64,
    old_items: Map<u64, Task>,
    tasks: Seq<NewTask>,
    metas: Map<u64, Metadata>,
    stats0: Map<u64, RawTaskStats>,
    assigned0: Map<u64, u64>,
    next0: u64,
    linters: Seq<Linter>,
    now: SystemTime,
    styles: Styles,
) -> bool {
    match last_built(tasks, k, tasks.len() as int, metas, stats0, assigned0, next0) {
        Some(i) => built_at(t, tasks, i, metas, stats0, assigned0, next0, linters, now, styles),
        None => t == old_items[k],
    }
}

/// Whether `after` is what the tasks `before` become when they take in
/// `update` under the metadata `metas` (shown at once if `visibility` says
/// so) at `now`, with fields shown in `styles`: each announced task whose
/// metadata is known and whose statistics came along is built and given a
/// sequential ID; then the stored tasks are updated with the statistics left
/// and checked anew.
pub open spec fn tasks_updated(
    before: TasksState,
    after: TasksState,
    styles: Styles,
    metas: Map<u64, Metadata>,
    update: TaskUpdate,
    visibility: Visibility,
    now: SystemTime,
) -> bool {
    &&& after.spec_linters() == before.spec_linters()
    &&& after.spec_dropped_events() == before.spec_dropped_events()
        + update.dropped_events
    &&& (after.store().spec_ids().assigned(), after.store().spec_ids().next_id())
        == ids_after(
        update.new_tasks@,
        update.new_tasks@.len() as int,
        metas,
        update.stats_update@,
        before.store().spec_ids().assigned(),
        before.store().spec_ids().next_id(),
    )
    &&& forall|k: u64|
        #[trigger] after.store().items().contains_key(k) <==> (before.store().items().contains_key(k) || last_built(
            update.new_tasks@,
            k,
            update.new_tasks@.len() as int,
            metas,
            update.stats_update@,
            before.store().spec_ids().assigned(),
            before.store().spec_ids().next_id(),
        ) is Some)
    &&& forall|k: u64| #[trigger]
        after.store().items().contains_key(k) ==> exists|t: Task|
            admitted_item(
                t,
                k,
                before.store().items(),
                update.new_tasks@,
                metas,
                update.stats_update@,
                before.store().spec_ids().assigned(),
                before.store().spec_ids().next_id(),
                before.spec_linters(),
                now,
                styles,
            ) && stats_applied(
                t,
                after.store().items()[k],
                k,
                stats_after(
                    update.new_tasks@,
                    update.new_tasks@.len() as int,
                    metas,
                    update.stats_update@,
                ),
                after.store().spec_ids().assigned(),
                before.spec_linters(),
                now,
            )
    &&& after.store().new_ids() == (match visibility {
        Visibility::Show => Seq::<u64>::empty(),
        Visibility::Hide => before.store().new_ids(),
    }) + admitted_ids(
        update.new_tasks@,
        update.new_tasks@.len() as int,
        metas,
        update.stats_update@,
        before.store().spec_ids().assigned(),
        before.store().spec_ids().next_id(),
    )
}

impl TasksState {
    /// Takes in a task update: each announced task whose metadata is known and
    /// whose statistics came along is built, given a sequential ID and stored
    /// (shown at once if `visibility` says so); then the stored tasks are
    /// updated with the statistics left, and checked anew.
    pub fn update_tasks(
        &mut self,
        styles: &Styles,
        strings: &mut Strings,
        metas: &HashMap<u64, Metadata>,
        update: TaskUpdate,
        visibility: Visibility,
        now: SystemTime,
    )
        requires
            old(self).wf(),
            forall|k: u64| #[trigger]
                update.stats_update@.contains_key(k) ==> raw_stats_ok(update.stats_update@[k]),
            old(self).spec_dropped_events() + update.dropped_events <= u64::MAX,
        ensures
            final(self).wf(),
            tasks_updated(*old(self), *final(self), *styles, metas@, update, visibility, now),
            old(strings)@.subset_of(final(strings)@),
    {
        let TaskUpdate { new_tasks, stats_update, dropped_events } = update;
        let mut stats_update = stats_update;
        self.admit_new_tasks(strings, metas, new_tasks, &mut stats_update, visibility, now, styles);
        let ghost mid = self.store().items();
        proof {
            assert forall|k: u64| #[trigger] stats_update@.contains_key(k) implies raw_stats_ok(stats_update@[k]) by {
                lemma_stats_after_sub(update.new_tasks@, update.new_tasks@.len() as int, metas@, update.stats_update@, k);
            }
        }
        self.apply_stats(stats_update, now);
        self.dropped_events = self.dropped_events + dropped_events;
        proof {
            assert forall|k: u64| #[trigger] self.store().items().contains_key(k) implies exists|t: Task|
                admitted_item(
                    t,
                    k,
                    old(self).store().items(),
                    update.new_tasks@,
                    metas@,
                    update.stats_update@,
                    old(self).store().spec_ids().assigned(),
                    old(self).store().spec_ids().next_id(),
                    old(self).spec_linters(),
                    now,
                    *styles,
                ) && stats_applied(
                    t,
                    self.store().items()[k],
                    k,
                    stats_after(
                        update.new_tasks@,
                        update.new_tasks@.len() as int,
                        metas@,
                        update.stats_update@,
                    ),
                    self.store().spec_ids().assigned(),
                    old(self).spec_linters(),
                    now,
                ) by {
                assert(mid.contains_key(k));
                let t = mid[k];
                assert(admitted_item(
                    t,
                    k,
                    old(self).store().items(),
                    update.new_tasks@,
                    metas@,
                    update.stats_update@,
                    old(self).store().spec_ids().assigned(),
                    old(self).store().spec_ids().next_id(),
                    old(self).spec_linters(),
                    now,
                    *styles,
                ));
            }
        }
    }
}

/// The statistics left after taking in tasks are some of those given.
pub proof fn lemma_stats_after_sub(
    tasks: Seq<NewTask>,
    n: int,
    metas: Map<u64, Metadata>,
    stats0: Map<u64, RawTaskStats>,
    k: u64,
)
    ensures
        stats_after(tasks, n, metas, stats0).contains_key(k) ==> stats0.contains_key(k)
            && stats_after(tasks, n, metas, stats0)[k] == stats0[k],
    decreases n,
{
    if n > 0 {
        lemma_stats_after_sub(tasks, n - 1, metas, stats0, k);
    }
}


/// Whether a task is still shown at `now` when completed tasks are kept for
/// `retain_for`: it was not dropped, or was dropped less than `retain_for`
/// ago.
pub open spec fn still_retained(t: Task, now: SystemTime, retain_for: Duration) -> bool {
    match t.stats.dropped_at {
        Some(d) => retain_for.spec_nanos() > elapsed(now, d),
        None => true,
    }
}

/// The IDs (as numbers) of the stored tasks that hold the warning of linter
/// `linter`.
pub open spec fn holders(items: Map<u64, Task>, linter: usize) -> Set<u64> {
    items.dom().filter(|k: u64| items[k].warnings@.contains(linter))
}

impl TasksState {
    /// The tasks added since this was last called (oldest first).
    pub fn take_new_tasks(&mut self) -> (r: Vec<Id<Task>>)
        requires
            old(self).wf(),
        ensures
            final(self).wf(),
            r@.map_values(|id: Id<Task>| id.value()) == old(self).store().new_ids(),
            final(self).store().new_ids() == Seq::<u64>::empty(),
            final(self).store().items() == old(self).store().items(),
            final(self).store().spec_ids() == old(self).store().spec_ids(),
            final(self).spec_linters() == old(self).spec_linters(),
            final(self).spec_dropped_events() == old(self).spec_dropped_events(),
    {
        self.tasks.take_new_items()
    }

    /// The sequential IDs of the tasks, by span ID.
    pub fn ids_mut(&mut self) -> (r: &mut Ids<Task>)
        ensures
            *r == old(self).store().spec_ids(),
            final(self).store().spec_ids() == *final(r),
            final(self).store().items() == old(self).store().items(),
            final(self).store().new_ids() == old(self).store().new_ids(),
            final(self).spec_linters() == old(self).spec_linters(),
            final(self).spec_dropped_events() == old(self).spec_dropped_events(),
    {
        self.tasks.ids_mut()
    }

    /// Drops the tasks that were dropped `retain_for` or longer before `now`.
    pub fn retain_active(&mut self, now: SystemTime, retain_for: Duration)
        requires
            old(self).wf(),
        ensures
            final(self).wf(),
            final(self).spec_linters() == old(self).spec_linters(),
            final(self).spec_dropped_events() == old(self).spec_dropped_events(),
            final(self).store().spec_ids() == old(self).store().spec_ids(),
            forall|k: u64|
                #[trigger] final(self).store().items().contains_key(k) <==> old(
                    self,
                ).store().items().contains_key(k) && still_retained(
                    old(self).store().items()[k],
                    now,
                    retain_for,
                ),
            forall|k: u64| #[trigger]
                final(self).store().items().contains_key(k) ==> final(self).store().items()[k]
                    == old(self).store().items()[k],
    {
        let keep = |_id: &Id<Task>, task: &Task| -> (r: bool)
            ensures
                r == still_retained(*task, now, retain_for),
            {
                match task.stats.dropped_at {
                    Some(d) => {
                        let dropped_for = now.elapsed_since(&d);
                        dropped_for.lt(&retain_for)
                    },
                    None => true,
                }
            };
        self.tasks.retain(keep);
    }

    /// Whether the times of every stored task add up at `now` (see
    /// `Task::times_fit_at`).
    pub fn times_fit_at(&self, now: SystemTime) -> (r: bool)
        ensures
            r == forall|k: u64| #[trigger]
                self.store().items().contains_key(k) ==> times_fit(self.store().items()[k], now),
    {
        let all = self.tasks.values();
        let n = all.len();
        for i in 0..n
            invariant
                n == all@.len(),
                forall|j: int| 0 <= j < i ==> times_fit(*#[trigger] all@[j], now),
                forall|j: int| 0 <= j < n ==> self.store().items().values().contains(*#[trigger] all@[j]),
                forall|k: u64| #[trigger]
                    self.store().items().contains_key(k) ==> exists|j: int|
                        0 <= j < n && *#[trigger] all@[j] == self.store().items()[k],
        {
            if !all[i].times_fit_at(now) {
                proof {
                    let t = *all@[i as int];
                    assert(self.store().items().values().contains(t));
                    let k = choose|k: u64| #[trigger] self.store().items().contains_key(k) && self.store().items()[k] == t;
                    assert(self.store().items().contains_key(k) && !times_fit(self.store().items()[k], now));
                }
                return false;
            }
        }
        proof {
            assert forall|k: u64| #[trigger] self.store().items().contains_key(k) implies times_fit(
                self.store().items()[k],
                now,
            ) by {
                let i = choose|i: int| 0 <= i < all@.len() && *#[trigger] all@[i] == self.store().items()[k];
                assert(times_fit(*all@[i], now));
            }
        }
        true
    }

    /// The number of stored tasks that hold the warning of linter `linter`.
    pub fn warning_count(&self, linter: usize) -> (r: usize)
        ensures
            r == holders(self.store().items(), linter).len(),
    {
        let pairs = self.tasks.iter();
        let n = pairs.len();
        let ghost items = self.tasks.items();
        let mut count: usize = 0;
        let ghost mut seen: Set<u64> = Set::empty();
        proof {
            lemma_pairs_distinct(items, pairs@);
        }
        for i in 0..n
            invariant
                n == pairs@.len(),
                items == self.tasks.items(),
                n == items.dom().len(),
                forall|m: int| 0 <= m < n ==> items.contains_key(#[trigger] pairs@[m].0.value()) && *pairs@[m].1
                    == items[pairs@[m].0.value()],
                forall|m: int, m2: int| 0 <= m < m2 < n ==> pairs@[m].0.value() != pairs@[m2].0.value(),
                seen == holders(items, linter).filter(|k: u64| exists|m: int| 0 <= m < i && pairs@[m].0.value() == k),
                seen.finite(),
                count == seen.len(),
                count <= i,
        {
            let (id, task) = pairs[i];
            let held = vec_contains(&task.warnings, linter);
            let ghost old_seen = seen;
            if held {
                count = count + 1;
                proof {
                    seen = seen.insert(id.value());
                }
            }
            proof {
                assert(seen =~= holders(items, linter).filter(|k: u64| exists|m: int| 0 <= m < i + 1 && pairs@[m].0.value() == k)) by {
                    assert forall|k: u64| holders(items, linter).filter(|k: u64| exists|m: int| 0 <= m < i + 1 && pairs@[m].0.value() == k).contains(k) implies seen.contains(k) by {
                        let m = choose|m: int| 0 <= m < i + 1 && pairs@[m].0.value() == k;
                        if m < i {
                            assert(old_seen.contains(k));
                        }
                    }
                    assert forall|k: u64| seen.contains(k) implies holders(items, linter).filter(|k: u64| exists|m: int| 0 <= m < i + 1 && pairs@[m].0.value() == k).contains(k) by {
                        if old_seen.contains(k) {
                            let m = choose|m: int| 0 <= m < i && pairs@[m].0.value() == k;
                            assert(0 <= m < i + 1 && pairs@[m].0.value() == k);
                        } else {
                            assert(k == id.value());
                            assert(pairs@[i as int].0.value() == k);
                        }
                    }
                }
                if held {
                    assert(!old_seen.contains(id.value())) by {
                        if old_seen.contains(id.value()) {
                            let m = choose|m: int| 0 <= m < i && pairs@[m].0.value() == id.value();
                        }
                    }
                }
            }
        }
        proof {
            assert(seen =~= holders(items, linter)) by {
                assert forall|k: u64| holders(items, linter).contains(k) implies seen.contains(k) by {
                    let m = choose|m: int| 0 <= m < n && #[trigger] pairs@[m].0.value() == k;
                }
            }
        }
        count
    }

    /// The indices of the linters whose warning some stored task holds.
    pub fn warnings(&self) -> (r: Vec<usize>)
        ensures
            forall|i: int| 0 <= i < r@.len() ==> #[trigger] r@[i] < self.spec_linters().len() && holders(
                self.store().items(),
                r@[i],
            ).len() > 0,
            forall|l: usize| l < self.spec_linters().len() && holders(self.store().items(), l).len() > 0 ==> r@.contains(l),
            forall|i: int, j: int| 0 <= i < j < r@.len() ==> r@[i] < r@[j],
    {
        let mut r: Vec<usize> = Vec::new();
        let n = self.linters.len();
        for l in 0..n
            invariant
                n == self.spec_linters().len(),
                forall|i: int| 0 <= i < r@.len() ==> #[trigger] r@[i] < l && holders(self.store().items(), r@[i]).len() > 0,
                forall|l2: usize| l2 < l && holders(self.store().items(), l2).len() > 0 ==> r@.contains(l2),
                forall|i: int, j: int| 0 <= i < j < r@.len() ==> r@[i] < r@[j],
        {
            let ghost prev = r@;
            if self.warning_count(l) > 0 {
                r.push(l);
                assert(r@[r@.len() - 1] == l);
                assert forall|l2: usize| l2 < l && holders(self.store().items(), l2).len() > 0 implies r@.contains(l2) by {
                    assert(prev.contains(l2));
                    let j = choose|j: int| 0 <= j < prev.len() && prev[j] == l2;
                    assert(r@[j] == l2);
                }
            }
        }
        r
    }

    /// The number of linters.
    pub fn linter_count(&self) -> (r: usize)
        ensures
            r == self.spec_linters().len(),
    {
        self.linters.len()
    }

    /// The linter at index `i`.
    /// The linters that check the tasks.
    pub fn linters(&self) -> (r: &[Linter])
        ensures
            r@ == self.spec_linters(),
    {
        self.linters.as_slice()
    }

    pub fn linter(&self, i: usize) -> (r: &Linter)
        requires
            i < self.spec_linters().len(),
        ensures
            *r == self.spec_linters()[i as int],
    {
        &self.linters[i]
    }

    /// The task with sequential ID `id`.
    pub fn task(&self, id: Id<Task>) -> (r: Option<&Task>)
        ensures
            match r {
                Some(t) => self.store().items().contains_key(id.value()) && *t == self.store().items()[id.value()],
                None => !self.store().items().contains_key(id.value()),
            },
    {
        self.tasks.get(id)
    }

    /// The number of events the observed program dropped.
    pub fn dropped_events(&self) -> (r: u64)
        ensures
            r == self.spec_dropped_events(),
    {
        self.dropped_events
    }

    /// Adds `linters` to the linters that check the tasks.
    pub fn with_task_linters(self, linters: Vec<Linter>) -> (r: Self)
        requires
            self.wf(),
        ensures
            r.wf(),
            r.spec_linters() == self.spec_linters() + linters@,
            r.store() == self.store(),
            r.spec_dropped_events() == self.spec_dropped_events(),
    {
        let mut s = self;
        let mut linters = linters;
        let ghost start = s.linters@;
        let ghost add = linters@;
        s.linters.append(&mut linters);
        s
    }
}

/// Whether `v` holds `x`.
pub fn vec_contains(v: &Vec<usize>, x: usize) -> (r: bool)
    ensures
        r == v@.contains(x),
{
    let n = v.len();
    for i in 0..n
        invariant
            n == v@.len(),
            forall|j: int| 0 <= j < i ==> v@[j] != x,
    {
        if v[i] == x {
            assert(v@[i as int] == x);
            return true;
        }
    }
    false
}

/// The IDs of the pairs that iterating a store gives are distinct.
proof fn lemma_pairs_distinct(items: Map<u64, Task>, pairs: Seq<(Id<Task>, &Task)>)
    requires
        pairs.len() == items.dom().len(),
        forall|m: int| 0 <= m < pairs.len() ==> items.contains_key(#[trigger] pairs[m].0.value()),
        forall|k: u64| #[trigger] items.contains_key(k) ==> exists|m: int| 0 <= m < pairs.len() && #[trigger] pairs[m].0.value() == k,
    ensures
        forall|m: int, m2: int| 0 <= m < m2 < pairs.len() ==> pairs[m].0.value() != pairs[m2].0.value(),
{
    let keys = pairs.map_values(|p: (Id<Task>, &Task)| p.0.value());
    assert(keys.to_set() =~= items.dom()) by {
        assert forall|k: u64| items.dom().contains(k) implies keys.to_set().contains(k) by {
            let m = choose|m: int| 0 <= m < pairs.len() && #[trigger] pairs[m].0.value() == k;
            assert(keys[m] == k);
        }
    }
    if exists|m: int, m2: int| 0 <= m < m2 < pairs.len() && pairs[m].0.value() == pairs[m2].0.value() {
        let (m, m2) = choose|m: int, m2: int| 0 <= m < m2 < pairs.len() && pairs[m].0.value() == pairs[m2].0.value();
        assert(keys[m] == keys[m2]);
        keys.lemma_no_dup_set_cardinality();
        assert(false);
    }
}


/// The position of a state in the order of states.
pub open spec fn state_rank(s: TaskState) -> nat {
    match s {
        TaskState::Completed => 0,
        TaskState::Idle => 1,
        TaskState::Running => 2,
        TaskState::Scheduled => 3,
    }
}

/// The key by which the task list sorts the task with sequential ID `id`
/// of `items` at `now`: tasks that are gone first, then by the sort key,
/// where a missing task ID or name comes before any.
pub open spec fn task_sort_key(s: SortBy, items: Map<u64, Task>, id: u64, now: SystemTime) -> (u8, nat, Seq<char>) {
    if !items.contains_key(id) {
        (0, 0, Seq::empty())
    } else {
        let t = items[id];
        match s {
            SortBy::Tid => match t.task_id {
                None => (1, 0, Seq::empty()),
                Some(v) => (2, v as nat, Seq::empty()),
            },
            SortBy::Name => match t.name {
                None => (1, 0, Seq::empty()),
                Some(n) => (2, 0, n@),
            },
            SortBy::State => (1, state_rank(task_state(t)), Seq::empty()),
            SortBy::Warns => (1, t.warnings@.len(), Seq::empty()),
            SortBy::Total => (1, total_time(t, now), Seq::empty()),
            SortBy::Idle => (1, idle_time(t, now), Seq::empty()),
            SortBy::Scheduled => (1, scheduled_time(t, now), Seq::empty()),
            SortBy::Busy => (1, busy_time(t, now), Seq::empty()),
            SortBy::Polls => (1, t.stats.polls as nat, Seq::empty()),
            SortBy::Target => (1, 0, t.target@),
            SortBy::Location => (1, 0, t.location@),
        }
    }
}

/// Whether the times that the sort key `s` reads of `t` at `now` fit in a
/// duration.
pub open spec fn sort_times_fit(s: SortBy, t: Task, now: SystemTime) -> bool {
    match s {
        SortBy::Idle => times_fit(t, now),
        SortBy::Scheduled => scheduled_time(t, now) <= MAX_DURATION_NANOS,
        SortBy::Busy => busy_time(t, now) <= MAX_DURATION_NANOS,
        _ => true,
    }
}

/// The sort key of each task ID.
pub open spec fn task_key_fn(s: SortBy, items: Map<u64, Task>, now: SystemTime) -> spec_fn(u64) -> (u8, nat, Seq<char>) {
    |id: u64| task_sort_key(s, items, id, now)
}

impl SortBy {
    /// The sort key of the task `id` in `state` at `now`.
    fn row_key(&self, state: &TasksState, id: u64, now: SystemTime) -> (r: crate::order::RowKey)
        requires
            state.store().items().contains_key(id) ==> sort_times_fit(*self, state.store().items()[id], now),
        ensures
            crate::order::key_of(r) == task_sort_key(*self, state.store().items(), id, now),
            r.id == id,
    {
        let t = match state.task(Id::new(id)) {
            Some(t) => t,
            None => return crate::order::RowKey { rank: 0, num: 0, text: String::new(), id },
        };
        let (rank, num, text): (u8, u128, String) = match self {
            SortBy::Tid => match t.task_id {
                None => (1, 0, String::new()),
                Some(v) => (2, v as u128, String::new()),
            },
            SortBy::Name => match &t.name {
                None => (1, 0, String::new()),
                Some(n) => (2, 0, n.to_string()),
            },
            SortBy::State => {
                let r: u128 = match t.state() {
                    TaskState::Completed => 0,
                    TaskState::Idle => 1,
                    TaskState::Running => 2,
                    TaskState::Scheduled => 3,
                };
                (1, r, String::new())
            },
            SortBy::Warns => (1, t.warnings.len() as u128, String::new()),
            SortBy::Total => (1, t.total(now).as_nanos(), String::new()),
            SortBy::Idle => (1, t.idle(now).as_nanos(), String::new()),
            SortBy::Scheduled => (1, t.scheduled(now).as_nanos(), String::new()),
            SortBy::Busy => (1, t.busy(now).as_nanos(), String::new()),
            SortBy::Polls => (1, t.stats.polls as u128, String::new()),
            SortBy::Target => (1, 0, t.target.to_string()),
            SortBy::Location => (1, 0, t.location.clone()),
        };
        crate::order::RowKey { rank, num, text, id }
    }

    /// Sorts the task IDs `ids` by this sort key of the tasks of `state` at
    /// `now`; tasks that are gone come first.
    pub fn sort(&self, now: SystemTime, state: &TasksState, ids: &mut Vec<u64>)
        requires
            forall|k: u64| #[trigger]
                state.store().items().contains_key(k) ==> sort_times_fit(*self, state.store().items()[k], now),
        ensures
            final(ids)@.to_multiset() == old(ids)@.to_multiset(),
            forall|i: int, j: int|
                0 <= i < j < final(ids)@.len() ==> crate::order::key_le(
                    task_sort_key(*self, state.store().items(), #[trigger] final(ids)@[i], now),
                    task_sort_key(*self, state.store().items(), #[trigger] final(ids)@[j], now),
                ),
    {
        let ghost key = task_key_fn(*self, state.store().items(), now);
        let mut rows: Vec<crate::order::RowKey> = Vec::new();
        let n = ids.len();
        for i in 0..n
            invariant
                n == ids@.len(),
                rows@.map_values(|k: crate::order::RowKey| k.id) == ids@.take(i as int),
                forall|m: int| 0 <= m < rows@.len() ==> crate::order::key_of(#[trigger] rows@[m]) == task_sort_key(*self, state.store().items(), rows@[m].id, now),
                forall|k: u64| #[trigger]
                    state.store().items().contains_key(k) ==> sort_times_fit(*self, state.store().items()[k], now),
        {
            let row = self.row_key(state, ids[i], now);
            let ghost prev = rows@;
            rows.push(row);
            assert forall|m: int| 0 <= m < rows@.len() implies crate::order::key_of(#[trigger] rows@[m]) == task_sort_key(*self, state.store().items(), rows@[m].id, now) by {
                if m < prev.len() {
                    assert(rows@[m] == prev[m]);
                }
            }
            assert(rows@.map_values(|k: crate::order::RowKey| k.id) =~= prev.map_values(|k: crate::order::RowKey| k.id).push(ids@[i as int]));
            assert(ids@.take(i + 1) =~= ids@.take(i as int).push(ids@[i as int]));
        }
        assert(ids@.take(n as int) =~= ids@);
        let sorted = crate::order::sort_rows(rows, Ghost(key));
        *ids = sorted;
    }
}

/// Whether the task `t` holds the interned string `s`: its description,
/// target or name, or the name of one of its fields.
pub open spec fn task_holds(t: Task, s: Seq<char>) -> bool {
    ||| t.short_desc@ == s
    ||| t.target@ == s
    ||| (t.name matches Some(n) && n@ == s)
    ||| has_field_named(t.fields@, s)
}

/// Pushes copies of the interned strings of `t` onto `out`.
pub fn push_task_texts(out: &mut Vec<InternedStr>, t: &Task)
    ensures
        forall|s: Seq<char>| #![trigger holds_text(final(out)@, s)]
            holds_text(final(out)@, s) <==> holds_text(old(out)@, s) || task_holds(*t, s),
{
    let ghost start = out@;
    push_text(out, &t.short_desc);
    let ghost a = out@;
    push_text(out, &t.target);
    let ghost b = out@;
    if let Some(n) = &t.name {
        push_text(out, n);
    }
    let ghost c = out@;
    push_field_names(out, &t.fields);
    assert forall|s: Seq<char>|
        holds_text(out@, s) <==> holds_text(start, s) || task_holds(*t, s) by {
        assert(holds_text(a, s) <==> holds_text(start, s) || t.short_desc@ == s);
        assert(holds_text(b, s) <==> holds_text(a, s) || t.target@ == s);
        assert(holds_text(c, s) <==> holds_text(b, s) || (t.name matches Some(n) && n@ == s));
        assert(holds_text(out@, s) <==> holds_text(c, s) || has_field_named(t.fields@, s));
    }
}

impl TasksState {
    /// Whether one of the stored tasks holds the interned string `s`.
    pub open spec fn holds_text(self, s: Seq<char>) -> bool {
        exists|k: u64| #[trigger]
            self.store().items().contains_key(k) && task_holds(self.store().items()[k], s)
    }

    /// Pushes copies of the interned strings of the stored tasks onto `out`.
    pub fn push_held_texts(&self, out: &mut Vec<InternedStr>)
        ensures
            forall|s: Seq<char>| #![trigger holds_text(final(out)@, s)]
                holds_text(final(out)@, s) <==> holds_text(old(out)@, s) || self.holds_text(s),
    {
        let all = self.tasks.values();
        let ghost start = out@;
        let n = all.len();
        let mut i: usize = 0;
        while i < n
            invariant
                n == all@.len(),
                i <= n,
                start == old(out)@,
                forall|j: int| 0 <= j < n ==> self.store().items().values().contains(*#[trigger] all@[j]),
                forall|k: u64| #[trigger]
                    self.store().items().contains_key(k) ==> exists|j: int|
                        0 <= j < n && *#[trigger] all@[j] == self.store().items()[k],
                forall|s: Seq<char>| #![trigger holds_text(out@, s)]
                    holds_text(out@, s) <==> holds_text(start, s) || exists|j: int|
                        0 <= j < i && task_holds(*#[trigger] all@[j], s),
            decreases n - i,
        {
            let ghost before = out@;
            let ghost j0 = i as int;
            push_task_texts(out, all[i]);
            i = i + 1;
            assert(j0 + 1 == i as int);
            assert forall|s: Seq<char>|
                holds_text(out@, s) <==> holds_text(start, s) || exists|j: int|
                    0 <= j < i && task_holds(*#[trigger] all@[j], s) by {
                assert(holds_text(out@, s) <==> holds_text(before, s) || task_holds(*all@[j0], s));
                assert(holds_text(before, s) <==> holds_text(start, s) || exists|j: int|
                    0 <= j < j0 && task_holds(*#[trigger] all@[j], s));
            }
        }
        assert forall|s: Seq<char>|
            holds_text(out@, s) <==> holds_text(old(out)@, s) || self.holds_text(s) by {
            assert(holds_text(out@, s) <==> holds_text(start, s) || exists|j: int|
                0 <= j < n && task_holds(*#[trigger] all@[j], s));
            if exists|j: int| 0 <= j < n && task_holds(*#[trigger] all@[j], s) {
                let j = choose|j: int| 0 <= j < n && task_holds(*#[trigger] all@[j], s);
                assert(self.store().items().values().contains(*all@[j]));
                let k = choose|k: u64|
                    #[trigger] self.store().items().contains_key(k) && self.store().items()[k] == *all@[j];
                assert(self.store().items().contains_key(k) && task_holds(self.store().items()[k], s));
            }
            if self.holds_text(s) {
                let k = choose|k: u64| #[trigger]
                    self.store().items().contains_key(k) && task_holds(self.store().items()[k], s);
                let j = choose|j: int| 0 <= j < n && *#[trigger] all@[j] == self.store().items()[k];
                assert(task_holds(*all@[j], s));
            }
        }
    }
}

} // verus!
