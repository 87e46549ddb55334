//! Properties that hold across the library's functions: names that read
//! back, merges that do not depend on how often or in which order they are
//! made, settings that the command line overrides, scrolling that stays in
//! the table and can be undone, columns that only grow, palettes that show
//! only what they support, durations without `µs` for ASCII terminals,
//! percentages of a whole, the order of a task's fields, a configuration
//! written to a file and read back, waits that grow after failed
//! connections, locations cut into lines, and bars that fill their columns
//! from the bottom.
use vstd::prelude::*;
use vstd::relations::sorted_by;
use crate::config::{
    opt_chars, read_as, toggles_color_durations, toggles_color_terminated, written_as, Config,
    ConfigFile, allowed_set, or_else, palette_named, warning_name, warning_named,
    AllowedWarnings, KnownWarnings, Palette,
};
use crate::fields::{field_rank, spawn_location_name, task_name_name, Field};
use crate::order::{le_of, TotalPreorder};
use crate::styles::{ascii_micros, first_micros, palette_color, Color};
use crate::text::{lemma_eq_ignore_case_refl, lemma_trimmed_no_space, trimmed};
use crate::util::percentage;
use crate::conn::{backoff_after, backoff_nanos, max_backoff_nanos};
use crate::tasks::{holders, idle_time, busy_time, scheduled_time, task_sort_key, task_state, total_time, still_retained, SortBy, Task, TaskState};
use crate::warnings::{linter_warning, lost_waker, never_yielded_check, Linter, LostWaker, SelfWakePercent, Warning};
use crate::resources::{resource_retained, resource_sort_key, Resource, SortBy as ResourceSortBy};
use crate::resource_table::resource_total;
use crate::table::{table_rows, ColumnWidths};
use crate::styles::Styles;
use crate::time::{Duration, SystemTime};
use crate::task_view::chunks_of;
use crate::histogram::{bar_eighths, cell_eighths};
use crate::view::{next_row, prev_row, widened, MAX_COLUMN_WIDTH};

verus! {

/// Every known warning reads back from its name: `from_str` of what
/// `to_str` (its display) writes is the warning itself.
pub proof fn law_warning_name_reads_back(w: KnownWarnings)
    ensures
        warning_named(warning_name(w)) == Some(w),
{
    reveal_strlit("self-wakes");
    reveal_strlit("lost-waker");
    reveal_strlit("never-yielded");
    reveal_strlit("auto-boxed-future");
    reveal_strlit("large-future");
    match w {
        KnownWarnings::SelfWakes => {},
        KnownWarnings::LostWaker => {
            assert("lost-waker"@[0] != "self-wakes"@[0]);
        },
        KnownWarnings::NeverYielded => {
            assert("never-yielded"@[0] != "self-wakes"@[0]);
            assert("never-yielded"@[0] != "lost-waker"@[0]);
        },
        KnownWarnings::AutoBoxedFuture => {
            assert("auto-boxed-future"@[0] != "self-wakes"@[0]);
            assert("auto-boxed-future"@[0] != "lost-waker"@[0]);
            assert("auto-boxed-future"@[0] != "never-yielded"@[0]);
        },
        KnownWarnings::LargeFuture => {
            assert("large-future"@[1] != "self-wakes"@[1]);
            assert("large-future"@[1] != "lost-waker"@[1]);
            assert("large-future"@[0] != "never-yielded"@[0]);
            assert("large-future"@[0] != "auto-boxed-future"@[0]);
        },
    }
}

/// Two different warnings have different names.
pub proof fn law_warning_names_distinct(a: KnownWarnings, b: KnownWarnings)
    requires
        a != b,
    ensures
        warning_name(a) != warning_name(b),
{
    law_warning_name_reads_back(a);
    law_warning_name_reads_back(b);
}

/// The names under which a palette is written in a configuration file
/// (`off`, `8`, `16`, `256`, `all`).
pub open spec fn palette_file_name(p: Palette) -> Seq<char> {
    match p {
        Palette::NoColors => "off"@,
        Palette::Ansi8 => "8"@,
        Palette::Ansi16 => "16"@,
        Palette::Ansi256 => "256"@,
        Palette::All => "all"@,
    }
}

/// Every palette reads back from the name it is written under.
pub proof fn law_palette_name_reads_back(p: Palette)
    ensures
        palette_named(palette_file_name(p)) == Some(p),
{
    reveal_strlit("off");
    reveal_strlit("0");
    reveal_strlit("8");
    reveal_strlit("16");
    reveal_strlit("256");
    reveal_strlit("all");
    let s = palette_file_name(p);
    lemma_trimmed_no_space(s);
    match p {
        Palette::NoColors => {
            assert(s != "0"@ && s != "8"@ && s != "16"@ && s != "256"@);
            assert(s[1] != "all"@[1]);
            lemma_eq_ignore_case_refl(s);
        },
        Palette::Ansi8 => {},
        Palette::Ansi16 => {
            assert(s[0] != "0"@[0]);
            assert(s[0] != "8"@[0]);
        },
        Palette::Ansi256 => {
            assert(s[0] != "0"@[0]);
            assert(s[0] != "8"@[0]);
            assert(s.len() != "16"@.len());
        },
        Palette::All => {
            assert(s[0] != "0"@[0]);
            assert(s[0] != "8"@[0]);
            assert(s.len() != "16"@.len());
            assert(s[0] != "256"@[0]);
            lemma_eq_ignore_case_refl(s);
        },
    }
}

/// What merging two settings of allowed warnings allows: everything if
/// either allows everything, else the warnings of both.
pub open spec fn merged_allowed(a: Option<Set<KnownWarnings>>, b: Option<Set<KnownWarnings>>) -> Option<Set<KnownWarnings>> {
    match (a, b) {
        (Some(x), Some(y)) => Some(x.union(y)),
        _ => None,
    }
}

/// Merging allowed warnings does not depend on the order, nor on how the
/// merges are grouped, and merging a setting with itself changes nothing.
pub proof fn law_allowed_merge(a: Option<Set<KnownWarnings>>, b: Option<Set<KnownWarnings>>, c: Option<Set<KnownWarnings>>)
    ensures
        merged_allowed(a, b) == merged_allowed(b, a),
        merged_allowed(merged_allowed(a, b), c) == merged_allowed(a, merged_allowed(b, c)),
        merged_allowed(a, a) == a,
{
    match (a, b, c) {
        (Some(x), Some(y), Some(z)) => {
            assert(x.union(y) =~= y.union(x));
            assert(x.union(y).union(z) =~= x.union(y.union(z)));
        },
        (Some(x), Some(y), None) => {
            assert(x.union(y) =~= y.union(x));
        },
        _ => {},
    }
    match a {
        Some(x) => {
            assert(x.union(x) =~= x);
        },
        None => {},
    }
}

/// A setting overridden twice by the same command line is what it is when
/// overridden once; and a setting that the command line gives wins.
pub proof fn law_override<A>(setting: Option<A>, command_line: Option<A>)
    ensures
        or_else(command_line, or_else(command_line, setting)) == or_else(command_line, setting),
        command_line is Some ==> or_else(command_line, setting) == command_line,
        command_line is None ==> or_else(command_line, setting) == setting,
{
}

/// Moving the selection down and then up, or up and then down, comes back
/// to the row it started from; both stay among the rows.
pub proof fn law_scroll_round_trip(i: nat, len: nat)
    requires
        i < len,
    ensures
        next_row(i, len) < len,
        prev_row(i, len) < len,
        prev_row(next_row(i, len), len) == i,
        next_row(prev_row(i, len), len) == i,
{
}

/// A column grows to fit the wider of two texts, whichever comes first; it
/// never shrinks below its width, and grows to at most 100 characters
/// (unless it was wider to begin with, in which case it narrows to 100).
pub proof fn law_width_grows(curr: nat, a: nat, b: nat)
    ensures
        widened(widened(curr, a), b) == widened(widened(curr, b), a),
        curr <= MAX_COLUMN_WIDTH ==> curr <= widened(curr, a) <= MAX_COLUMN_WIDTH,
        a <= MAX_COLUMN_WIDTH ==> a <= widened(curr, a),
        widened(widened(curr, a), a) == widened(curr, a),
{
}

/// A palette shows only colors it supports: none without colors, no RGB
/// color short of all colors, and no indexed color with 16 colors.
pub proof fn law_palette_shows_supported(p: Palette, c: Color)
    ensures
        p == Palette::NoColors ==> palette_color(p, c) is None,
        p != Palette::All ==> !(palette_color(p, c) matches Some(Color::Rgb(_, _, _))),
        p == Palette::Ansi16 ==> !(palette_color(p, c) matches Some(Color::Indexed(_))),
        p == Palette::All ==> palette_color(p, c) == Some(c),
        p == Palette::Ansi8 ==> !(palette_color(p, c) matches Some(Color::LightRed)) && !(palette_color(p, c) matches Some(Color::LightGreen)),
{
}

/// Once durations are written for a terminal without UTF-8, no `µs` is
/// left in them.
pub proof fn law_no_micros_left(s: Seq<char>)
    ensures
        first_micros(ascii_micros(s), 0) == ascii_micros(s).len(),
{
    let i = first_micros(s, 0);
    lemma_first_micros_bounds(s, 0);
    if i < s.len() {
        let t = s.take(i) + seq!['u', 's'];
        lemma_no_micros_before(s, 0, i);
        lemma_first_micros_in(t, s, 0, i);
    } else {
        lemma_no_micros_before(s, 0, s.len() as int);
    }
}

proof fn lemma_first_micros_bounds(s: Seq<char>, k: int)
    requires
        0 <= k,
    ensures
        first_micros(s, k) == s.len() || (k <= first_micros(s, k) && first_micros(s, k) + 1 < s.len()
            && s[first_micros(s, k)] == '\u{b5}' && s[first_micros(s, k) + 1] == 's'),
    decreases s.len() - k,
{
    if k + 1 < s.len() && !(s[k] == '\u{b5}' && s[k + 1] == 's') {
        lemma_first_micros_bounds(s, k + 1);
    }
}

/// Whether a `µs` starts at index `m` of `s`.
spec fn micros_at(s: Seq<char>, m: int) -> bool {
    0 <= m && m + 1 < s.len() && s[m] == '\u{b5}' && s[m + 1] == 's'
}

/// Before the first `µs` at or after `k`, there is none.
proof fn lemma_no_micros_before(s: Seq<char>, k: int, j: int)
    requires
        0 <= k <= j,
        j <= first_micros(s, k),
    ensures
        forall|m: int| k <= m < j ==> !#[trigger] micros_at(s, m),
    decreases j - k,
{
    if k < j {
        if k + 1 < s.len() && !(s[k] == '\u{b5}' && s[k + 1] == 's') {
            lemma_no_micros_before(s, k + 1, j);
        }
    }
}

/// In `t`, which is `s` up to its first `µs` followed by `us`, there is no
/// `µs` from `k` on.
proof fn lemma_first_micros_in(t: Seq<char>, s: Seq<char>, k: int, i: int)
    requires
        0 <= k,
        0 <= i,
        i + 1 < s.len(),
        t == s.take(i) + seq!['u', 's'],
        forall|m: int| 0 <= m < i ==> !#[trigger] micros_at(s, m),
    ensures
        first_micros(t, k) == t.len(),
    decreases t.len() - k,
{
    if k + 1 < t.len() {
        if k + 1 < i {
            assert(t[k] == s[k] && t[k + 1] == s[k + 1]);
            assert(!micros_at(s, k));
        } else if k + 1 == i {
            assert(t[k + 1] == 'u');
        } else {
            assert(t.len() == i + 2);
            assert(k == i);
            assert(t[i] == seq!['u', 's'][0]);
        }
        lemma_first_micros_in(t, s, k + 1, i);
    }
}

/// A percentage of a total, of an amount that does not exceed it, is at
/// most 100.
pub proof fn law_percentage_bounded(total: nat, amount: nat)
    requires
        amount <= total,
    ensures
        percentage(total, amount) <= 100,
{
    if total > 0 {
        assert(amount * 100 <= total * 100) by (nonlinear_arith)
            requires
                amount <= total,
        ;
        assert(amount * 100 / total <= 100) by (nonlinear_arith)
            requires
                amount * 100 <= total * 100,
                total > 0,
        ;
    }
}

/// In fields sorted for display, a task's name comes before every other
/// field, and its spawn location after every other field.
pub proof fn law_name_first_location_last(fields: Seq<Field>, i: int, j: int)
    requires
        sorted_by(fields, le_of::<Field>()),
        0 <= i < j < fields.len(),
    ensures
        fields[j].name@ == task_name_name() ==> fields[i].name@ == task_name_name(),
        fields[i].name@ == spawn_location_name() ==> fields[j].name@ == spawn_location_name(),
{
    reveal_strlit("task.name");
    reveal_strlit("spawn.location");
    assert(spawn_location_name()[0] != task_name_name()[0]);
    assert((le_of::<Field>())(fields[i], fields[j]));
}

/// A configuration written to a file and read back keeps its warnings,
/// allowed warnings, log directory, retention, charset and colors, and a
/// configuration without a log filter reads back without one. The color
/// toggles read back as the file shows them: whether each kind of color is
/// on.
pub proof fn law_config_file_round_trip(config: Config, file: ConfigFile, back: Config)
    requires
        written_as(config, file),
        read_as(file, back),
    ensures
        back.warnings == config.warnings,
        back.allow_warnings == config.allow_warnings,
        opt_chars(back.log_directory) == opt_chars(config.log_directory),
        back.retain_for == config.retain_for,
        back.view_options.no_colors == config.view_options.no_colors,
        opt_chars(back.view_options.lang) == opt_chars(config.view_options.lang),
        back.view_options.ascii_only == config.view_options.ascii_only,
        back.view_options.truecolor == config.view_options.truecolor,
        back.view_options.palette == config.view_options.palette,
        config.log_filter is None ==> back.log_filter is None,
        config.target_addr is None ==> back.target_addr is None,
        back.view_options.toggles.color_durations == Some(
            toggles_color_durations(config.view_options.toggles),
        ),
        back.view_options.toggles.color_terminated == Some(
            toggles_color_terminated(config.view_options.toggles),
        ),
        back.subcmd is None,
{
}

/// After a failed attempt to connect, the console waits longer than it
/// did before the attempt, half a second longer at least, and never less
/// than five seconds.
pub proof fn law_backoff_grows(waited: nat)
    ensures
        backoff_after(waited) >= waited + backoff_nanos(),
        backoff_after(waited) >= max_backoff_nanos(),
        backoff_after(waited) > waited,
{
}

/// The pieces of `s`, joined in order.
pub open spec fn joined(pieces: Seq<Seq<char>>) -> Seq<char>
    decreases pieces.len(),
{
    if pieces.len() == 0 {
        Seq::empty()
    } else {
        pieces[0] + joined(pieces.drop_first())
    }
}

/// A location cut into lines of `width` characters reads the same when the
/// lines are joined again, and each line holds between one and `width`
/// characters.
pub proof fn law_location_lines_join(s: Seq<char>, width: nat)
    requires
        width > 0,
    ensures
        joined(chunks_of(s, width)) == s,
        forall|i: int|
            0 <= i < chunks_of(s, width).len() ==> 0 < #[trigger] chunks_of(s, width)[i].len() <= width,
    decreases s.len(),
{
    if s.len() == 0 {
        assert(joined(chunks_of(s, width)) =~= s);
    } else if s.len() <= width {
        let c = chunks_of(s, width);
        assert(c == seq![s]);
        assert(c.drop_first() =~= Seq::<Seq<char>>::empty());
        assert(joined(c.drop_first()) =~= Seq::<char>::empty());
        assert(joined(c) =~= s);
    } else {
        let rest = s.skip(width as int);
        law_location_lines_join(rest, width);
        let c = chunks_of(s, width);
        assert(c == seq![s.take(width as int)] + chunks_of(rest, width));
        assert(c.drop_first() =~= chunks_of(rest, width));
        assert(joined(c) == s.take(width as int) + joined(chunks_of(rest, width)));
        assert(s.take(width as int) + rest =~= s);
        assert forall|i: int| 0 <= i < c.len() implies 0 < #[trigger] c[i].len() <= width by {
            if i > 0 {
                assert(c[i] == chunks_of(rest, width)[i - 1]);
            }
        }
    }
}

/// A bar fills its column from the bottom: a cell above one that is not
/// full is empty; and a bucket that is not empty shows at least one eighth
/// at the bottom of its column.
pub proof fn law_bars_fill_from_the_bottom(eighths: nat, low: nat, high: nat, count: u64, height: u16, max: u64)
    requires
        low < high,
    ensures
        cell_eighths(eighths, high) > 0 ==> cell_eighths(eighths, low) == 8,
        count > 0 && max > 0 ==> cell_eighths(bar_eighths(count, height, max), 0) >= 1,
{
    assert(8 * low + 8 <= 8 * high) by (nonlinear_arith)
        requires
            low < high,
    ;
}

/// A linter's warning count (the stored tasks that hold its warning) rises
/// by one when a task that holds the warning is stored, and stays when one
/// that does not hold it is.
pub proof fn law_warning_count_rises_with_a_warned_task(items: Map<u64, Task>, linter: usize, k: u64, t: Task)
    requires
        items.dom().finite(),
        !items.contains_key(k),
    ensures
        t.warnings@.contains(linter) ==> holders(items.insert(k, t), linter).len() == holders(items, linter).len() + 1,
        !t.warnings@.contains(linter) ==> holders(items.insert(k, t), linter).len() == holders(items, linter).len(),
{
    let before = holders(items, linter);
    let after = holders(items.insert(k, t), linter);
    assert(before.finite()) by {
        assert(before.subset_of(items.dom()));
        vstd::set_lib::lemma_set_subset_finite(items.dom(), before);
    }
    assert(!before.contains(k));
    if t.warnings@.contains(linter) {
        assert(after =~= before.insert(k));
    } else {
        assert(after =~= before);
    }
}

/// A linter's warning count falls by one when a stored task that holds the
/// warning goes, and stays when one that does not hold it goes.
pub proof fn law_warning_count_falls_with_a_warned_task(items: Map<u64, Task>, linter: usize, k: u64)
    requires
        items.dom().finite(),
        items.contains_key(k),
    ensures
        items[k].warnings@.contains(linter) ==> holders(items.remove(k), linter).len() == holders(items, linter).len() - 1,
        !items[k].warnings@.contains(linter) ==> holders(items.remove(k), linter).len() == holders(items, linter).len(),
{
    let before = holders(items, linter);
    let after = holders(items.remove(k), linter);
    assert(before.finite()) by {
        assert(before.subset_of(items.dom()));
        vstd::set_lib::lemma_set_subset_finite(items.dom(), before);
    }
    if items[k].warnings@.contains(linter) {
        assert(after =~= before.remove(k));
    } else {
        assert(after =~= before);
    }
}

/// A task that is being polled (its last poll started, and did not end
/// after it started) has not lost its waker, whatever its wakers.
pub proof fn law_polled_task_has_not_lost_its_waker(t: Task, started: SystemTime, now: SystemTime, l: LostWaker)
    requires
        t.stats.last_poll_started == Some(started),
        t.stats.last_poll_ended matches Some(e) ==> started.spec_nanos() > e.spec_nanos(),
    ensures
        !lost_waker(t),
        linter_warning(Linter::LostWaker(l), t, now) == Warning::Check(false),
{
}

/// A task that is not completed, was polled, is not being polled, was not
/// woken since its last poll started and has dropped every waker it cloned
/// has lost its waker.
pub proof fn law_task_without_wakers_has_lost_its_waker(t: Task, started: SystemTime, ended: SystemTime, now: SystemTime, l: LostWaker)
    requires
        t.stats.total is None,
        t.stats.polls > 0,
        t.stats.waker_clones <= t.stats.waker_drops,
        t.stats.last_poll_started == Some(started),
        t.stats.last_poll_ended == Some(ended),
        started.spec_nanos() <= ended.spec_nanos(),
        t.stats.last_wake matches Some(w) ==> w.spec_nanos() <= started.spec_nanos(),
    ensures
        lost_waker(t),
        linter_warning(Linter::LostWaker(l), t, now) == Warning::Check(true),
{
}

/// A task in its first poll (polled at most once, its poll started and not
/// ended, not completed) that has been busy for at least `min` by `now`
/// (its recorded busy time and the time since the poll started) has never
/// yielded; one busy for less is checked again later.
pub proof fn law_first_poll_busy_for_long_never_yielded(t: Task, now: SystemTime, min: Duration, started: SystemTime)
    requires
        t.stats.total is None,
        t.stats.polls <= 1,
        t.stats.last_poll_started == Some(started),
        t.stats.last_poll_ended matches Some(e) ==> started.spec_nanos() > e.spec_nanos(),
    ensures
        t.stats.busy.spec_nanos() + (if started.spec_nanos() <= now.spec_nanos() {
            now.spec_nanos() - started.spec_nanos()
        } else {
            0
        }) >= min.spec_nanos() ==> never_yielded_check(t, now, min) == Warning::Check(true),
        t.stats.busy.spec_nanos() + (if started.spec_nanos() <= now.spec_nanos() {
            now.spec_nanos() - started.spec_nanos()
        } else {
            0
        }) < min.spec_nanos() ==> never_yielded_check(t, now, min) == Warning::Recheck,
{
}

/// A task polled more than once has yielded, and so has a task that is not
/// being polled or is completed: the never-yielded check clears them.
pub proof fn law_yielded_tasks_are_cleared(t: Task, now: SystemTime, min: Duration)
    requires
        t.stats.polls > 1 || t.stats.total is Some || t.stats.last_poll_started is None || (
        t.stats.last_poll_started matches Some(s) && t.stats.last_poll_ended matches Some(e)
            && s.spec_nanos() <= e.spec_nanos()),
    ensures
        never_yielded_check(t, now, min) == Warning::Check(false),
{
}

/// Each column of the task list sorts the stored tasks by what the column
/// shows: the idle column by the idle time (`Task::idle`), the busy column by
/// the busy time, the scheduled column by the scheduled time, the total
/// column by the total time, the polls column by the number of polls.
pub proof fn law_task_columns_sort_by_what_they_show(items: Map<u64, Task>, id: u64, now: SystemTime)
    requires
        items.contains_key(id),
    ensures
        task_sort_key(SortBy::Idle, items, id, now).1 == idle_time(items[id], now),
        task_sort_key(SortBy::Busy, items, id, now).1 == busy_time(items[id], now),
        task_sort_key(SortBy::Scheduled, items, id, now).1 == scheduled_time(items[id], now),
        task_sort_key(SortBy::Total, items, id, now).1 == total_time(items[id], now),
        task_sort_key(SortBy::Polls, items, id, now).1 == items[id].stats.polls as nat,
        task_sort_key(SortBy::Idle, items, id, now).0 == task_sort_key(SortBy::Busy, items, id, now).0,
{
}

/// The idle time of a completed task without a recorded idle time is what its
/// total time leaves after its busy and scheduled times.
pub proof fn law_idle_is_what_total_leaves(t: Task, now: SystemTime)
    requires
        t.stats.idle is None,
        busy_time(t, now) + scheduled_time(t, now) <= total_time(t, now),
    ensures
        idle_time(t, now) + busy_time(t, now) + scheduled_time(t, now) == total_time(t, now),
{
}

/// A dropped resource stays exactly while less than the retention time has
/// passed since it was dropped (measured from the drop, not the creation, and
/// none when the drop is not before `now`); one not dropped always stays.
pub proof fn law_resource_kept_while_recently_dropped(r: Resource, now: SystemTime, retain_for: Duration)
    ensures
        r.stats.dropped_at matches Some(d) ==> (resource_retained(r, now, retain_for) <==> retain_for.spec_nanos() > (
        if d.spec_nanos() <= now.spec_nanos() { now.spec_nanos() - d.spec_nanos() } else { 0 })),
        r.stats.dropped_at is None ==> resource_retained(r, now, retain_for),
{
}

/// A completed task stays exactly while less than the retention time has
/// passed since it was dropped; one not dropped always stays.
pub proof fn law_task_kept_while_recently_dropped(t: Task, now: SystemTime, retain_for: Duration)
    ensures
        t.stats.dropped_at matches Some(d) ==> (still_retained(t, now, retain_for) <==> retain_for.spec_nanos() > (
        if d.spec_nanos() <= now.spec_nanos() { now.spec_nanos() - d.spec_nanos() } else { 0 })),
        t.stats.dropped_at is None ==> still_retained(t, now, retain_for),
{
}

/// The stored tasks among the first `n` of `ids` that are in `state`.
pub open spec fn listed_in_state(ids: Seq<u64>, n: int, items: Map<u64, Task>, state: TaskState) -> Seq<u64> {
    ids.take(n).filter(|k: u64| items.contains_key(k) && task_state(items[k]) == state)
}

/// The task list counts as running exactly the listed tasks that are
/// running, and as idle exactly those that are idle (not the scheduled or
/// completed ones).
pub proof fn law_task_list_counts_running_and_idle(
    ids: Seq<u64>,
    n: int,
    items: Map<u64, Task>,
    w0: ColumnWidths,
    styles: Styles,
    now: SystemTime,
    prec: usize,
    dur_len: usize,
)
    requires
        0 <= n <= ids.len(),
    ensures
        table_rows(ids, n, items, w0, styles, now, prec, dur_len).2 == listed_in_state(ids, n, items, TaskState::Running).len(),
        table_rows(ids, n, items, w0, styles, now, prec, dur_len).3 == listed_in_state(ids, n, items, TaskState::Idle).len(),
    decreases n,
{
    if n > 0 {
        law_task_list_counts_running_and_idle(ids, n - 1, items, w0, styles, now, prec, dur_len);
        assert(ids.take(n) == ids.take(n - 1).push(ids[n - 1]));
        let pr = |k: u64| items.contains_key(k) && task_state(items[k]) == TaskState::Running;
        let pi = |k: u64| items.contains_key(k) && task_state(items[k]) == TaskState::Idle;
        ids.take(n - 1).lemma_filter_len_push(pr, ids[n - 1]);
        ids.take(n - 1).lemma_filter_len_push(pi, ids[n - 1]);
    } else {
        assert(ids.take(n) =~= Seq::<u64>::empty());
    }
}

/// The other columns of the task list: tasks that are gone sort first; the
/// state column orders completed, idle, running and scheduled tasks in that
/// order; the warnings column by the number of warnings; the text columns by
/// their text; a missing task ID or name sorts before any.
pub proof fn law_task_list_other_columns(items: Map<u64, Task>, id: u64, now: SystemTime)
    ensures
        !items.contains_key(id) ==> forall|s: SortBy| #[trigger] task_sort_key(s, items, id, now) == (0u8, 0nat, Seq::<char>::empty()),
        items.contains_key(id) ==> {
            let t = items[id];
            &&& forall|s: SortBy| #[trigger] task_sort_key(s, items, id, now).0 > 0
            &&& task_sort_key(SortBy::Warns, items, id, now).1 == t.warnings@.len()
            &&& task_sort_key(SortBy::Target, items, id, now).2 == t.target@
            &&& task_sort_key(SortBy::Location, items, id, now).2 == t.location@
            &&& (task_state(t) == TaskState::Completed ==> task_sort_key(SortBy::State, items, id, now).1 == 0)
            &&& (task_state(t) == TaskState::Idle ==> task_sort_key(SortBy::State, items, id, now).1 == 1)
            &&& (task_state(t) == TaskState::Running ==> task_sort_key(SortBy::State, items, id, now).1 == 2)
            &&& (task_state(t) == TaskState::Scheduled ==> task_sort_key(SortBy::State, items, id, now).1 == 3)
            &&& match t.task_id {
                Some(v) => task_sort_key(SortBy::Tid, items, id, now) == (2u8, v as nat, Seq::<char>::empty()),
                None => task_sort_key(SortBy::Tid, items, id, now) == (1u8, 0nat, Seq::<char>::empty()),
            }
            &&& match t.name {
                Some(n) => task_sort_key(SortBy::Name, items, id, now) == (2u8, 0nat, n@),
                None => task_sort_key(SortBy::Name, items, id, now) == (1u8, 0nat, Seq::<char>::empty()),
            }
        },
{
}

/// Each column of the resource list sorts by what it shows: the ID, the kind,
/// the concrete type, the target, or the total time (`Resource::total`);
/// resources that are gone sort first.
pub proof fn law_resource_columns_sort_by_what_they_show(items: Map<u64, Resource>, id: u64, now: SystemTime)
    ensures
        !items.contains_key(id) ==> forall|s: ResourceSortBy| #[trigger] resource_sort_key(s, items, id, now) == (0u8, 0nat, Seq::<char>::empty()),
        items.contains_key(id) ==> {
            let r = items[id];
            &&& resource_sort_key(ResourceSortBy::Rid, items, id, now) == (1u8, r.id as nat, Seq::<char>::empty())
            &&& resource_sort_key(ResourceSortBy::Kind, items, id, now) == (1u8, 0nat, r.kind@)
            &&& resource_sort_key(ResourceSortBy::ConcreteType, items, id, now) == (1u8, 0nat, r.concrete_type@)
            &&& resource_sort_key(ResourceSortBy::Target, items, id, now) == (1u8, 0nat, r.target@)
            &&& resource_sort_key(ResourceSortBy::Total, items, id, now) == (1u8, resource_total(r, now), Seq::<char>::empty())
        },
{
}

/// A task's state: completed once it has a total time; else running while
/// its last poll started after its last poll ended (or never ended); else
/// scheduled when it was woken after its last poll started; else idle.
pub proof fn law_task_state_from_its_times(t: Task)
    ensures
        t.stats.total is Some ==> task_state(t) == TaskState::Completed,
        t.stats.total is None && t.stats.last_poll_started is None ==> task_state(t) != TaskState::Running,
        t.stats.total is None ==> (t.stats.last_poll_started matches Some(s) && (t.stats.last_poll_ended matches Some(e)
            ==> s.spec_nanos() > e.spec_nanos())) ==> task_state(t) == TaskState::Running,
        t.stats.total is None && !(t.stats.last_poll_started matches Some(s) && (t.stats.last_poll_ended matches Some(e)
            ==> s.spec_nanos() > e.spec_nanos())) ==> (task_state(t) == TaskState::Scheduled <==> (
        t.stats.last_wake matches Some(w) && (t.stats.last_poll_started matches Some(s) ==> w.spec_nanos()
            > s.spec_nanos()))),
        t.stats.total is None ==> (task_state(t) == TaskState::Idle <==> task_state(t) != TaskState::Running
            && task_state(t) != TaskState::Scheduled),
{
}

/// A task's busy time at `now` is its recorded busy time, plus the time
/// since its last poll started while that poll goes on.
pub proof fn law_busy_time_counts_the_current_poll(t: Task, now: SystemTime, started: SystemTime)
    requires
        t.stats.last_poll_started == Some(started),
    ensures
        (t.stats.last_poll_ended matches Some(e) ==> started.spec_nanos() > e.spec_nanos()) ==> busy_time(t, now)
            == t.stats.busy.spec_nanos() + (if started.spec_nanos() <= now.spec_nanos() {
            now.spec_nanos() - started.spec_nanos()
        } else {
            0
        }),
        (t.stats.last_poll_ended matches Some(e) && started.spec_nanos() <= e.spec_nanos()) ==> busy_time(t, now)
            == t.stats.busy.spec_nanos(),
{
}

/// The self-wake linter warns about a task that woke itself for more than
/// its percentage of its wakeups (the percentage rounded down), and never
/// about a task that was not woken.
pub proof fn law_self_wakes_warn_above_the_percentage(t: Task, now: SystemTime, w: SelfWakePercent)
    requires
        t.stats.self_wakes <= t.stats.wakes,
    ensures
        t.stats.wakes > 0 ==> linter_warning(Linter::SelfWakes(w), t, now) == Warning::Check(
            (t.stats.self_wakes as nat) * 100 / (t.stats.wakes as nat) > w.min_percent,
        ),
        t.stats.wakes == 0 ==> linter_warning(Linter::SelfWakes(w), t, now) == Warning::Check(false),
{
    if t.stats.wakes > 0 {
        assert((t.stats.self_wakes as nat) * 100 / (t.stats.wakes as nat) <= 100) by (nonlinear_arith)
            requires
                t.stats.self_wakes <= t.stats.wakes,
                t.stats.wakes > 0,
        ;
    }
}

} // verus!
