//! The view of one task: how the screen is divided, the task's overview,
//! its wakers and its warnings, and the controls of the view.
use vstd::prelude::*;
use crate::location::push_range;
use crate::text::{chars_of, decimal, push_decimal, string_from};
use crate::styles::{plain_style, span_views, Span, Style, Styles};
use crate::table::{duration_cell, state_span};
use crate::tasks::{busy_time, idle_time, scheduled_time, task_state, times_fit, total_time, waker_count, Task};
use crate::time::SystemTime;
use crate::util::percentage;
use crate::view::{bold, bold_style, line_views, ControlDisplay, KeyDisplay};
use crate::warnings::{linter_can_format, linter_text, push_str, Linter};

verus! {

/// A constraint on the length of an area of the screen.
#[derive(PartialEq, Eq, Structural, Clone, Copy, Debug)]
pub enum Constraint {
    /// Exactly this many cells.
    Length(u16),
    /// This percentage of the space.
    Percentage(u16),
    /// At least this many cells.
    Min(u16),
}

/// `s` cut into pieces of `n` characters (the last one may be shorter).
pub open spec fn chunks_of(s: Seq<char>, n: nat) -> Seq<Seq<char>>
    decreases s.len(),
{
    if s.len() == 0 || n == 0 {
        Seq::empty()
    } else if s.len() <= n {
        seq![s]
    } else {
        seq![s.take(n as int)] + chunks_of(s.skip(n as int), n)
    }
}

/// The texts of strings.
pub open spec fn texts(v: Seq<String>) -> Seq<Seq<char>> {
    v.map_values(|s: String| s@)
}

/// The lines that a location of `s` takes when each line holds `width`
/// characters.
pub fn location_lines(s: &str, width: usize) -> (r: Vec<String>)
    requires
        width > 0,
    ensures
        texts(r@) == chunks_of(s@, width as nat),
{
    let v = chars_of(s);
    let len = v.len();
    let mut r: Vec<String> = Vec::new();
    let mut pos: usize = 0;
    proof {
        assert(v@.skip(0) =~= v@);
        assert(texts(r@) =~= Seq::<Seq<char>>::empty());
    }
    while pos < len
        invariant
            len == v@.len(),
            v@ == s@,
            width > 0,
            pos <= len,
            texts(r@) + chunks_of(v@.skip(pos as int), width as nat) == chunks_of(s@, width as nat),
        decreases len - pos,
    {
        let ghost rest = v@.skip(pos as int);
        let end = if len - pos <= width {
            len
        } else {
            pos + width
        };
        let mut chunk: Vec<char> = Vec::new();
        push_range(&mut chunk, v.as_slice(), pos, end);
        let ghost before = r@;
        r.push(string_from(chunk.as_slice()));
        proof {
            assert(texts(r@) =~= texts(before).push(chunk@));
            if len - pos <= width {
                assert(chunk@ =~= rest);
                assert(v@.skip(end as int) =~= Seq::<char>::empty());
                assert(chunks_of(rest, width as nat) == seq![rest]);
                assert(texts(r@) + chunks_of(v@.skip(end as int), width as nat) =~= texts(before)
                    + chunks_of(rest, width as nat));
            } else {
                assert(chunk@ =~= rest.take(width as int));
                assert(rest.skip(width as int) =~= v@.skip(end as int));
                assert(texts(r@) + chunks_of(v@.skip(end as int), width as nat) =~= texts(before)
                    + chunks_of(rest, width as nat));
            }
        }
        pos = end;
    }
    proof {
        assert(v@.skip(len as int) =~= Seq::<char>::empty());
        assert(texts(r@) + Seq::<Seq<char>>::empty() =~= texts(r@));
    }
    r
}

/// How the task view divides the screen.
pub struct TaskLayout {
    /// The rows from the top: the controls, the warnings (if any task
    /// warning is shown), the task's statistics, its poll times, its
    /// scheduled times and its fields.
    pub rows: Vec<Constraint>,
    /// Whether a row of warnings is shown.
    pub warnings_shown: bool,
    /// The columns of the statistics row: the task and its wakers.
    pub stats_columns: Vec<Constraint>,
}

/// The rows of the task view: the controls, `warnings` lines of warnings
/// in a border (if any), the statistics (ten lines, and one more for each
/// further line that a location longer than `location_max_width` takes),
/// nine lines each for the poll and the scheduled times, and the fields.
pub open spec fn layout_rows(
    controls_height: u16,
    warnings: nat,
    location_len: nat,
    location_max_width: nat,
    location_lines: nat,
) -> Seq<Constraint> {
    let stats = if location_len > location_max_width {
        10 + location_lines - 1
    } else {
        10
    };
    let tail = seq![
        Constraint::Length(stats as u16),
        Constraint::Length(9),
        Constraint::Length(9),
        Constraint::Percentage(60),
    ];
    if warnings == 0 {
        seq![Constraint::Length(controls_height)] + tail
    } else {
        seq![Constraint::Length(controls_height), Constraint::Length((warnings + 2) as u16)] + tail
    }
}

/// The columns of the statistics: halves, unless the location takes more
/// than one line, when the task's column is as wide as the location and
/// its frame.
pub open spec fn layout_stats_columns(location_len: nat, location_lines: nat) -> Seq<Constraint> {
    if location_lines != 1 {
        seq![Constraint::Min((location_len + 15) as u16), Constraint::Min(32)]
    } else {
        seq![Constraint::Percentage(50), Constraint::Percentage(50)]
    }
}

/// How the task view divides the screen, for controls `controls_height`
/// lines high, `warnings` warnings, and a location of `location_len` bytes
/// that takes `location_lines` lines, where a line of the task's column
/// holds `location_max_width` bytes.
pub fn task_layout(
    controls_height: u16,
    warnings: usize,
    location_len: usize,
    location_max_width: usize,
    location_lines: usize,
) -> (r: TaskLayout)
    requires
        location_lines >= 1,
        warnings + 2 <= u16::MAX,
        location_lines + 9 <= u16::MAX,
        location_len + 15 <= u16::MAX,
    ensures
        r.rows@ == layout_rows(
            controls_height,
            warnings as nat,
            location_len as nat,
            location_max_width as nat,
            location_lines as nat,
        ),
        r.warnings_shown == (warnings > 0),
        r.stats_columns@ == layout_stats_columns(location_len as nat, location_lines as nat),
{
    let stats: u16 = if location_len > location_max_width {
        10 + (location_lines - 1) as u16
    } else {
        10
    };
    let mut rows: Vec<Constraint> = Vec::new();
    rows.push(Constraint::Length(controls_height));
    if warnings > 0 {
        rows.push(Constraint::Length(warnings as u16 + 2));
    }
    rows.push(Constraint::Length(stats));
    rows.push(Constraint::Length(9));
    rows.push(Constraint::Length(9));
    rows.push(Constraint::Percentage(60));
    let stats_columns = if location_lines != 1 {
        vec![Constraint::Min(location_len as u16 + 15), Constraint::Min(32)]
    } else {
        vec![Constraint::Percentage(50), Constraint::Percentage(50)]
    };
    assert(rows@ =~= layout_rows(
        controls_height,
        warnings as nat,
        location_len as nat,
        location_max_width as nat,
        location_lines as nat,
    ));
    assert(stats_columns@ =~= layout_stats_columns(location_len as nat, location_lines as nat));
    TaskLayout { rows, warnings_shown: warnings > 0, stats_columns }
}

/// A span of `s` in bold.
pub open spec fn bold_span(s: Seq<char>) -> (Seq<char>, Style) {
    (s, bold_style())
}

/// A span of `s` in the plain style.
pub open spec fn raw_span(s: Seq<char>) -> (Seq<char>, Style) {
    (s, plain_style())
}

/// A further line of a location, indented by four spaces.
pub open spec fn location_rest_line(c: Seq<char>) -> Seq<(Seq<char>, Style)> {
    seq![raw_span("    "@ + c)]
}

/// The overview of task `t` at `now`: its ID and state, its name (if it
/// has one), its target, its location in lines of `width` characters, and
/// its total, busy, scheduled and idle times. The share of the total that
/// each of the last three is follows them on their lines, written by the
/// caller from floating-point numbers.
pub open spec fn overview_lines(t: Task, styles: Styles, now: SystemTime, prec: usize, width: nat) -> Seq<
    Seq<(Seq<char>, Style)>,
> {
    let chunks = chunks_of(t.location@, width);
    seq![
        seq![
            bold_span("ID: "@),
            raw_span(t.id_str@ + " "@),
            state_span(task_state(t), styles.utf8, styles.palette),
        ],
    ] + match t.name {
        Some(n) => seq![seq![bold_span("Name: "@), raw_span(n@)]],
        None => Seq::empty(),
    } + seq![
        seq![bold_span("Target: "@), raw_span(t.target@)],
        seq![bold_span("Location: "@), raw_span(chunks[0])],
    ] + chunks.skip(1).map_values(|c: Seq<char>| location_rest_line(c)) + seq![
        seq![bold_span("Total Time: "@), duration_cell(styles, total_time(t, now), prec, 0)],
        seq![bold_span("Busy: "@), duration_cell(styles, busy_time(t, now), prec, 0)],
        seq![bold_span("Scheduled: "@), duration_cell(styles, scheduled_time(t, now), prec, 0)],
        seq![bold_span("Idle: "@), duration_cell(styles, idle_time(t, now), prec, 0)],
    ]
}

/// Appends `line` to `lines`.
fn push_line(lines: &mut Vec<Vec<Span>>, line: Vec<Span>)
    ensures
        line_views(final(lines)@) == line_views(old(lines)@).push(span_views(line@)),
{
    let ghost l = line@;
    lines.push(line);
    assert(line_views(lines@) =~= line_views(old(lines)@).push(span_views(l)));
}

/// A line of two spans.
fn two(a: Span, b: Span) -> (r: Vec<Span>)
    ensures
        span_views(r@) == seq![(a.content@, a.style), (b.content@, b.style)],
{
    let r = vec![a, b];
    assert(span_views(r@) =~= seq![(a.content@, a.style), (b.content@, b.style)]);
    r
}

/// `a` followed by `b`, as a string.
fn concat(a: &str, b: &str) -> (r: String)
    ensures
        r@ == a@ + b@,
{
    let mut v: Vec<char> = Vec::new();
    push_str(&mut v, a);
    push_str(&mut v, b);
    string_from(v.as_slice())
}

/// The overview of `task` at `now`, its location cut into lines of `width`
/// characters.
pub fn task_overview(task: &Task, styles: &Styles, now: SystemTime, prec: usize, width: usize) -> (r: Vec<Vec<Span>>)
    requires
        prec <= u16::MAX,
        width > 0,
        task.location@.len() > 0,
        times_fit(*task, now),
    ensures
        line_views(r@) == overview_lines(*task, *styles, now, prec, width as nat),
{
    let ghost chunks_spec = chunks_of(task.location@, width as nat);
    let mut lines: Vec<Vec<Span>> = Vec::new();
    let mut first: Vec<Span> = Vec::new();
    first.push(bold("ID: "));
    first.push(Span::raw(concat(task.id_str.as_str(), " ")));
    first.push(task.state().render(styles));
    proof {
        assert(span_views(first@) =~= seq![
            bold_span("ID: "@),
            raw_span(task.id_str@ + " "@),
            state_span(task_state(*task), styles.utf8, styles.palette),
        ]);
    }
    push_line(&mut lines, first);
    let ghost head = line_views(lines@);
    if let Some(name) = &task.name {
        push_line(&mut lines, two(bold("Name: "), Span::raw(name.to_string())));
    }
    proof {
        assert(line_views(lines@) =~= head + match task.name {
            Some(n) => seq![seq![bold_span("Name: "@), raw_span(n@)]],
            None => Seq::<Seq<(Seq<char>, Style)>>::empty(),
        });
    }
    push_line(&mut lines, two(bold("Target: "), Span::raw(task.target.to_string())));
    let chunks = location_lines(task.location.as_str(), width);
    proof {
        assert(chunks_spec.len() > 0) by {
            assert(task.location@.len() > 0);
        }
        assert(texts(chunks@)[0] == chunks@[0]@);
    }
    push_line(&mut lines, two(bold("Location: "), Span::raw(chunks[0].clone())));
    let ghost before_rest = line_views(lines@);
    let n = chunks.len();
    for i in 1..n
        invariant
            n == chunks@.len(),
            n >= 1,
            texts(chunks@) == chunks_spec,
            line_views(lines@) == before_rest + chunks_spec.subrange(1, i as int).map_values(
                |c: Seq<char>| location_rest_line(c),
            ),
    {
        let line = vec![Span::raw(concat("    ", chunks[i].as_str()))];
        proof {
            assert(texts(chunks@)[i as int] == chunks@[i as int]@);
            assert(span_views(line@) =~= location_rest_line(chunks_spec[i as int]));
        }
        let ghost prev = line_views(lines@);
        push_line(&mut lines, line);
        proof {
            assert(chunks_spec.subrange(1, i + 1).map_values(|c: Seq<char>| location_rest_line(c))
                =~= chunks_spec.subrange(1, i as int).map_values(|c: Seq<char>| location_rest_line(c)).push(
                location_rest_line(chunks_spec[i as int])));
            assert(line_views(lines@) =~= before_rest + chunks_spec.subrange(1, i + 1).map_values(
                |c: Seq<char>| location_rest_line(c),
            ));
        }
    }
    push_line(&mut lines, two(bold("Total Time: "), styles.time_units(task.total(now), prec, None)));
    push_line(&mut lines, two(bold("Busy: "), styles.time_units(task.busy(now), prec, None)));
    push_line(&mut lines, two(bold("Scheduled: "), styles.time_units(task.scheduled(now), prec, None)));
    push_line(&mut lines, two(bold("Idle: "), styles.time_units(task.idle(now), prec, None)));
    proof {
        assert(chunks_spec.subrange(1, n as int) =~= chunks_spec.skip(1));
        assert(line_views(lines@) =~= overview_lines(*task, *styles, now, prec, width as nat));
    }
    lines
}

/// The time since task `t` was last woken, up to `now`, if it was woken
/// before then.
pub open spec fn since_wake(t: Task, now: SystemTime) -> Option<nat> {
    match t.stats.last_wake {
        Some(w) => if w.spec_nanos() <= now.spec_nanos() {
            Some((now.spec_nanos() - w.spec_nanos()) as nat)
        } else {
            None
        },
        None => None,
    }
}

/// The waker statistics of task `t` at `now`: its current wakers, how
/// often its waker was cloned and dropped, how often it was woken, when it
/// was last woken (an empty line if never), and, if it woke itself, how
/// often and what share of its wakes that is.
pub open spec fn waker_lines(t: Task, styles: Styles, now: SystemTime, prec: usize) -> Seq<
    Seq<(Seq<char>, Style)>,
> {
    seq![
        seq![bold_span("Current wakers: "@), raw_span(decimal(waker_count(t)) + " "@)],
        seq![bold_span("  Clones: "@), raw_span(decimal(t.stats.waker_clones as nat) + ", "@)],
        seq![bold_span("  Drops: "@), raw_span(decimal(t.stats.waker_drops as nat))],
        seq![bold_span("Woken: "@), raw_span(decimal(t.stats.wakes as nat) + " times"@)],
        match since_wake(t, now) {
            Some(d) => seq![
                bold_span("Last woken: "@),
                duration_cell(styles, d, prec, 0),
                raw_span(" ago"@),
            ],
            None => Seq::empty(),
        },
    ] + if t.stats.self_wakes > 0 {
        seq![
            seq![
                bold_span("Self Wakes: "@),
                raw_span(
                    decimal(t.stats.self_wakes as nat) + " times ("@ + decimal(
                        percentage(t.stats.wakes as nat, t.stats.self_wakes as nat),
                    ) + "%)"@,
                ),
            ],
        ]
    } else {
        Seq::empty()
    }
}

/// `n` written out, followed by `suffix`.
fn number_with(n: u64, suffix: &str) -> (r: String)
    ensures
        r@ == decimal(n as nat) + suffix@,
{
    let mut v: Vec<char> = Vec::new();
    push_decimal(n as u128, &mut v);
    push_str(&mut v, suffix);
    string_from(v.as_slice())
}

/// The waker statistics of `task` at `now`.
pub fn task_waker_lines(task: &Task, styles: &Styles, now: SystemTime, prec: usize) -> (r: Vec<Vec<Span>>)
    requires
        prec <= u16::MAX,
    ensures
        line_views(r@) == waker_lines(*task, *styles, now, prec),
{
    let mut lines: Vec<Vec<Span>> = Vec::new();
    push_line(&mut lines, two(bold("Current wakers: "), Span::raw(number_with(task.waker_count(), " "))));
    push_line(&mut lines, two(bold("  Clones: "), Span::raw(number_with(task.waker_clones(), ", "))));
    push_line(&mut lines, two(bold("  Drops: "), Span::raw(number_with(task.waker_drops(), ""))));
    push_line(&mut lines, two(bold("Woken: "), Span::raw(number_with(task.wakes(), " times"))));
    let mut last_woken: Vec<Span> = Vec::new();
    if let Some(since) = task.since_wake(now) {
        last_woken.push(bold("Last woken: "));
        last_woken.push(styles.time_units(since, prec, None));
        last_woken.push(Span::raw(" ago".to_string()));
    }
    proof {
        reveal_strlit("");
        assert(span_views(last_woken@) =~= match since_wake(*task, now) {
            Some(d) => seq![
                bold_span("Last woken: "@),
                duration_cell(*styles, d, prec, 0),
                raw_span(" ago"@),
            ],
            None => Seq::<(Seq<char>, Style)>::empty(),
        });
    }
    push_line(&mut lines, last_woken);
    let ghost five = line_views(lines@);
    if task.self_wakes() > 0 {
        let mut text: Vec<char> = Vec::new();
        push_decimal(task.self_wakes() as u128, &mut text);
        push_str(&mut text, " times (");
        push_decimal(task.self_wake_percent() as u128, &mut text);
        push_str(&mut text, "%)");
        push_line(&mut lines, two(bold("Self Wakes: "), Span::raw(string_from(text.as_slice()))));
    }
    proof {
        assert(decimal(task.stats.waker_drops as nat) + ""@ =~= decimal(task.stats.waker_drops as nat));
        assert(line_views(lines@) =~= waker_lines(*task, *styles, now, prec));
    }
    lines
}

/// The lines that show the warnings task `t` holds at `now`, in order: a
/// warning sign and what the linter says of the task.
pub open spec fn warning_lines_of(t: Task, linters: Seq<Linter>, styles: Styles, now: SystemTime) -> Seq<
    Seq<(Seq<char>, Style)>,
> {
    t.warnings@.map_values(
        |w: usize|
            seq![
                (
                    if styles.utf8 {
                        "\u{26A0} "@
                    } else {
                        "/!\\ "@
                    },
                    styles.warning_style(),
                ),
                raw_span(linter_text(linters[w as int], t, now)),
            ],
    )
}

/// Whether every warning of `t` names one of `linters`, which can describe
/// it at `now`.
pub open spec fn warnings_describable(t: Task, linters: Seq<Linter>, now: SystemTime) -> bool {
    forall|i: int|
        0 <= i < t.warnings@.len() ==> #[trigger] t.warnings@[i] < linters.len() && linter_can_format(
            linters[t.warnings@[i] as int],
            t,
            now,
        )
}

/// Whether every warning of `task` names one of `linters`, which can
/// describe it at `now`.
pub fn warnings_describable_at(task: &Task, linters: &[Linter], now: SystemTime) -> (r: bool)
    ensures
        r == warnings_describable(*task, linters@, now),
{
    let n = task.warnings.len();
    for i in 0..n
        invariant
            n == task.warnings@.len(),
            forall|j: int|
                0 <= j < i ==> #[trigger] task.warnings@[j] < linters@.len() && linter_can_format(
                    linters@[task.warnings@[j] as int],
                    *task,
                    now,
                ),
    {
        let w = task.warnings[i];
        if w >= linters.len() {
            return false;
        }
        if !linters[w].can_format_at(task, now) {
            return false;
        }
    }
    true
}

/// The lines that show the warnings `task` holds at `now`.
pub fn task_warning_lines(task: &Task, linters: &[Linter], styles: &Styles, now: SystemTime) -> (r: Vec<Vec<Span>>)
    requires
        warnings_describable(*task, linters@, now),
    ensures
        line_views(r@) == warning_lines_of(*task, linters@, *styles, now),
{
    let mut lines: Vec<Vec<Span>> = Vec::new();
    let n = task.warnings.len();
    for i in 0..n
        invariant
            n == task.warnings@.len(),
            warnings_describable(*task, linters@, now),
            line_views(lines@) == warning_lines_of(*task, linters@, *styles, now).take(i as int),
    {
        let w = task.warnings[i];
        assert(task.warnings@[i as int] < linters@.len());
        let line = two(styles.warning_wide(), Span::raw(linters[w].format(task, now)));
        let ghost prev = line_views(lines@);
        push_line(&mut lines, line);
        proof {
            reveal_strlit("\u{26A0} ");
            reveal_strlit("/!\\ ");
            assert(line_views(lines@) =~= warning_lines_of(*task, linters@, *styles, now).take(i + 1));
        }
    }
    proof {
        assert(warning_lines_of(*task, linters@, *styles, now).take(n as int) =~= warning_lines_of(
            *task,
            linters@,
            *styles,
            now,
        ));
    }
    lines
}

/// The controls of the task view: escape returns to the task list.
pub fn task_view_controls() -> (r: Vec<ControlDisplay>)
    ensures
        r@.len() == 1,
        r@[0].action == "return to task list",
        r@[0].keys@ == seq![KeyDisplay { base: "esc", utf8: Some("\u{238B} esc") }],
{
    vec![
        ControlDisplay {
            action: "return to task list",
            keys: vec![KeyDisplay { base: "esc", utf8: Some("\u{238B} esc") }],
        },
    ]
}

} // verus!
