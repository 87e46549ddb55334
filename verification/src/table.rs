//! The contents of the task list: the rows shown for the tasks, in order,
//! the widths their columns grow to, the header, the title with the counts
//! of running and idle tasks, and the warnings.
use vstd::prelude::*;
use vstd::view::View as _;
use crate::store::Id;
use crate::styles::{
    adding, colors_durations, duration_style, duration_text_of, fg_style_in, pad_left, plain_style,
    span_views, Color, Modifier, Span, Style, Styles,
};
use crate::config::Palette;
use crate::tasks::{
    busy_time, idle_time, scheduled_time, task_sort_key, task_state, times_fit, total_time,
    SortBy, Task, TaskState, TasksState,
};
use crate::text::{decimal, push_decimal, string_from};
use crate::time::{duration_parts, SystemTime};
use crate::view::{widened, TableListState, Width};
use crate::warnings::push_str;
use vstd::utf8::encode_utf8;

verus! {

broadcast use vstd::string::group_string_axioms;

/// How a task's state is shown: a symbol (or a word) for the state, green
/// when running if the palette shows it.
pub open spec fn state_span(s: TaskState, utf8: bool, palette: Palette) -> (Seq<char>, Style) {
    match s {
        TaskState::Running => (
            if utf8 {
                "\u{25B6}"@
            } else {
                "BUSY"@
            },
            fg_style_in(palette, Color::Green),
        ),
        TaskState::Scheduled => (
            if utf8 {
                "\u{23EB}"@
            } else {
                "SCHED"@
            },
            plain_style(),
        ),
        TaskState::Idle => (
            if utf8 {
                "\u{23F8}"@
            } else {
                "IDLE"@
            },
            plain_style(),
        ),
        TaskState::Completed => (
            if utf8 {
                "\u{23F9}"@
            } else {
                "DONE"@
            },
            plain_style(),
        ),
    }
}

impl TaskState {
    /// How the state is shown.
    pub fn render(self, styles: &Styles) -> (r: Span)
        ensures
            (r.content@, r.style) == state_span(self, styles.utf8, styles.palette),
    {
        match self {
            TaskState::Running => Span::styled(
                styles.if_utf8("\u{25B6}", "BUSY").to_string(),
                styles.fg(Color::Green),
            ),
            TaskState::Scheduled => Span::raw(styles.if_utf8("\u{23EB}", "SCHED").to_string()),
            TaskState::Idle => Span::raw(styles.if_utf8("\u{23F8}", "IDLE").to_string()),
            TaskState::Completed => Span::raw(styles.if_utf8("\u{23F9}", "DONE").to_string()),
        }
    }
}

/// The number of bytes of the UTF-8 encoding of `s` (`str::len`).
pub open spec fn byte_len(s: Seq<char>) -> nat {
    (encode_utf8(s).len() as usize) as nat
}

/// The number of bytes of `s`.
fn str_byte_len(s: &String) -> (r: usize)
    ensures
        r == byte_len(s@),
{
    s.as_str().len()
}

/// The widths of the columns that grow: warnings, ID, name, polls, kind and
/// location.
#[derive(PartialEq, Eq, Structural, Clone, Copy, Debug)]
pub struct ColumnWidths {
    pub warn: u16,
    pub id: u16,
    pub name: u16,
    pub polls: u16,
    pub kind: u16,
    pub location: u16,
}

/// How a duration of `nanos` nanoseconds is shown in the table: written in
/// `dur_len` characters at precision `prec`, colored by its unit.
pub open spec fn duration_cell(styles: Styles, nanos: nat, prec: usize, dur_len: usize) -> (Seq<char>, Style) {
    let (secs, ns) = duration_parts(nanos);
    let (form, text) = duration_text_of(secs as nat, ns, dur_len as nat, prec, styles.utf8);
    (
        text,
        if !colors_durations(styles.toggles) || styles.palette == Palette::NoColors {
            plain_style()
        } else {
            duration_style(styles.palette, form, text)
        },
    )
}

/// The warning sign of narrow columns.
pub open spec fn warning_sign(styles: Styles) -> (Seq<char>, Style) {
    (
        if styles.utf8 {
            "\u{26A0} "@
        } else {
            "! "@
        },
        styles.warning_style(),
    )
}

/// The spans of lines of spans, one after the other.
pub open spec fn flattened(lines: Seq<Vec<Span>>) -> Seq<(Seq<char>, Style)>
    decreases lines.len(),
{
    if lines.len() == 0 {
        Seq::empty()
    } else {
        flattened(lines.drop_last()) + span_views(lines.last()@)
    }
}

/// The cells of the row of task `t` at `now`, given the widths of the
/// columns so far, and the widths after the row: the number of warnings
/// (with a sign), the ID right-aligned in its column, the state, the name,
/// the total, busy, scheduled and idle times, the polls, the target (in the
/// kind column), the location and the fields.
pub open spec fn task_row_cells(
    t: Task,
    w: ColumnWidths,
    styles: Styles,
    now: SystemTime,
    prec: usize,
    dur_len: usize,
) -> (Seq<Seq<(Seq<char>, Style)>>, ColumnWidths) {
    let n = t.warnings@.len();
    let warn_text = decimal(n);
    let warn_cell = if n > 0 {
        seq![warning_sign(styles), (warn_text, plain_style())]
    } else {
        seq![(Seq::<char>::empty(), plain_style())]
    };
    let warn_w = if n > 0 {
        widened(w.warn as nat, warn_text.len() + 2)
    } else {
        w.warn as nat
    };
    let id_text = pad_left(t.id_str@, w.id as nat);
    let name_text = match t.name {
        Some(n) => n@,
        None => Seq::<char>::empty(),
    };
    let polls_text = decimal(t.stats.polls as nat);
    let cells = seq![
        warn_cell,
        seq![(id_text, plain_style())],
        seq![state_span(task_state(t), styles.utf8, styles.palette)],
        seq![(name_text, plain_style())],
        seq![duration_cell(styles, total_time(t, now), prec, dur_len)],
        seq![duration_cell(styles, busy_time(t, now), prec, dur_len)],
        seq![duration_cell(styles, scheduled_time(t, now), prec, dur_len)],
        seq![duration_cell(styles, idle_time(t, now), prec, dur_len)],
        seq![(polls_text, plain_style())],
        seq![(t.target@, plain_style())],
        seq![(t.location@, plain_style())],
        flattened(t.formatted_fields@),
    ];
    let widths = ColumnWidths {
        warn: warn_w as u16,
        id: widened(w.id as nat, byte_len(id_text)) as u16,
        name: widened(w.name as nat, byte_len(name_text)) as u16,
        polls: widened(w.polls as nat, byte_len(polls_text)) as u16,
        kind: widened(w.kind as nat, byte_len(t.target@)) as u16,
        location: widened(w.location as nat, byte_len(t.location@)) as u16,
    };
    (cells, widths)
}

/// A row of the task list: the task's sequential ID, its cells, and whether
/// it is shown as terminated.
pub struct TaskRow {
    pub id: u64,
    pub cells: Vec<Vec<Span>>,
    pub terminated: bool,
}

/// The text and style of the cells of a row.
pub open spec fn cell_views(cells: Seq<Vec<Span>>) -> Seq<Seq<(Seq<char>, Style)>> {
    cells.map_values(|c: Vec<Span>| span_views(c@))
}

/// A cell of one span.
fn one_span(s: Span) -> (r: Vec<Span>)
    ensures
        span_views(r@) == seq![(s.content@, s.style)],
{
    let mut v: Vec<Span> = Vec::new();
    v.push(s);
    assert(span_views(v@) =~= seq![(s.content@, s.style)]);
    v
}

/// The spans of the lines, one after the other.
fn flatten_lines(lines: &Vec<Vec<Span>>) -> (r: Vec<Span>)
    ensures
        span_views(r@) == flattened(lines@),
{
    let mut out: Vec<Span> = Vec::new();
    let n = lines.len();
    for i in 0..n
        invariant
            n == lines@.len(),
            span_views(out@) == flattened(lines@.take(i as int)),
    {
        let line = &lines[i];
        let m = line.len();
        let ghost before = out@;
        for j in 0..m
            invariant
                m == line@.len(),
                span_views(out@) == span_views(before) + span_views(line@.take(j as int)),
        {
            let s = Span::styled(line[j].content.clone(), line[j].style);
            let ghost prev = out@;
            out.push(s);
            assert(span_views(out@) =~= span_views(prev).push((s.content@, s.style)));
            assert(span_views(line@.take(j + 1)) =~= span_views(line@.take(j as int)).push(
                (line@[j as int].content@, line@[j as int].style),
            ));
            assert(span_views(out@) =~= span_views(before) + span_views(line@.take(j + 1)));
        }
        assert(line@.take(m as int) =~= line@);
        assert(lines@.take(i + 1).drop_last() =~= lines@.take(i as int));
    }
    assert(lines@.take(n as int) =~= lines@);
    out
}

/// The row of task `t`, with the widths after it.
fn task_row(t: &Task, w: ColumnWidths, styles: &Styles, now: SystemTime, prec: usize, dur_len: usize) -> (r: (
    Vec<Vec<Span>>,
    ColumnWidths,
))
    requires
        prec <= u16::MAX,
        dur_len <= u16::MAX,
        times_fit(*t, now),
    ensures
        (cell_views(r.0@), r.1) == task_row_cells(*t, w, *styles, now, prec, dur_len),
{
    let mut warn_w = Width::new(w.warn);
    let mut id_w = Width::new(w.id);
    let mut name_w = Width::new(w.name);
    let mut polls_w = Width::new(w.polls);
    let mut kind_w = Width::new(w.kind);
    let mut location_w = Width::new(w.location);
    let n = t.warnings.len();
    let ghost expected = task_row_cells(*t, w, *styles, now, prec, dur_len).0;
    let mut cells: Vec<Vec<Span>> = Vec::new();
    let warn_cell = if n > 0 {
        let mut digits: Vec<char> = Vec::new();
        push_decimal(n as u128, &mut digits);
        proof {
            crate::text::lemma_decimal_len(n as nat);
            assert(digits@ =~= decimal(n as nat));
        }
        let text = string_from(digits.as_slice());
        warn_w.update_len(digits.len() + 2);
        let mut c: Vec<Span> = Vec::new();
        c.push(styles.warning_narrow());
        c.push(Span::raw(text));
        assert(span_views(c@) =~= expected[0]);
        c
    } else {
        let mut c: Vec<Span> = Vec::new();
        c.push(Span::raw(String::new()));
        assert(span_views(c@) =~= expected[0]);
        c
    };
    cells.push(warn_cell);
    let id_chars = crate::text::chars_of(t.id_str.as_str());
    let id_padded = crate::styles::padded_chars(id_chars.as_slice(), id_w.chars() as usize);
    let id_text = string_from(id_padded.as_slice());
    id_w.update_len(str_byte_len(&id_text));
    cells.push(one_span(Span::raw(id_text)));
    assert(span_views(cells@[1]@) == expected[1]);
    cells.push(one_span(t.state().render(styles)));
    assert(span_views(cells@[2]@) == expected[2]);
    let name_text = match &t.name {
        Some(n) => n.to_string(),
        None => String::new(),
    };
    name_w.update_len(str_byte_len(&name_text));
    cells.push(one_span(Span::raw(name_text)));
    assert(span_views(cells@[3]@) == expected[3]);
    cells.push(one_span(styles.time_units(t.total(now), prec, Some(dur_len))));
    assert(span_views(cells@[4]@) == expected[4]);
    cells.push(one_span(styles.time_units(t.busy(now), prec, Some(dur_len))));
    assert(span_views(cells@[5]@) == expected[5]);
    cells.push(one_span(styles.time_units(t.scheduled(now), prec, Some(dur_len))));
    assert(span_views(cells@[6]@) == expected[6]);
    cells.push(one_span(styles.time_units(t.idle(now), prec, Some(dur_len))));
    assert(span_views(cells@[7]@) == expected[7]);
    let polls_text = crate::text::decimal_string(t.stats.polls as u128);
    polls_w.update_len(str_byte_len(&polls_text));
    cells.push(one_span(Span::raw(polls_text)));
    assert(span_views(cells@[8]@) == expected[8]);
    let target = t.target.to_string();
    kind_w.update_len(str_byte_len(&target));
    cells.push(one_span(Span::raw(target)));
    assert(span_views(cells@[9]@) == expected[9]);
    let location = t.location.clone();
    location_w.update_len(str_byte_len(&location));
    cells.push(one_span(Span::raw(location)));
    assert(span_views(cells@[10]@) == expected[10]);
    cells.push(flatten_lines(&t.formatted_fields));
    assert(span_views(cells@[11]@) == expected[11]);
    let widths = ColumnWidths {
        warn: warn_w.chars(),
        id: id_w.chars(),
        name: name_w.chars(),
        polls: polls_w.chars(),
        kind: kind_w.chars(),
        location: location_w.chars(),
    };
    proof {
        assert(cells@.len() == 12);
        assert(cell_views(cells@) =~= expected);
    }
    (cells, widths)
}


/// The rows for the first `n` of `ids` that are still stored in `items`,
/// with the widths and the counts of running and idle tasks after them,
/// starting from the widths `w0`.
pub open spec fn table_rows(
    ids: Seq<u64>,
    n: int,
    items: Map<u64, Task>,
    w0: ColumnWidths,
    styles: Styles,
    now: SystemTime,
    prec: usize,
    dur_len: usize,
) -> (Seq<(u64, Seq<Seq<(Seq<char>, Style)>>, bool)>, ColumnWidths, nat, nat)
    decreases n,
{
    if n <= 0 {
        (Seq::empty(), w0, 0, 0)
    } else {
        let prev = table_rows(ids, n - 1, items, w0, styles, now, prec, dur_len);
        let id = ids[n - 1];
        if items.contains_key(id) {
            let t = items[id];
            let step = task_row_cells(t, prev.1, styles, now, prec, dur_len);
            let s = task_state(t);
            (
                prev.0.push((id, step.0, s == TaskState::Completed)),
                step.1,
                if s == TaskState::Running {
                    prev.2 + 1
                } else {
                    prev.2
                },
                if s == TaskState::Idle {
                    prev.3 + 1
                } else {
                    prev.3
                },
            )
        } else {
            prev
        }
    }
}

/// The rows in the order shown: as sorted in descending order, reversed
/// in ascending order.
pub open spec fn display_order(sorted: Seq<u64>, descending: bool) -> Seq<u64> {
    if descending {
        sorted
    } else {
        sorted.reverse()
    }
}

/// The IDs of `ids` still stored in `items`, in order.
pub open spec fn still_stored(ids: Seq<u64>, items: Map<u64, Task>) -> Seq<u64>
    decreases ids.len(),
{
    if ids.len() == 0 {
        Seq::empty()
    } else if items.contains_key(ids.last()) {
        still_stored(ids.drop_last(), items).push(ids.last())
    } else {
        still_stored(ids.drop_last(), items)
    }
}

/// The widths the task list starts from: each column as wide as its
/// header and one more.
pub open spec fn initial_widths() -> ColumnWidths {
    ColumnWidths { warn: 5, id: 3, name: 5, polls: 5, kind: 6, location: 5 }
}

/// The headers of the task list.
pub open spec fn task_header() -> Seq<Seq<char>> {
    seq![
        "Warn"@,
        "ID"@,
        "State"@,
        "Name"@,
        "Total"@,
        "Busy"@,
        "Sched"@,
        "Idle"@,
        "Polls"@,
        "Kind"@,
        "Location"@,
        "Fields"@,
    ]
}

/// The headers of the task list.
pub fn task_header_names() -> (r: Vec<&'static str>)
    ensures
        r@.map_values(|s: &'static str| s@) == task_header(),
{
    let r = vec!["Warn", "ID", "State", "Name", "Total", "Busy", "Sched", "Idle", "Polls", "Kind", "Location", "Fields"];
    assert(r@.map_values(|s: &'static str| s@) =~= task_header());
    r
}

/// How the header of column `idx` (named `name`) is shown: the selected
/// column marked with the order (`ascending` in descending order and
/// `descending` in ascending order, as the list has always done), the
/// others plain.
pub open spec fn header_cell(name: Seq<char>, idx: int, selected: usize, descending: bool, styles: Styles) -> (Seq<char>, Style) {
    if idx == selected {
        if descending {
            (
                name + if styles.utf8 {
                    "\u{25B5}"@
                } else {
                    "+"@
                },
                styles.selected_style(),
            )
        } else {
            (
                name + if styles.utf8 {
                    "\u{25BF}"@
                } else {
                    "-"@
                },
                styles.selected_style(),
            )
        }
    } else {
        (name, plain_style())
    }
}

/// The style of the header row: bold, and reversed when the palette shows
/// no cyan.
pub open spec fn header_row_style(styles: Styles) -> Style {
    adding(
        if crate::styles::palette_color(styles.palette, Color::Cyan) is Some {
            plain_style()
        } else {
            adding(plain_style(), Modifier { bold: false, dim: false, reversed: true })
        },
        Modifier { bold: true, dim: false, reversed: false },
    )
}

/// The title of the task list: the number of tasks listed, and the numbers
/// of running and idle tasks with their signs.
pub open spec fn task_title(len: nat, running: nat, idle: nat, styles: Styles) -> Seq<(Seq<char>, Style)> {
    seq![
        ("Tasks ("@ + decimal(len) + ") "@, crate::view::bold_style()),
        state_span(TaskState::Running, styles.utf8, styles.palette),
        (" Running ("@ + decimal(running) + ") "@, plain_style()),
        state_span(TaskState::Idle, styles.utf8, styles.palette),
        (" Idle ("@ + decimal(idle) + ")"@, plain_style()),
    ]
}

/// The contents of the task list.
pub struct TasksTable {
    /// The rows, in the order shown.
    pub rows: Vec<TaskRow>,
    /// The widths of the columns that grow.
    pub widths: ColumnWidths,
    pub num_running: u64,
    pub num_idle: u64,
    /// The header row, and its style.
    pub header: Vec<Span>,
    pub header_style: Style,
    /// The title of the table.
    pub title: Vec<Span>,
    /// A line for each warning that some task holds.
    pub warnings: Vec<Vec<Span>>,
}

/// The text and style of the rows.
pub open spec fn row_views(rows: Seq<TaskRow>) -> Seq<(u64, Seq<Seq<(Seq<char>, Style)>>, bool)> {
    rows.map_values(|r: TaskRow| (r.id, cell_views(r.cells@), r.terminated))
}

/// The line of a warning held by `count` tasks: the sign, the count and the
/// summary.
pub open spec fn warning_line(count: nat, summary: Seq<char>, styles: Styles) -> Seq<(Seq<char>, Style)> {
    seq![
        (
            if styles.utf8 {
                "\u{26A0} "@
            } else {
                "/!\\ "@
            },
            styles.warning_style(),
        ),
        (decimal(count) + " "@ + summary, plain_style()),
    ]
}

/// The rows of `ids` in order, with the widths and counts after them.
fn build_rows(
    ids: &Vec<u64>,
    state: &TasksState,
    styles: &Styles,
    now: SystemTime,
    prec: usize,
    dur_len: usize,
) -> (r: (Vec<TaskRow>, ColumnWidths, u64, u64))
    requires
        prec <= u16::MAX,
        dur_len <= u16::MAX,
        forall|k: u64| #[trigger] state.store().items().contains_key(k) ==> times_fit(state.store().items()[k], now),
    ensures
        ({
            let t = table_rows(ids@, ids@.len() as int, state.store().items(), initial_widths(), *styles, now, prec, dur_len);
            &&& row_views(r.0@) == t.0
            &&& r.1 == t.1
            &&& r.2 == t.2
            &&& r.3 == t.3
        }),
{
    let mut rows: Vec<TaskRow> = Vec::new();
    let mut w = ColumnWidths { warn: 5, id: 3, name: 5, polls: 5, kind: 6, location: 5 };
    let mut running: u64 = 0;
    let mut idle: u64 = 0;
    let n = ids.len();
    for i in 0..n
        invariant
            n == ids@.len(),
            prec <= u16::MAX,
            dur_len <= u16::MAX,
            forall|k: u64| #[trigger] state.store().items().contains_key(k) ==> times_fit(state.store().items()[k], now),
            ({
                let t = table_rows(ids@, i as int, state.store().items(), initial_widths(), *styles, now, prec, dur_len);
                &&& row_views(rows@) == t.0
                &&& w == t.1
                &&& running == t.2
                &&& idle == t.3
            }),
            running <= i,
            idle <= i,
    {
        let id = ids[i];
        match state.task(Id::new(id)) {
            Some(t) => {
                let (cells, w2) = task_row(t, w, styles, now, prec, dur_len);
                let s = t.state();
                let ghost prev = rows@;
                rows.push(TaskRow { id, cells, terminated: s == TaskState::Completed });
                assert(row_views(rows@) =~= row_views(prev).push((id, cell_views(cells@), s == TaskState::Completed)));
                w = w2;
                if s == TaskState::Running {
                    running = running + 1;
                }
                if s == TaskState::Idle {
                    idle = idle + 1;
                }
            },
            None => {},
        }
    }
    (rows, w, running, idle)
}

/// The header row of the task list.
fn header_row(selected: usize, descending: bool, styles: &Styles) -> (r: Vec<Span>)
    ensures
        r@.len() == 12,
        forall|i: int| 0 <= i < 12 ==> (#[trigger] r@[i].content@, r@[i].style) == header_cell(
            task_header()[i],
            i,
            selected,
            descending,
            *styles,
        ),
{
    let names = task_header_names();
    assert(task_header().len() == 12);
    assert(names@.map_values(|s: &'static str| s@).len() == names@.len());
    let mut r: Vec<Span> = Vec::new();
    for i in 0..12usize
        invariant
            names@.map_values(|s: &'static str| s@) == task_header(),
            names@.len() == 12,
            r@.len() == i,
            forall|j: int| 0 <= j < i ==> (#[trigger] r@[j].content@, r@[j].style) == header_cell(
                task_header()[j],
                j,
                selected,
                descending,
                *styles,
            ),
    {
        let name = names[i];
        assert(name@ == task_header()[i as int]);
        let cell = if i == selected {
            if descending {
                styles.ascending(name)
            } else {
                styles.descending(name)
            }
        } else {
            Span::raw(name.to_string())
        };
        r.push(cell);
    }
    r
}

/// The text of a count between words: `before`, the count, `after`.
fn count_text(before: &str, n: u64, after: &str) -> (r: String)
    ensures
        r@ == before@ + decimal(n as nat) + after@,
{
    let mut v: Vec<char> = Vec::new();
    push_str(&mut v, before);
    push_decimal(n as u128, &mut v);
    push_str(&mut v, after);
    string_from(v.as_slice())
}

/// The linters, among the first `n`, whose warning some task of `items`
/// holds, in order.
pub open spec fn warned_linters(items: Map<u64, Task>, n: nat) -> Seq<usize>
    decreases n,
{
    if n == 0 {
        Seq::empty()
    } else {
        let prev = warned_linters(items, (n - 1) as nat);
        if crate::tasks::holders(items, (n - 1) as usize).len() > 0 {
            prev.push((n - 1) as usize)
        } else {
            prev
        }
    }
}

/// The lines of the warnings that some task holds, in the order of the
/// linters.
fn warning_lines(state: &TasksState, styles: &Styles) -> (r: Vec<Vec<Span>>)
    ensures
        ({
            let ws = warned_linters(state.store().items(), state.spec_linters().len());
            &&& r@.len() == ws.len()
            &&& forall|i: int| 0 <= i < ws.len() ==> span_views(#[trigger] r@[i]@) == warning_line(
                crate::tasks::holders(state.store().items(), ws[i]).len(),
                crate::warnings::linter_summary(state.spec_linters()[ws[i] as int]),
                *styles,
            )
        }),
{
    let n = state.linter_count();
    let mut r: Vec<Vec<Span>> = Vec::new();
    let ghost items = state.store().items();
    for l in 0..n
        invariant
            n == state.spec_linters().len(),
            items == state.store().items(),
            ({
                let ws = warned_linters(items, l as nat);
                &&& r@.len() == ws.len()
                &&& forall|i: int| 0 <= i < ws.len() ==> span_views(#[trigger] r@[i]@) == warning_line(
                    crate::tasks::holders(items, ws[i]).len(),
                    crate::warnings::linter_summary(state.spec_linters()[ws[i] as int]),
                    *styles,
                )
            }),
    {
        let count = state.warning_count(l);
        if count > 0 {
            let linter = state.linter(l);
            let mut text: Vec<char> = Vec::new();
            push_decimal(count as u128, &mut text);
            push_str(&mut text, " ");
            push_str(&mut text, linter.summary());
            let mut line: Vec<Span> = Vec::new();
            line.push(styles.warning_wide());
            line.push(Span::raw(string_from(text.as_slice())));
            proof {
                reveal_strlit(" ");
                assert(span_views(line@) =~= warning_line(
                    crate::tasks::holders(items, l).len(),
                    crate::warnings::linter_summary(state.spec_linters()[l as int]),
                    *styles,
                ));
            }
            let ghost prev = r@;
            r.push(line);
            proof {
                let ws = warned_linters(items, (l + 1) as nat);
                assert(ws == warned_linters(items, l as nat).push(l));
                assert forall|i: int| 0 <= i < ws.len() implies span_views(#[trigger] r@[i]@) == warning_line(
                    crate::tasks::holders(items, ws[i]).len(),
                    crate::warnings::linter_summary(state.spec_linters()[ws[i] as int]),
                    *styles,
                ) by {
                    if i < prev.len() {
                        assert(r@[i] == prev[i]);
                    }
                }
            }
        }
    }
    r
}


/// The sequence of `ids` in the order shown.
fn in_display_order(ids: &Vec<u64>, descending: bool) -> (r: Vec<u64>)
    ensures
        r@ == display_order(ids@, descending),
{
    let mut r: Vec<u64> = Vec::new();
    let n = ids.len();
    if descending {
        for i in 0..n
            invariant
                n == ids@.len(),
                r@ == ids@.take(i as int),
        {
            r.push(ids[i]);
            assert(ids@.take(i + 1) =~= ids@.take(i as int).push(ids@[i as int]));
        }
        assert(ids@.take(n as int) =~= ids@);
    } else {
        for i in 0..n
            invariant
                n == ids@.len(),
                r@ == ids@.reverse().take(i as int),
        {
            r.push(ids[n - 1 - i]);
            assert(ids@.reverse().take(i + 1) =~= ids@.reverse().take(i as int).push(ids@[n - 1 - i]));
        }
        assert(ids@.reverse().take(n as int) =~= ids@.reverse());
    }
    r
}

/// The IDs of `ids` whose task is still stored.
fn keep_stored(ids: &Vec<u64>, state: &TasksState) -> (r: Vec<u64>)
    ensures
        r@ == still_stored(ids@, state.store().items()),
{
    let mut r: Vec<u64> = Vec::new();
    let n = ids.len();
    for i in 0..n
        invariant
            n == ids@.len(),
            r@ == still_stored(ids@.take(i as int), state.store().items()),
    {
        assert(ids@.take(i + 1).drop_last() =~= ids@.take(i as int));
        if state.task(Id::new(ids[i])).is_some() {
            r.push(ids[i]);
        }
    }
    assert(ids@.take(n as int) =~= ids@);
    r
}

/// Builds the task list at `now`: the new tasks join the list, the list is
/// sorted by its sort key, the rows of the tasks still stored are made in
/// the order shown (growing the columns as they go), with the header, the
/// title and the warnings; then the tasks that are gone leave the list.
pub fn tasks_table(
    list: &mut TableListState<SortBy>,
    state: &mut TasksState,
    styles: &Styles,
    now: SystemTime,
    prec: usize,
    dur_len: usize,
) -> (r: TasksTable)
    requires
        prec <= u16::MAX,
        dur_len <= u16::MAX,
        old(list).wf(),
        old(state).wf(),
        forall|k: u64| #[trigger]
            old(state).store().items().contains_key(k) ==> times_fit(old(state).store().items()[k], now),
    ensures
        final(list).wf(),
        final(state).wf(),
        final(state).store().items() == old(state).store().items(),
        final(state).store().new_ids() == Seq::<u64>::empty(),
        final(state).store().spec_ids() == old(state).store().spec_ids(),
        final(state).spec_linters() == old(state).spec_linters(),
        final(state).spec_dropped_events() == old(state).spec_dropped_events(),
        final(list).sort_by == old(list).sort_by,
        final(list).selected_column == old(list).selected_column,
        final(list).sort_descending == old(list).sort_descending,
        final(list).selected == old(list).selected,
        final(list).last_key_event == old(list).last_key_event,
        final(list).columns == old(list).columns,
        exists|sorted: Seq<u64>| {
            let items = old(state).store().items();
            let t = table_rows(
                display_order(sorted, old(list).sort_descending),
                sorted.len() as int,
                items,
                initial_widths(),
                *styles,
                now,
                prec,
                dur_len,
            );
            &&& #[trigger] sorted.to_multiset() == (old(list).sorted_items@ + old(state).store().new_ids()).to_multiset()
            &&& forall|i: int, j: int|
                0 <= i < j < sorted.len() ==> crate::order::key_le(
                    task_sort_key(old(list).sort_by, items, #[trigger] sorted[i], now),
                    task_sort_key(old(list).sort_by, items, #[trigger] sorted[j], now),
                )
            &&& final(list).sorted_items@ == still_stored(sorted, items)
            &&& row_views(r.rows@) == t.0
            &&& r.widths == t.1
            &&& r.num_running == t.2
            &&& r.num_idle == t.3
            &&& span_views(r.title@) == task_title(sorted.len(), t.2, t.3, *styles)
        },
        r.header@.len() == 12,
        forall|i: int|
            0 <= i < 12 ==> (#[trigger] r.header@[i].content@, r.header@[i].style) == header_cell(
                task_header()[i],
                i,
                old(list).selected_column,
                old(list).sort_descending,
                *styles,
            ),
        r.header_style == header_row_style(*styles),
        ({
            let ws = warned_linters(old(state).store().items(), old(state).spec_linters().len());
            &&& r.warnings@.len() == ws.len()
            &&& forall|i: int| 0 <= i < ws.len() ==> span_views(#[trigger] r.warnings@[i]@) == warning_line(
                crate::tasks::holders(old(state).store().items(), ws[i]).len(),
                crate::warnings::linter_summary(old(state).spec_linters()[ws[i] as int]),
                *styles,
            )
        }),
{
    let new_ids = state.take_new_tasks();
    let ghost start = list.sorted_items@;
    let m = new_ids.len();
    for i in 0..m
        invariant
            m == new_ids@.len(),
            list.sorted_items@ == start + new_ids@.take(i as int).map_values(|id: Id<Task>| id.value()),
            list.wf(),
            list.sort_by == old(list).sort_by,
            list.selected_column == old(list).selected_column,
            list.sort_descending == old(list).sort_descending,
            list.selected == old(list).selected,
            list.last_key_event == old(list).last_key_event,
            list.columns == old(list).columns,
    {
        list.sorted_items.push(new_ids[i].as_u64());
        assert(new_ids@.take(i + 1).map_values(|id: Id<Task>| id.value()) =~= new_ids@.take(i as int).map_values(
            |id: Id<Task>| id.value(),
        ).push(new_ids@[i as int].value()));
    }
    assert(new_ids@.take(m as int) =~= new_ids@);
    assert(list.sorted_items@ == old(list).sorted_items@ + old(state).store().new_ids());
    let ghost items = state.store().items();
    proof {
        assert forall|k: u64| #[trigger] items.contains_key(k) implies crate::tasks::sort_times_fit(list.sort_by, items[k], now) by {
            assert(times_fit(items[k], now));
        }
    }
    let sort_by = list.sort_by;
    let mut sorted = Vec::new();
    std::mem::swap(&mut sorted, &mut list.sorted_items);
    sort_by.sort(now, state, &mut sorted);
    let ghost sorted_view = sorted@;
    let display = in_display_order(&sorted, list.sort_descending);
    let (rows, widths, num_running, num_idle) = build_rows(&display, state, styles, now, prec, dur_len);
    let header = header_row(list.selected_column, list.sort_descending, styles);
    let base = if styles.color(Color::Cyan).is_some() {
        Style::plain()
    } else {
        Style::plain().add_modifier(Modifier::reversed())
    };
    let header_style = base.add_modifier(Modifier::bold());
    let mut title: Vec<Span> = Vec::new();
    title.push(crate::view::bold(count_text("Tasks (", sorted.len() as u64, ") ").as_str()));
    title.push(TaskState::Running.render(styles));
    title.push(Span::raw(count_text(" Running (", num_running, ") ")));
    title.push(TaskState::Idle.render(styles));
    title.push(Span::raw(count_text(" Idle (", num_idle, ")")));
    let warnings = warning_lines(state, styles);
    list.sorted_items = keep_stored(&sorted, state);
    proof {
        assert(display@.len() == sorted_view.len());
        assert(span_views(title@) =~= task_title(
            sorted_view.len(),
            num_running as nat,
            num_idle as nat,
            *styles,
        ));
    }
    TasksTable { rows, widths, num_running, num_idle, header, header_style, title, warnings }
}

} // verus!
