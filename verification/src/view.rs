//! The state of the terminal views: which view is shown, which row and
//! column of a table are selected, how columns grow to fit their contents,
//! and what the keys do.
use vstd::prelude::*;
use vstd::view::View as _;
use crate::input::{Event, KeyCode, KeyEvent};
use crate::store::Id;
use crate::styles::{adding, plain_style, span_views, Modifier, Span, Style, Styles};
use crate::tasks::{task_sort_column, SortBy, Task, TasksState};
use crate::resources::{resource_sort_column, SortBy as ResourceSortBy};
use crate::state::State;
use crate::text::chars_of;

verus! {

broadcast use vstd::string::group_string_axioms;

/// The widest that a column grows.
pub const MAX_COLUMN_WIDTH: u16 = 100;

/// The width of a column `curr` wide after it grows to fit `len`: the wider
/// of the two, but no more than 100.
pub open spec fn widened(curr: nat, len: nat) -> nat {
    let m = if len <= curr {
        curr
    } else {
        len
    };
    if m <= MAX_COLUMN_WIDTH {
        m
    } else {
        MAX_COLUMN_WIDTH as nat
    }
}

/// The width of a column, which grows to fit what it shows.
#[derive(PartialEq, Eq, Structural, Clone, Copy, Debug)]
pub struct Width {
    pub curr: u16,
}

impl Width {
    /// A column `curr` characters wide.
    pub fn new(curr: u16) -> (r: Self)
        ensures
            r.curr == curr,
    {
        Width { curr }
    }

    /// Widens the column to fit `len` characters, up to 100.
    pub fn update_len(&mut self, len: usize)
        ensures
            final(self).curr == widened(old(self).curr as nat, len as nat),
    {
        let curr = self.curr as usize;
        let max = if curr >= len {
            curr
        } else {
            len
        };
        self.curr = if max <= MAX_COLUMN_WIDTH as usize {
            max as u16
        } else {
            MAX_COLUMN_WIDTH
        };
    }

    /// Widens the column to fit `s` (by its length in bytes) and hands `s`
    /// back.
    pub fn update_str<'a>(&mut self, s: &'a str) -> (r: &'a str)
        ensures
            r == s,
            final(self).curr == widened(old(self).curr as nat, s.len() as nat),
    {
        self.update_len(s.len());
        s
    }

    /// The width of the column, as a layout length.
    pub fn constraint(&self) -> (r: u16)
        ensures
            r == self.curr,
    {
        self.curr
    }

    /// The width of the column in characters.
    pub fn chars(&self) -> (r: u16)
        ensures
            r == self.curr,
    {
        self.curr
    }
}

/// A sort key of a table, chosen by the selected column.
pub trait SortColumn: Sized + Copy {
    /// The sort key of column `c`, if it has one.
    spec fn column_sort(c: usize) -> Option<Self>;

    /// The column of a sort key.
    spec fn sort_column(s: Self) -> nat;

    /// The sort key a table starts with.
    spec fn initial_sort() -> Self;

    /// The sort key of column `c`, if it has one.
    fn from_column(c: usize) -> (r: Option<Self>)
        ensures
            r == Self::column_sort(c),
    ;

    /// The column of this sort key.
    fn as_column(&self) -> (r: usize)
        ensures
            r == Self::sort_column(*self),
    ;

    /// The sort key a table starts with.
    fn initial() -> (r: Self)
        ensures
            r == Self::initial_sort(),
    ;
}

/// The sort key of a task-list column.
pub open spec fn task_column_sort(c: usize) -> Option<SortBy> {
    if c == 0 {
        Some(SortBy::Warns)
    } else if c == 1 {
        Some(SortBy::Tid)
    } else if c == 2 {
        Some(SortBy::State)
    } else if c == 3 {
        Some(SortBy::Name)
    } else if c == 4 {
        Some(SortBy::Total)
    } else if c == 5 {
        Some(SortBy::Busy)
    } else if c == 6 {
        Some(SortBy::Scheduled)
    } else if c == 7 {
        Some(SortBy::Idle)
    } else if c == 8 {
        Some(SortBy::Polls)
    } else if c == 9 {
        Some(SortBy::Target)
    } else if c == 10 {
        Some(SortBy::Location)
    } else {
        None
    }
}

impl SortColumn for SortBy {
    open spec fn column_sort(c: usize) -> Option<Self> {
        task_column_sort(c)
    }

    open spec fn sort_column(s: Self) -> nat {
        task_sort_column(s)
    }

    open spec fn initial_sort() -> Self {
        SortBy::Total
    }

    fn from_column(c: usize) -> (r: Option<Self>) {
        match SortBy::try_from(c) {
            Ok(s) => Some(s),
            Err(_) => None,
        }
    }

    fn as_column(&self) -> (r: usize) {
        SortBy::as_column(self)
    }

    fn initial() -> (r: Self) {
        SortBy::Total
    }
}

/// The state of a table that lists items: the items in the order shown (by
/// their sequential IDs), the sort key and the column it belongs to, which
/// row is selected, and the last key pressed.
pub struct TableListState<S: SortColumn> {
    pub sorted_items: Vec<u64>,
    pub sort_by: S,
    pub selected_column: usize,
    pub sort_descending: bool,
    /// The selected row, if any.
    pub selected: Option<usize>,
    pub last_key_event: Option<KeyEvent>,
    /// The number of columns of the table.
    pub columns: usize,
}

/// The row selected after moving down from row `i` of `len` rows: the next
/// one, or the first after the last.
pub open spec fn next_row(i: nat, len: nat) -> nat {
    if i + 1 >= len {
        0
    } else {
        i + 1
    }
}

/// The row selected after moving up from row `i` of `len` rows: the one
/// before, or the last before the first.
pub open spec fn prev_row(i: nat, len: nat) -> nat {
    if i == 0 {
        (len - 1) as nat
    } else {
        (i - 1) as nat
    }
}

/// The selection after moving it with `step` in a table of `len` rows:
/// none in an empty table, else `step` applied to the selected row or to the
/// first.
pub open spec fn moved(selected: Option<usize>, len: nat, step: spec_fn(nat) -> nat) -> Option<
    usize,
> {
    if len == 0 {
        None
    } else {
        Some(
            step(
                match selected {
                    Some(i) => i as nat,
                    None => 0,
                },
            ) as usize,
        )
    }
}

/// What a key does to the selected column of a table of `columns` columns:
/// left and `h` move it left, right and `l` move it right, wrapping around.
pub open spec fn column_after(code: KeyCode, column: usize, columns: usize) -> usize {
    match code {
        KeyCode::Left | KeyCode::Char('h') => if column == 0 {
            (columns - 1) as usize
        } else {
            (column - 1) as usize
        },
        KeyCode::Right | KeyCode::Char('l') => if column == columns - 1 {
            0
        } else {
            (column + 1) as usize
        },
        _ => column,
    }
}

/// What a key does to the selection of a table of `len` rows: down and `j`
/// move it down, up and `k` move it up, `G` to the last row, and `g` after
/// `g` to the first; the last key pressed was `last`.
pub open spec fn selection_after(
    code: KeyCode,
    last: Option<KeyEvent>,
    selected: Option<usize>,
    len: nat,
) -> Option<usize> {
    match code {
        KeyCode::Down | KeyCode::Char('j') => moved(selected, len, |i: nat| next_row(i, len)),
        KeyCode::Up | KeyCode::Char('k') => moved(selected, len, |i: nat| prev_row(i, len)),
        KeyCode::Char('G') => moved(selected, len, |i: nat| (len - 1) as nat),
        KeyCode::Char('g') => if last matches Some(e) && e.code == KeyCode::Char('g') {
            moved(selected, len, |i: nat| 0nat)
        } else {
            selected
        },
        _ => selected,
    }
}

impl<S: SortColumn> TableListState<S> {
    /// Whether the table has a column and the selected column is one of
    /// its columns.
    pub open spec fn wf(self) -> bool {
        0 < self.columns && self.selected_column < self.columns
    }

    /// An empty table of `columns` columns, sorted by the initial sort key
    /// in ascending order, with nothing selected.
    pub fn new(columns: usize) -> (r: Self)
        requires
            S::sort_column(S::initial_sort()) < columns,
        ensures
            r.wf(),
            r.sorted_items@.len() == 0,
            r.sort_by == S::initial_sort(),
            r.selected_column == S::sort_column(S::initial_sort()),
            !r.sort_descending,
            r.selected is None,
            r.last_key_event is None,
            r.columns == columns,
    {
        let sort_by = S::initial();
        let selected_column = sort_by.as_column();
        TableListState {
            sorted_items: Vec::new(),
            sort_by,
            selected_column,
            sort_descending: false,
            selected: None,
            last_key_event: None,
            columns,
        }
    }

    /// The number of items listed.
    pub fn len(&self) -> (r: usize)
        ensures
            r == self.sorted_items@.len(),
    {
        self.sorted_items.len()
    }

    /// Handles an input event: key events go to `key_input`, others change
    /// nothing.
    pub fn update_input(&mut self, event: Event)
        requires
            old(self).wf(),
        ensures
            final(self).wf(),
            match event {
                Event::Key(k) => final(self).key_handled(*old(self), k),
                _ => *final(self) == *old(self),
            },
    {
        match event {
            Event::Key(k) => self.key_input(k),
            _ => {},
        }
    }

    /// Whether this table is what `before` becomes after the key `event`:
    /// the selected column and the selection move, `i` inverts the order,
    /// the sort key follows the selected column where it has one, and the
    /// key is remembered.
    pub open spec fn key_handled(self, before: Self, event: KeyEvent) -> bool {
        let column = column_after(event.code, before.selected_column, before.columns);
        &&& self.selected_column == column
        &&& self.sort_descending == if event.code == KeyCode::Char('i') {
            !before.sort_descending
        } else {
            before.sort_descending
        }
        &&& self.selected == selection_after(
            event.code,
            before.last_key_event,
            before.selected,
            before.sorted_items@.len(),
        )
        &&& self.sort_by == match S::column_sort(column) {
            Some(s) => s,
            None => before.sort_by,
        }
        &&& self.last_key_event == Some(event)
        &&& self.sorted_items@ == before.sorted_items@
        &&& self.columns == before.columns
    }

    /// Handles a key.
    pub fn key_input(&mut self, event: KeyEvent)
        requires
            old(self).wf(),
        ensures
            final(self).wf(),
            final(self).key_handled(*old(self), event),
    {
        let header_len = self.columns;
        match event.code {
            KeyCode::Left | KeyCode::Char('h') => {
                if self.selected_column == 0 {
                    self.selected_column = header_len - 1;
                } else {
                    self.selected_column = self.selected_column - 1;
                }
            },
            KeyCode::Right | KeyCode::Char('l') => {
                if self.selected_column == header_len - 1 {
                    self.selected_column = 0;
                } else {
                    self.selected_column = self.selected_column + 1;
                }
            },
            KeyCode::Char('i') => self.sort_descending = !self.sort_descending,
            KeyCode::Down | KeyCode::Char('j') => self.scroll_next(),
            KeyCode::Up | KeyCode::Char('k') => self.scroll_prev(),
            KeyCode::Char('G') => self.scroll_to_last(),
            KeyCode::Char('g') => {
                let again = match self.last_key_event {
                    Some(e) => e.code == KeyCode::Char('g'),
                    None => false,
                };
                if again {
                    self.scroll_to_first();
                }
            },
            _ => {},
        }
        if let Some(sort_by) = S::from_column(self.selected_column) {
            self.sort_by = sort_by;
        }
        self.last_key_event = Some(event);
    }

    /// Selects the next row, or the first after the last.
    pub fn scroll_next(&mut self)
        ensures
            final(self).selected == moved(
                old(self).selected,
                old(self).sorted_items@.len(),
                |i: nat| next_row(i, old(self).sorted_items@.len()),
            ),
            final(self).sorted_items == old(self).sorted_items,
            final(self).sort_by == old(self).sort_by,
            final(self).selected_column == old(self).selected_column,
            final(self).sort_descending == old(self).sort_descending,
            final(self).last_key_event == old(self).last_key_event,
            final(self).columns == old(self).columns,
    {
        let len = self.sorted_items.len();
        if len == 0 {
            self.selected = None;
            return;
        }
        let i = match self.selected {
            Some(i) => i,
            None => 0,
        };
        let next = if i >= len - 1 {
            0
        } else {
            i + 1
        };
        self.selected = Some(next);
    }

    /// Selects the row before, or the last before the first.
    pub fn scroll_prev(&mut self)
        ensures
            final(self).selected == moved(
                old(self).selected,
                old(self).sorted_items@.len(),
                |i: nat| prev_row(i, old(self).sorted_items@.len()),
            ),
            final(self).sorted_items == old(self).sorted_items,
            final(self).sort_by == old(self).sort_by,
            final(self).selected_column == old(self).selected_column,
            final(self).sort_descending == old(self).sort_descending,
            final(self).last_key_event == old(self).last_key_event,
            final(self).columns == old(self).columns,
    {
        let len = self.sorted_items.len();
        if len == 0 {
            self.selected = None;
            return;
        }
        let i = match self.selected {
            Some(i) => i,
            None => 0,
        };
        let prev = if i == 0 {
            len - 1
        } else {
            i - 1
        };
        self.selected = Some(prev);
    }

    /// Selects the last row.
    pub fn scroll_to_last(&mut self)
        ensures
            final(self).selected == moved(
                old(self).selected,
                old(self).sorted_items@.len(),
                |i: nat| (old(self).sorted_items@.len() - 1) as nat,
            ),
            final(self).sorted_items == old(self).sorted_items,
            final(self).sort_by == old(self).sort_by,
            final(self).selected_column == old(self).selected_column,
            final(self).sort_descending == old(self).sort_descending,
            final(self).last_key_event == old(self).last_key_event,
            final(self).columns == old(self).columns,
    {
        let len = self.sorted_items.len();
        if len == 0 {
            self.selected = None;
            return;
        }
        self.selected = Some(len - 1);
    }

    /// Selects the first row.
    pub fn scroll_to_first(&mut self)
        ensures
            final(self).selected == moved(
                old(self).selected,
                old(self).sorted_items@.len(),
                |i: nat| 0nat,
            ),
            final(self).sorted_items == old(self).sorted_items,
            final(self).sort_by == old(self).sort_by,
            final(self).selected_column == old(self).selected_column,
            final(self).sort_descending == old(self).sort_descending,
            final(self).last_key_event == old(self).last_key_event,
            final(self).columns == old(self).columns,
    {
        let len = self.sorted_items.len();
        if len == 0 {
            self.selected = None;
            return;
        }
        self.selected = Some(0);
    }

    /// Whether the selection, if any, is one of the rows.
    pub open spec fn selection_in_range(self) -> bool {
        self.selected matches Some(i) ==> i < self.sorted_items@.len()
    }

    /// The item of the selected row, counting from the top in descending
    /// order and from the bottom in ascending order.
    pub open spec fn selected_item_spec(self) -> Option<u64> {
        match self.selected {
            Some(i) => Some(
                if self.sort_descending {
                    self.sorted_items@[i as int]
                } else {
                    self.sorted_items@[self.sorted_items@.len() - i - 1]
                },
            ),
            None => None,
        }
    }

    /// The item of the selected row, if a row is selected.
    pub fn selected_item(&self) -> (r: Option<u64>)
        requires
            self.selection_in_range(),
        ensures
            r == self.selected_item_spec(),
    {
        match self.selected {
            Some(i) => {
                let idx = if self.sort_descending {
                    i
                } else {
                    self.sorted_items.len() - i - 1
                };
                Some(self.sorted_items[idx])
            },
            None => None,
        }
    }
}

/// How a key is shown in the controls: its name, and a symbol for it where
/// the terminal speaks UTF-8.
#[derive(Clone, Copy, Debug)]
pub struct KeyDisplay {
    pub base: &'static str,
    pub utf8: Option<&'static str>,
}

/// An action of a view and the keys that perform it.
pub struct ControlDisplay {
    pub action: &'static str,
    pub keys: Vec<KeyDisplay>,
}

/// The text of a key in the controls.
pub open spec fn key_text(k: KeyDisplay, utf8: bool) -> Seq<char> {
    match k.utf8 {
        Some(symbol) => if utf8 {
            symbol@
        } else {
            k.base@
        },
        None => k.base@,
    }
}

/// The bold style.
pub open spec fn bold_style() -> Style {
    adding(plain_style(), Modifier { bold: true, dim: false, reversed: false })
}

/// The spans of the keys of an action, from the `i`-th on: each key in
/// bold, with ` or ` between them.
pub open spec fn key_spans(keys: Seq<KeyDisplay>, utf8: bool) -> Seq<(Seq<char>, Style)>
    decreases keys.len(),
{
    if keys.len() == 0 {
        seq![]
    } else {
        let last = seq![(key_text(keys.last(), utf8), bold_style())];
        if keys.len() == 1 {
            last
        } else {
            key_spans(keys.drop_last(), utf8) + seq![(" or "@, plain_style())] + last
        }
    }
}

/// The spans that show an action: `indent` spaces, the action, ` = ` and
/// its keys.
pub open spec fn control_spans(c: ControlDisplay, utf8: bool, indent: nat) -> Seq<(Seq<char>, Style)> {
    seq![
        (Seq::new(indent, |i: int| ' '), plain_style()),
        (c.action@, plain_style()),
        (" = "@, plain_style()),
    ] + key_spans(c.keys@, utf8)
}

/// `text` in bold.
pub fn bold(text: &str) -> (r: Span)
    ensures
        r.content@ == text@,
        r.style == bold_style(),
{
    Span::styled(text.to_string(), Style::plain().add_modifier(Modifier::bold()))
}

impl ControlDisplay {
    /// An action performed by one key, which has no symbol.
    pub fn new_simple(action: &'static str, key: &'static str) -> (r: Self)
        ensures
            r.action == action,
            r.keys@ == seq![KeyDisplay { base: key, utf8: None }],
    {
        ControlDisplay { action, keys: vec![KeyDisplay { base: key, utf8: None }] }
    }

    /// The spans that show the action, indented by `indent` spaces.
    pub fn into_spans(&self, styles: &Styles, indent: usize) -> (r: Vec<Span>)
        ensures
            span_views(r@) == control_spans(*self, styles.utf8, indent as nat),
    {
        let mut spans: Vec<Span> = Vec::new();
        let mut pad: Vec<char> = Vec::new();
        for i in 0..indent
            invariant
                pad@ == Seq::new(i as nat, |j: int| ' '),
        {
            pad.push(' ');
            assert(pad@ =~= Seq::new((i + 1) as nat, |j: int| ' '));
        }
        spans.push(Span::raw(crate::text::string_from(pad.as_slice())));
        spans.push(Span::raw(self.action.to_string()));
        spans.push(Span::raw(" = ".to_string()));
        assert(span_views(spans@) =~= seq![
            (Seq::new(indent as nat, |i: int| ' '), plain_style()),
            (self.action@, plain_style()),
            (" = "@, plain_style()),
        ]);
        let ghost head = span_views(spans@);
        let n = self.keys.len();
        for idx in 0..n
            invariant
                n == self.keys@.len(),
                span_views(spans@) == head + key_spans(self.keys@.take(idx as int), styles.utf8),
        {
            let ghost before = spans@;
            if idx > 0 {
                spans.push(Span::raw(" or ".to_string()));
            }
            let key_display = self.keys[idx];
            let text = match key_display.utf8 {
                Some(utf8) => styles.if_utf8(utf8, key_display.base),
                None => key_display.base,
            };
            spans.push(bold(text));
            proof {
                let keys = self.keys@.take(idx + 1);
                assert(keys.drop_last() =~= self.keys@.take(idx as int));
                assert(keys.last() == key_display);
                assert(key_text(key_display, styles.utf8) == text@);
                if idx > 0 {
                    assert(span_views(spans@) =~= span_views(before) + seq![(" or "@, plain_style())]
                        + seq![(text@, bold_style())]);
                } else {
                    assert(span_views(spans@) =~= span_views(before) + seq![(text@, bold_style())]);
                }
                assert(span_views(spans@) =~= head + key_spans(keys, styles.utf8));
            }
        }
        assert(self.keys@.take(n as int) =~= self.keys@);
        spans
    }
}

/// The controls that every view has: space toggles pause, `?` toggles
/// help, `q` quits.
pub fn universal_controls() -> (r: Vec<ControlDisplay>)
    ensures
        r@.len() == 3,
        r@[0].action == "toggle pause" && r@[0].keys@ == seq![KeyDisplay { base: "space", utf8: None }],
        r@[1].action == "toggle help" && r@[1].keys@ == seq![KeyDisplay { base: "?", utf8: None }],
        r@[2].action == "quit" && r@[2].keys@ == seq![KeyDisplay { base: "q", utf8: None }],
{
    vec![
        ControlDisplay::new_simple("toggle pause", "space"),
        ControlDisplay::new_simple("toggle help", "?"),
        ControlDisplay::new_simple("quit", "q"),
    ]
}

/// Whether `c` are the controls of a table view: sorting by the selected
/// column, scrolling, viewing details, inverting the order, and scrolling
/// to the top and to the bottom.
pub open spec fn is_table_controls(c: Seq<ControlDisplay>) -> bool {
    &&& c.len() == 6
    &&& c[0].action == "select column (sort)" && c[0].keys@ == seq![
        KeyDisplay { base: "left, right", utf8: Some("\u{2190}\u{2192}") },
        KeyDisplay { base: "h, l", utf8: None },
    ]
    &&& c[1].action == "scroll" && c[1].keys@ == seq![
        KeyDisplay { base: "up, down", utf8: Some("\u{2191}\u{2193}") },
        KeyDisplay { base: "k, j", utf8: None },
    ]
    &&& c[2].action == "view details" && c[2].keys@ == seq![
        KeyDisplay { base: "enter", utf8: Some("\u{21B5}") },
    ]
    &&& c[3].action == "invert sort (highest/lowest)" && c[3].keys@ == seq![
        KeyDisplay { base: "i", utf8: None },
    ]
    &&& c[4].action == "scroll to top" && c[4].keys@ == seq![
        KeyDisplay { base: "gg", utf8: None },
    ]
    &&& c[5].action == "scroll to bottom" && c[5].keys@ == seq![
        KeyDisplay { base: "G", utf8: None },
    ]
}

/// The controls of a table view.
pub fn view_controls() -> (r: Vec<ControlDisplay>)
    ensures
        is_table_controls(r@),
{
    let r = vec![
        ControlDisplay {
            action: "select column (sort)",
            keys: vec![
                KeyDisplay { base: "left, right", utf8: Some("\u{2190}\u{2192}") },
                KeyDisplay { base: "h, l", utf8: None },
            ],
        },
        ControlDisplay {
            action: "scroll",
            keys: vec![
                KeyDisplay { base: "up, down", utf8: Some("\u{2191}\u{2193}") },
                KeyDisplay { base: "k, j", utf8: None },
            ],
        },
        ControlDisplay {
            action: "view details",
            keys: vec![KeyDisplay { base: "enter", utf8: Some("\u{21B5}") }],
        },
        ControlDisplay::new_simple("invert sort (highest/lowest)", "i"),
        ControlDisplay::new_simple("scroll to top", "gg"),
        ControlDisplay::new_simple("scroll to bottom", "G"),
    ];
    proof {
        assert(r@[0].keys@ =~= seq![
            KeyDisplay { base: "left, right", utf8: Some("\u{2190}\u{2192}") },
            KeyDisplay { base: "h, l", utf8: None },
        ]);
        assert(r@[1].keys@ =~= seq![
            KeyDisplay { base: "up, down", utf8: Some("\u{2191}\u{2193}") },
            KeyDisplay { base: "k, j", utf8: None },
        ]);
        assert(r@[2].keys@ =~= seq![KeyDisplay { base: "enter", utf8: Some("\u{21B5}") }]);
    }
    r
}

/// The number of columns of the task list.
pub const TASK_COLUMNS: usize = 12;

/// Which view is shown.
#[derive(PartialEq, Eq, Structural, Clone, Copy, Debug)]
pub enum ViewState {
    /// The table of all tasks.
    TasksList,
    /// The details of one task, by its sequential ID.
    TaskInstance(u64),
    /// The table of all resources.
    ResourcesList,
    /// The details of one resource, by its sequential ID.
    ResourceInstance(u64),
}

/// What an input changed in the view.
#[derive(PartialEq, Eq, Structural, Clone, Copy, Debug)]
pub enum UpdateKind {
    /// A task was selected: the one with this span ID.
    SelectTask(u64),
    /// The task view was left.
    ExitTaskView,
    /// Nothing significant.
    Other,
}

/// The number of columns of the resource list.
pub const RESOURCE_COLUMNS: usize = 9;

/// Whether `event` is a key event for the key `code`.
pub open spec fn is_key(event: Event, code: KeyCode) -> bool {
    event matches Event::Key(k) && k.code == code
}

/// Whether the key event `event`, if it is one, was handled by the list
/// `after` (which was `before`), and any other event left it as it was.
pub open spec fn list_took<S: SortColumn>(before: TableListState<S>, after: TableListState<S>, event: Event) -> bool {
    match event {
        Event::Key(k) => after.key_handled(before, k),
        _ => after == before,
    }
}

/// The console's views: the task list and the resource list, which keep
/// their state while a task or a resource is inspected, the view shown, and
/// the styles. `t` and `r` switch to the task and the resource list; on a
/// list, enter opens the selected item; in an item's view, escape goes back
/// to its list.
pub struct View {
    pub list: TableListState<SortBy>,
    pub resources_list: TableListState<ResourceSortBy>,
    pub state: ViewState,
    pub styles: Styles,
}

/// Whether a key code is the key `c`.
fn is_char(event: &Event, c: char) -> (r: bool)
    ensures
        r == is_key(*event, KeyCode::Char(c)),
{
    match event {
        Event::Key(k) => k.code == KeyCode::Char(c),
        _ => false,
    }
}

/// Whether a key code is `code`.
fn is_code(event: &Event, code: KeyCode) -> (r: bool)
    ensures
        r == is_key(*event, code),
{
    match event {
        Event::Key(k) => k.code == code,
        _ => false,
    }
}

impl View {
    /// Whether the lists are tables of the task list's and the resource
    /// list's columns.
    pub open spec fn wf(self) -> bool {
        &&& self.list.wf()
        &&& self.list.columns == TASK_COLUMNS
        &&& self.resources_list.wf()
        &&& self.resources_list.columns == RESOURCE_COLUMNS
    }

    /// The view of a console that starts on the task list, with both lists
    /// empty and sorted by their first sort key (the task list by total
    /// time, the resource list by ID) in ascending order.
    pub fn new(styles: Styles) -> (r: Self)
        ensures
            r.wf(),
            r.state == ViewState::TasksList,
            r.styles == styles,
            r.list.sorted_items@.len() == 0,
            r.list.sort_by == SortBy::Total,
            r.list.selected_column == task_sort_column(SortBy::Total),
            r.list.selected is None,
            !r.list.sort_descending,
            r.list.last_key_event is None,
            r.resources_list.sorted_items@.len() == 0,
            r.resources_list.sort_by == ResourceSortBy::Rid,
            r.resources_list.selected_column == resource_sort_column(ResourceSortBy::Rid),
            r.resources_list.selected is None,
            !r.resources_list.sort_descending,
            r.resources_list.last_key_event is None,
    {
        View {
            state: ViewState::TasksList,
            list: TableListState::new(TASK_COLUMNS),
            resources_list: TableListState::new(RESOURCE_COLUMNS),
            styles,
        }
    }

    /// Handles an input event against the tasks and resources that `state`
    /// holds. `t` shows the task list and `r` the resource list, wherever
    /// the view is. On a list, enter opens the selected item if it still
    /// exists, and other events go to the list; in a task's or a resource's
    /// view, escape goes back to its list and other events change nothing.
    pub fn update_input(&mut self, event: Event, state: &State) -> (r: UpdateKind)
        requires
            old(self).wf(),
            old(self).list.selection_in_range(),
            old(self).resources_list.selection_in_range(),
        ensures
            final(self).wf(),
            final(self).styles == old(self).styles,
            is_key(event, KeyCode::Char('t')) ==> {
                &&& r == UpdateKind::Other
                &&& final(self).state == ViewState::TasksList
                &&& final(self).list == old(self).list
                &&& final(self).resources_list == old(self).resources_list
            },
            !is_key(event, KeyCode::Char('t')) && is_key(event, KeyCode::Char('r')) ==> {
                &&& r == UpdateKind::Other
                &&& final(self).state == ViewState::ResourcesList
                &&& final(self).list == old(self).list
                &&& final(self).resources_list == old(self).resources_list
            },
            !is_key(event, KeyCode::Char('t')) && !is_key(event, KeyCode::Char('r')) ==> match old(
                self,
            ).state {
                ViewState::TasksList => {
                    &&& final(self).resources_list == old(self).resources_list
                    &&& if is_key(event, KeyCode::Enter) {
                        final(self).list == old(self).list && match old(self).list.selected_item_spec() {
                            Some(id) if state.tasks().store().items().contains_key(id) => {
                                &&& r == UpdateKind::SelectTask(
                                    state.tasks().store().items()[id].span_id,
                                )
                                &&& final(self).state == ViewState::TaskInstance(id)
                            },
                            _ => r == UpdateKind::Other && final(self).state == ViewState::TasksList,
                        }
                    } else {
                        &&& r == UpdateKind::Other
                        &&& final(self).state == ViewState::TasksList
                        &&& list_took(old(self).list, final(self).list, event)
                    }
                },
                ViewState::ResourcesList => {
                    &&& final(self).list == old(self).list
                    &&& r == UpdateKind::Other
                    &&& if is_key(event, KeyCode::Enter) {
                        final(self).resources_list == old(self).resources_list && match old(
                            self,
                        ).resources_list.selected_item_spec() {
                            Some(id) if state.resources().store().items().contains_key(id) => {
                                final(self).state == ViewState::ResourceInstance(id)
                            },
                            _ => final(self).state == ViewState::ResourcesList,
                        }
                    } else {
                        &&& final(self).state == ViewState::ResourcesList
                        &&& list_took(old(self).resources_list, final(self).resources_list, event)
                    }
                },
                ViewState::TaskInstance(id) => {
                    &&& final(self).list == old(self).list
                    &&& final(self).resources_list == old(self).resources_list
                    &&& if is_key(event, KeyCode::Esc) {
                        r == UpdateKind::ExitTaskView && final(self).state == ViewState::TasksList
                    } else {
                        r == UpdateKind::Other && final(self).state == old(self).state
                    }
                },
                ViewState::ResourceInstance(id) => {
                    &&& final(self).list == old(self).list
                    &&& final(self).resources_list == old(self).resources_list
                    &&& r == UpdateKind::Other
                    &&& if is_key(event, KeyCode::Esc) {
                        final(self).state == ViewState::ResourcesList
                    } else {
                        final(self).state == old(self).state
                    }
                },
            },
    {
        let mut update_kind = UpdateKind::Other;
        if is_char(&event, 't') {
            self.state = ViewState::TasksList;
            return update_kind;
        }
        if is_char(&event, 'r') {
            self.state = ViewState::ResourcesList;
            return update_kind;
        }
        match self.state {
            ViewState::TasksList => {
                if is_code(&event, KeyCode::Enter) {
                    if let Some(id) = self.list.selected_item() {
                        if let Some(task) = state.tasks_state().task(Id::new(id)) {
                            update_kind = UpdateKind::SelectTask(task.span_id());
                            self.state = ViewState::TaskInstance(id);
                        }
                    }
                } else {
                    self.list.update_input(event);
                }
            },
            ViewState::ResourcesList => {
                if is_code(&event, KeyCode::Enter) {
                    if let Some(id) = self.resources_list.selected_item() {
                        if let Some(_) = state.resources_state().resource(Id::new(id)) {
                            self.state = ViewState::ResourceInstance(id);
                        }
                    }
                } else {
                    self.resources_list.update_input(event);
                }
            },
            ViewState::TaskInstance(_) => {
                if is_code(&event, KeyCode::Esc) {
                    self.state = ViewState::TasksList;
                    update_kind = UpdateKind::ExitTaskView;
                }
            },
            ViewState::ResourceInstance(_) => {
                if is_code(&event, KeyCode::Esc) {
                    self.state = ViewState::ResourcesList;
                }
            },
        }
        update_kind
    }
}


/// The width of spans: the number of characters of their texts.
pub open spec fn spans_width(spans: Seq<(Seq<char>, Style)>) -> nat
    decreases spans.len(),
{
    if spans.len() == 0 {
        0
    } else {
        spans_width(spans.drop_last()) + spans.last().0.len()
    }
}

/// The separator between controls on a line.
pub open spec fn separator() -> (Seq<char>, Style) {
    (", "@, plain_style())
}

/// The lines of the controls after the first `n` of `items` (the spans of
/// each control) are laid out in `width` characters: they start with
/// `controls: `; each control goes on the current line (after a separator)
/// if it fits or the line is empty, else the separator ends the line and
/// the control starts a new one.
pub open spec fn controls_layout(items: Seq<Seq<(Seq<char>, Style)>>, width: nat, n: int) -> Seq<
    Seq<(Seq<char>, Style)>,
>
    decreases n,
{
    if n <= 0 {
        seq![seq![("controls: "@, plain_style())]]
    } else {
        let lines = controls_layout(items, width, n - 1);
        let last = lines.len() - 1;
        let cur = lines[last];
        let item = items[n - 1];
        if n - 1 == 0 || spans_width(cur) == 0 {
            lines.update(last, cur + item)
        } else if spans_width(cur) + 2 + spans_width(item) <= width {
            lines.update(last, cur + seq![separator()] + item)
        } else {
            lines.update(last, cur.push(separator())).push(item)
        }
    }
}

/// The lines of controls laid out, and how many lines they take.
pub struct Controls {
    pub lines: Vec<Vec<Span>>,
    pub height: u16,
}

/// The text and style of lines of spans.
pub open spec fn line_views(lines: Seq<Vec<Span>>) -> Seq<Seq<(Seq<char>, Style)>> {
    lines.map_values(|l: Vec<Span>| span_views(l@))
}

/// The spans of each control, indented by `indent`.
pub open spec fn controls_spans(cs: Seq<ControlDisplay>, utf8: bool, indent: nat) -> Seq<Seq<(Seq<char>, Style)>> {
    cs.map_values(|c: ControlDisplay| control_spans(c, utf8, indent))
}

/// The total width of the spans of all items.
pub open spec fn items_width(items: Seq<Seq<(Seq<char>, Style)>>) -> nat
    decreases items.len(),
{
    if items.len() == 0 {
        0
    } else {
        items_width(items.drop_last()) + spans_width(items.last())
    }
}

proof fn lemma_spans_width_append(a: Seq<(Seq<char>, Style)>, b: Seq<(Seq<char>, Style)>)
    ensures
        spans_width(a + b) == spans_width(a) + spans_width(b),
    decreases b.len(),
{
    if b.len() == 0 {
        assert(a + b =~= a);
    } else {
        lemma_spans_width_append(a, b.drop_last());
        assert((a + b).drop_last() =~= a + b.drop_last());
    }
}

proof fn lemma_spans_width_single(x: (Seq<char>, Style))
    ensures
        spans_width(seq![x]) == x.0.len(),
{
    assert(seq![x].drop_last() =~= Seq::<(Seq<char>, Style)>::empty());
    assert(spans_width(Seq::<(Seq<char>, Style)>::empty()) == 0);
}

/// The width of the spans.
fn width_of(spans: &Vec<Span>) -> (r: u64)
    requires
        spans_width(span_views(spans@)) <= u64::MAX,
    ensures
        r == spans_width(span_views(spans@)),
{
    let mut w: u64 = 0;
    let n = spans.len();
    for i in 0..n
        invariant
            n == spans@.len(),
            spans_width(span_views(spans@)) <= u64::MAX,
            w == spans_width(span_views(spans@.take(i as int))),
    {
        proof {
            assert(span_views(spans@.take(i + 1)) =~= span_views(spans@.take(i as int)).push(
                (spans@[i as int].content@, spans@[i as int].style),
            ));
            assert(span_views(spans@.take(i + 1)).drop_last() =~= span_views(spans@.take(i as int)));
            lemma_spans_width_append(span_views(spans@.take(i + 1)), span_views(spans@.skip(i + 1)));
            assert(span_views(spans@.take(i + 1)) + span_views(spans@.skip(i + 1)) =~= span_views(spans@));
        }
        let len = crate::text::chars_of(spans[i].content.as_str()).len();
        w = w + len as u64;
    }
    assert(spans@.take(n as int) =~= spans@);
    w
}

/// Appends the spans `more` to `line`.
fn extend_spans(line: &mut Vec<Span>, more: Vec<Span>)
    ensures
        span_views(final(line)@) == span_views(old(line)@) + span_views(more@),
{
    let mut more = more;
    let ghost a = line@;
    let ghost b = more@;
    line.append(&mut more);
    assert(span_views(line@) =~= span_views(a) + span_views(b));
}

impl Controls {
    /// Lays out the controls of the view and those of every view in lines
    /// of `width` characters.
    pub fn new(view_controls: &Vec<ControlDisplay>, width: u16, styles: &Styles) -> (r: Self)
        requires
            items_width(controls_spans(view_controls@, styles.utf8, 0) + universal_spans(styles.utf8, 0))
                + 2 * view_controls@.len() + 20 <= u64::MAX,
            view_controls@.len() + 4 <= u16::MAX,
        ensures
            line_views(r.lines@) == controls_layout(
                controls_spans(view_controls@, styles.utf8, 0) + universal_spans(styles.utf8, 0),
                width as nat,
                (view_controls@.len() + 3) as int,
            ),
            r.height == r.lines@.len(),
    {
        let universal = universal_controls();
        let ghost all = view_controls@ + universal@;
        let ghost items = controls_spans(view_controls@, styles.utf8, 0) + universal_spans(styles.utf8, 0);
        proof {
            assert forall|k: int| 0 <= k < all.len() implies #[trigger] items[k] == control_spans(all[k], styles.utf8, 0) by {
                if k >= view_controls@.len() {
                    let u = k - view_controls@.len();
                    assert(all[k] == universal@[u]);
                }
            }
        }
        let mut lines: Vec<Vec<Span>> = Vec::new();
        let mut first: Vec<Span> = Vec::new();
        first.push(Span::raw("controls: ".to_string()));
        lines.push(first);
        proof {
            reveal_strlit("controls: ");
            assert(span_views(lines@[0]@) =~= seq![("controls: "@, plain_style())]);
            assert(line_views(lines@) =~= controls_layout(items, width as nat, 0));
            lemma_spans_width_single(("controls: "@, plain_style()));
        }
        let mut cur_width: u64 = 10;
        let nv = view_controls.len();
        let total = nv + universal.len();
        let mut idx: usize = 0;
        while idx < total
            invariant
                total == all.len(),
                nv == view_controls@.len(),
                universal@.len() == 3,
                all == view_controls@ + universal@,
                items.len() == all.len(),
                forall|k: int| 0 <= k < all.len() ==> #[trigger] items[k] == control_spans(all[k], styles.utf8, 0),
                idx <= total,
                lines@.len() >= 1,
                lines@.len() <= idx + 1,
                line_views(lines@) == controls_layout(items, width as nat, idx as int),
                cur_width == spans_width(line_views(lines@).last()),
                items_width(items) + 2 * nv + 20 <= u64::MAX,
                cur_width <= 10 + 2 * idx + items_width(items.take(idx as int)),
            decreases total - idx,
        {
            let c = if idx < nv {
                &view_controls[idx]
            } else {
                &universal[idx - nv]
            };
            assert(*c == all[idx as int]);
            let spans = c.into_spans(styles, 0);
            proof {
                assert(items[idx as int] == span_views(spans@));
                assert(items.take(idx + 1).drop_last() =~= items.take(idx as int));
                lemma_items_width_prefix(items, idx + 1);
            }
            let w = width_of(&spans);
            let last = lines.len() - 1;
            let ghost before = line_views(lines@);
            if idx == 0 || cur_width == 0 {
                let mut line = lines.pop().unwrap();
                extend_spans(&mut line, spans);
                lines.push(line);
                proof {
                    lemma_spans_width_append(before[last as int], items[idx as int]);
                    assert(line_views(lines@) =~= before.update(last as int, before[last as int] + items[idx as int]));
                }
                cur_width = cur_width + w;
            } else if cur_width + 2 + w <= width as u64 {
                let mut line = lines.pop().unwrap();
                assert(span_views(line@) == before[last as int]);
                let ghost l0 = line@;
                line.push(Span::raw(", ".to_string()));
                proof {
                    reveal_strlit(", ");
                    assert(span_views(line@) =~= span_views(l0).push(separator()));
                }
                extend_spans(&mut line, spans);
                assert(span_views(l0).push(separator()) =~= before[last as int] + seq![separator()]);
                assert(span_views(line@) =~= before[last as int] + seq![separator()] + items[idx as int]);
                lines.push(line);
                proof {
                    lemma_spans_width_append(before[last as int] + seq![separator()], items[idx as int]);
                    lemma_spans_width_append(before[last as int], seq![separator()]);
                    lemma_spans_width_single(separator());
                    assert(line_views(lines@) =~= before.update(
                        last as int,
                        before[last as int] + seq![separator()] + items[idx as int],
                    ));
                }
                cur_width = cur_width + 2 + w;
            } else {
                let mut line = lines.pop().unwrap();
                assert(span_views(line@) == before[last as int]);
                let ghost l0 = line@;
                line.push(Span::raw(", ".to_string()));
                proof {
                    reveal_strlit(", ");
                    assert(span_views(line@) =~= span_views(l0).push(separator()));
                }
                lines.push(line);
                lines.push(spans);
                proof {
                    assert(line_views(lines@) =~= before.update(last as int, before[last as int].push(separator())).push(
                        items[idx as int],
                    ));
                }
                cur_width = w;
            }
            idx = idx + 1;
        }
        let height = lines.len() as u16;
        Controls { lines, height }
    }
}

proof fn lemma_items_width_prefix(items: Seq<Seq<(Seq<char>, Style)>>, n: int)
    requires
        0 <= n <= items.len(),
    ensures
        items_width(items.take(n)) <= items_width(items),
        n > 0 ==> items_width(items.take(n)) == items_width(items.take(n - 1)) + spans_width(items[n - 1]),
    decreases items.len() - n,
{
    if n > 0 {
        assert(items.take(n).drop_last() =~= items.take(n - 1));
    }
    if n < items.len() {
        lemma_items_width_prefix(items, n + 1);
        assert(items.take(n + 1).drop_last() =~= items.take(n));
    } else {
        assert(items.take(n) =~= items);
    }
}

/// The spans of an action performed by one key that has no symbol.
pub open spec fn simple_control_spans(action: &'static str, key: &'static str, utf8: bool, indent: nat) -> Seq<
    (Seq<char>, Style),
> {
    seq![
        (Seq::new(indent, |i: int| ' '), plain_style()),
        (action@, plain_style()),
        (" = "@, plain_style()),
    ] + key_spans(seq![KeyDisplay { base: key, utf8: None }], utf8)
}

/// The spans of the controls that every view has.
pub open spec fn universal_spans(utf8: bool, indent: nat) -> Seq<Seq<(Seq<char>, Style)>> {
    seq![
        simple_control_spans("toggle pause", "space", utf8, indent),
        simple_control_spans("toggle help", "?", utf8, indent),
        simple_control_spans("quit", "q", utf8, indent),
    ]
}

/// The lines of the help text: `controls:`, then each control of the view
/// and of every view on a line of its own, indented by two spaces.
pub fn controls_paragraph(view_controls: &Vec<ControlDisplay>, styles: &Styles) -> (r: Vec<Vec<Span>>)
    ensures
        r@.len() == 1 + view_controls@.len() + 3,
        span_views(r@[0]@) == seq![("controls:"@, plain_style())],
        forall|i: int|
            0 <= i < view_controls@.len() ==> span_views(#[trigger] r@[1 + i]@) == control_spans(
                view_controls@[i],
                styles.utf8,
                2,
            ),
{
    let universal = universal_controls();
    let mut lines: Vec<Vec<Span>> = Vec::new();
    let mut first: Vec<Span> = Vec::new();
    first.push(Span::raw("controls:".to_string()));
    lines.push(first);
    assert(span_views(lines@[0]@) =~= seq![("controls:"@, plain_style())]);
    let n = view_controls.len();
    for i in 0..n
        invariant
            n == view_controls@.len(),
            lines@.len() == 1 + i,
            span_views(lines@[0]@) == seq![("controls:"@, plain_style())],
            forall|j: int|
                0 <= j < i ==> span_views(#[trigger] lines@[1 + j]@) == control_spans(
                    view_controls@[j],
                    styles.utf8,
                    2,
                ),
    {
        lines.push(view_controls[i].into_spans(styles, 2));
    }
    let m = universal.len();
    for i in 0..m
        invariant
            n == view_controls@.len(),
            m == universal@.len(),
            m == 3,
            lines@.len() == 1 + n + i,
            span_views(lines@[0]@) == seq![("controls:"@, plain_style())],
            forall|j: int|
                0 <= j < n ==> span_views(#[trigger] lines@[1 + j]@) == control_spans(
                    view_controls@[j],
                    styles.utf8,
                    2,
                ),
    {
        lines.push(universal[i].into_spans(styles, 2));
    }
    lines
}

} // verus!
