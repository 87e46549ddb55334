//! The contents of the resource list: the rows shown for the resources, in
//! order, the widths their columns grow to, the header and the title.
use vstd::prelude::*;
use vstd::view::View as _;
use crate::resources::{
    resource_sort_key, Resource, ResourcesState, SortBy, TypeVisibility,
};
use crate::store::Id;
use crate::styles::{fg_style_in, pad_left, plain_style, span_views, Color, Modifier, Span, Style, Styles};
use crate::table::{byte_len, cell_views, display_order, duration_cell, flattened, header_cell, header_row_style};
use crate::text::{decimal, push_decimal, string_from};
use crate::time::{elapsed, SystemTime};
use crate::view::{widened, TableListState, Width};
use crate::warnings::push_str;

verus! {

broadcast use vstd::string::group_string_axioms;

/// The widths of the columns that grow: ID, parent, kind, target, type and
/// location.
#[derive(PartialEq, Eq, Structural, Clone, Copy, Debug)]
pub struct ResourceWidths {
    pub id: u16,
    pub parent: u16,
    pub kind: u16,
    pub target: u16,
    pub concrete_type: u16,
    pub location: u16,
}

/// The widths the resource list starts from: each column as wide as its
/// header and one more.
pub open spec fn initial_resource_widths() -> ResourceWidths {
    ResourceWidths { id: 3, parent: 7, kind: 5, target: 7, concrete_type: 5, location: 9 }
}

/// The headers of the resource list.
pub open spec fn resource_header() -> Seq<Seq<char>> {
    seq!["ID"@, "Parent"@, "Kind"@, "Total"@, "Target"@, "Type"@, "Vis"@, "Location"@, "Attributes"@]
}

/// How a resource's visibility is shown.
pub open spec fn visibility_span(v: TypeVisibility, styles: Styles) -> (Seq<char>, Style) {
    match v {
        TypeVisibility::Internal => (
            if styles.utf8 {
                "\u{1F512}"@
            } else {
                "INT"@
            },
            fg_style_in(styles.palette, Color::Red),
        ),
        TypeVisibility::Public => (
            if styles.utf8 {
                "\u{2705}"@
            } else {
                "PUB"@
            },
            fg_style_in(styles.palette, Color::Green),
        ),
    }
}

/// How long the resource lived up to `now`.
pub open spec fn resource_total(r: Resource, now: SystemTime) -> nat {
    match r.stats.total {
        Some(t) => t.spec_nanos(),
        None => elapsed(now, r.stats.created_at),
    }
}

/// The cells of the row of resource `r` at `now`, given the widths of the
/// columns so far, and the widths after the row.
pub open spec fn resource_row_cells(
    r: Resource,
    w: ResourceWidths,
    styles: Styles,
    now: SystemTime,
    prec: usize,
    dur_len: usize,
) -> (Seq<Seq<(Seq<char>, Style)>>, ResourceWidths) {
    let id_text = pad_left(decimal(r.id as nat), w.id as nat);
    let cells = seq![
        seq![(id_text, plain_style())],
        seq![(r.parent_id@, plain_style())],
        seq![(r.kind@, plain_style())],
        seq![duration_cell(styles, resource_total(r, now), prec, dur_len)],
        seq![(r.target@, plain_style())],
        seq![(r.concrete_type@, plain_style())],
        seq![visibility_span(r.visibility, styles)],
        seq![(r.location@, plain_style())],
        flattened(r.stats.formatted_attributes@),
    ];
    let widths = ResourceWidths {
        id: widened(w.id as nat, byte_len(id_text)) as u16,
        parent: widened(w.parent as nat, byte_len(r.parent_id@)) as u16,
        kind: widened(w.kind as nat, byte_len(r.kind@)) as u16,
        target: widened(w.target as nat, byte_len(r.target@)) as u16,
        concrete_type: widened(w.concrete_type as nat, byte_len(r.concrete_type@)) as u16,
        location: widened(w.location as nat, byte_len(r.location@)) as u16,
    };
    (cells, widths)
}

/// The rows for the first `n` of `ids` that are still stored in `items`,
/// with the widths after them, starting from the widths `w0`.
pub open spec fn resource_rows(
    ids: Seq<u64>,
    n: int,
    items: Map<u64, Resource>,
    w0: ResourceWidths,
    styles: Styles,
    now: SystemTime,
    prec: usize,
    dur_len: usize,
) -> (Seq<(u64, Seq<Seq<(Seq<char>, Style)>>, bool)>, ResourceWidths)
    decreases n,
{
    if n <= 0 {
        (Seq::empty(), w0)
    } else {
        let prev = resource_rows(ids, n - 1, items, w0, styles, now, prec, dur_len);
        let id = ids[n - 1];
        if items.contains_key(id) {
            let r = items[id];
            let step = resource_row_cells(r, prev.1, styles, now, prec, dur_len);
            (prev.0.push((id, step.0, r.stats.total is Some)), step.1)
        } else {
            prev
        }
    }
}

/// The IDs of `ids` still stored in `items`, in order.
pub open spec fn resources_still_stored(ids: Seq<u64>, items: Map<u64, Resource>) -> Seq<u64>
    decreases ids.len(),
{
    if ids.len() == 0 {
        Seq::empty()
    } else if items.contains_key(ids.last()) {
        resources_still_stored(ids.drop_last(), items).push(ids.last())
    } else {
        resources_still_stored(ids.drop_last(), items)
    }
}

/// A row of the resource list: the resource's sequential ID, its cells, and
/// whether it is shown as dropped.
pub struct ResourceRow {
    pub id: u64,
    pub cells: Vec<Vec<Span>>,
    pub terminated: bool,
}

/// The text and style of the rows.
pub open spec fn resource_row_views(rows: Seq<ResourceRow>) -> Seq<(u64, Seq<Seq<(Seq<char>, Style)>>, bool)> {
    rows.map_values(|r: ResourceRow| (r.id, cell_views(r.cells@), r.terminated))
}

/// The contents of the resource list.
pub struct ResourcesTable {
    /// The rows, in the order shown.
    pub rows: Vec<ResourceRow>,
    /// The widths of the columns that grow.
    pub widths: ResourceWidths,
    /// The header row, and its style.
    pub header: Vec<Span>,
    pub header_style: Style,
    /// The title of the table.
    pub title: Vec<Span>,
}

/// A cell of one span.
fn one_span(s: Span) -> (r: Vec<Span>)
    ensures
        span_views(r@) == seq![(s.content@, s.style)],
{
    let mut v: Vec<Span> = Vec::new();
    v.push(s);
    assert(span_views(v@) =~= seq![(s.content@, s.style)]);
    v
}

/// The spans of the lines, one after the other.
fn flatten_lines(lines: &Vec<Vec<Span>>) -> (r: Vec<Span>)
    ensures
        span_views(r@) == flattened(lines@),
{
    let mut out: Vec<Span> = Vec::new();
    let n = lines.len();
    for i in 0..n
        invariant
            n == lines@.len(),
            span_views(out@) == flattened(lines@.take(i as int)),
    {
        let line = &lines[i];
        let m = line.len();
        let ghost before = out@;
        for j in 0..m
            invariant
                m == line@.len(),
                span_views(out@) == span_views(before) + span_views(line@.take(j as int)),
        {
            let s = Span::styled(line[j].content.clone(), line[j].style);
            let ghost prev = out@;
            out.push(s);
            assert(span_views(out@) =~= span_views(prev).push((s.content@, s.style)));
            assert(span_views(line@.take(j + 1)) =~= span_views(line@.take(j as int)).push(
                (line@[j as int].content@, line@[j as int].style),
            ));
            assert(span_views(out@) =~= span_views(before) + span_views(line@.take(j + 1)));
        }
        assert(line@.take(m as int) =~= line@);
        assert(lines@.take(i + 1).drop_last() =~= lines@.take(i as int));
    }
    assert(lines@.take(n as int) =~= lines@);
    out
}

/// The number of bytes of `s`.
fn str_byte_len(s: &String) -> (r: usize)
    ensures
        r == byte_len(s@),
{
    s.as_str().len()
}

/// The row of resource `r`, with the widths after it.
fn resource_row(r: &Resource, w: ResourceWidths, styles: &Styles, now: SystemTime, prec: usize, dur_len: usize) -> (out: (
    Vec<Vec<Span>>,
    ResourceWidths,
))
    requires
        prec <= u16::MAX,
        dur_len <= u16::MAX,
    ensures
        (cell_views(out.0@), out.1) == resource_row_cells(*r, w, *styles, now, prec, dur_len),
{
    let mut id_w = Width::new(w.id);
    let mut parent_w = Width::new(w.parent);
    let mut kind_w = Width::new(w.kind);
    let mut target_w = Width::new(w.target);
    let mut type_w = Width::new(w.concrete_type);
    let mut location_w = Width::new(w.location);
    let ghost expected = resource_row_cells(*r, w, *styles, now, prec, dur_len).0;
    let mut cells: Vec<Vec<Span>> = Vec::new();
    let mut digits: Vec<char> = Vec::new();
    push_decimal(r.id as u128, &mut digits);
    assert(digits@ =~= decimal(r.id as nat));
    let padded = crate::styles::padded_chars(digits.as_slice(), id_w.chars() as usize);
    let id_text = string_from(padded.as_slice());
    id_w.update_len(str_byte_len(&id_text));
    cells.push(one_span(Span::raw(id_text)));
    assert(span_views(cells@[0]@) == expected[0]);
    let parent = r.parent_id.to_string();
    parent_w.update_len(str_byte_len(&parent));
    cells.push(one_span(Span::raw(parent)));
    assert(span_views(cells@[1]@) == expected[1]);
    let kind = r.kind.to_string();
    kind_w.update_len(str_byte_len(&kind));
    cells.push(one_span(Span::raw(kind)));
    assert(span_views(cells@[2]@) == expected[2]);
    cells.push(one_span(styles.time_units(r.total(now), prec, Some(dur_len))));
    assert(span_views(cells@[3]@) == expected[3]);
    let target = r.target.to_string();
    target_w.update_len(str_byte_len(&target));
    cells.push(one_span(Span::raw(target)));
    assert(span_views(cells@[4]@) == expected[4]);
    let ty = r.concrete_type.to_string();
    type_w.update_len(str_byte_len(&ty));
    cells.push(one_span(Span::raw(ty)));
    assert(span_views(cells@[5]@) == expected[5]);
    cells.push(one_span(r.visibility.render(styles)));
    assert(span_views(cells@[6]@) == expected[6]);
    let location = r.location.clone();
    location_w.update_len(str_byte_len(&location));
    cells.push(one_span(Span::raw(location)));
    assert(span_views(cells@[7]@) == expected[7]);
    cells.push(flatten_lines(&r.stats.formatted_attributes));
    assert(span_views(cells@[8]@) == expected[8]);
    let widths = ResourceWidths {
        id: id_w.chars(),
        parent: parent_w.chars(),
        kind: kind_w.chars(),
        target: target_w.chars(),
        concrete_type: type_w.chars(),
        location: location_w.chars(),
    };
    proof {
        assert(cells@.len() == 9);
        assert(cell_views(cells@) =~= expected);
    }
    (cells, widths)
}

/// The rows of `ids` in order, with the widths after them.
fn build_resource_rows(
    ids: &Vec<u64>,
    state: &ResourcesState,
    styles: &Styles,
    now: SystemTime,
    prec: usize,
    dur_len: usize,
) -> (r: (Vec<ResourceRow>, ResourceWidths))
    requires
        prec <= u16::MAX,
        dur_len <= u16::MAX,
    ensures
        ({
            let t = resource_rows(ids@, ids@.len() as int, state.store().items(), initial_resource_widths(), *styles, now, prec, dur_len);
            &&& resource_row_views(r.0@) == t.0
            &&& r.1 == t.1
        }),
{
    let mut rows: Vec<ResourceRow> = Vec::new();
    let mut w = ResourceWidths { id: 3, parent: 7, kind: 5, target: 7, concrete_type: 5, location: 9 };
    let n = ids.len();
    for i in 0..n
        invariant
            n == ids@.len(),
            prec <= u16::MAX,
            dur_len <= u16::MAX,
            ({
                let t = resource_rows(ids@, i as int, state.store().items(), initial_resource_widths(), *styles, now, prec, dur_len);
                &&& resource_row_views(rows@) == t.0
                &&& w == t.1
            }),
    {
        let id = ids[i];
        match state.resource(Id::new(id)) {
            Some(res) => {
                let (cells, w2) = resource_row(res, w, styles, now, prec, dur_len);
                let ghost prev = rows@;
                let dropped = res.dropped();
                rows.push(ResourceRow { id, cells, terminated: dropped });
                assert(resource_row_views(rows@) =~= resource_row_views(prev).push((id, cell_views(cells@), dropped)));
                w = w2;
            },
            None => {},
        }
    }
    (rows, w)
}

/// The headers of the resource list.
pub fn resource_header_names() -> (r: Vec<&'static str>)
    ensures
        r@.map_values(|s: &'static str| s@) == resource_header(),
{
    let r = vec!["ID", "Parent", "Kind", "Total", "Target", "Type", "Vis", "Location", "Attributes"];
    assert(r@.map_values(|s: &'static str| s@) =~= resource_header());
    r
}

/// The header row of the resource list.
fn resource_header_row(selected: usize, descending: bool, styles: &Styles) -> (r: Vec<Span>)
    ensures
        r@.len() == 9,
        forall|i: int| 0 <= i < 9 ==> (#[trigger] r@[i].content@, r@[i].style) == header_cell(
            resource_header()[i],
            i,
            selected,
            descending,
            *styles,
        ),
{
    let names = resource_header_names();
    assert(resource_header().len() == 9);
    assert(names@.map_values(|s: &'static str| s@).len() == names@.len());
    let mut r: Vec<Span> = Vec::new();
    for i in 0..9usize
        invariant
            names@.map_values(|s: &'static str| s@) == resource_header(),
            names@.len() == 9,
            r@.len() == i,
            forall|j: int| 0 <= j < i ==> (#[trigger] r@[j].content@, r@[j].style) == header_cell(
                resource_header()[j],
                j,
                selected,
                descending,
                *styles,
            ),
    {
        let name = names[i];
        assert(name@ == resource_header()[i as int]);
        let cell = if i == selected {
            if descending {
                styles.ascending(name)
            } else {
                styles.descending(name)
            }
        } else {
            Span::raw(name.to_string())
        };
        r.push(cell);
    }
    r
}

/// The sequence of `ids` in the order shown.
fn in_display_order(ids: &Vec<u64>, descending: bool) -> (r: Vec<u64>)
    ensures
        r@ == display_order(ids@, descending),
{
    let mut r: Vec<u64> = Vec::new();
    let n = ids.len();
    if descending {
        for i in 0..n
            invariant
                n == ids@.len(),
                r@ == ids@.take(i as int),
        {
            r.push(ids[i]);
            assert(ids@.take(i + 1) =~= ids@.take(i as int).push(ids@[i as int]));
        }
        assert(ids@.take(n as int) =~= ids@);
    } else {
        for i in 0..n
            invariant
                n == ids@.len(),
                r@ == ids@.reverse().take(i as int),
        {
            r.push(ids[n - 1 - i]);
            assert(ids@.reverse().take(i + 1) =~= ids@.reverse().take(i as int).push(ids@[n - 1 - i]));
        }
        assert(ids@.reverse().take(n as int) =~= ids@.reverse());
    }
    r
}

/// Builds the resource list at `now`: the new resources join the list, the
/// list is sorted by its sort key, the rows of the resources still stored
/// are made in the order shown (growing the columns as they go), with the
/// header and the title; then the resources that are gone leave the list.
pub fn resources_table(
    list: &mut TableListState<SortBy>,
    state: &mut ResourcesState,
    styles: &Styles,
    now: SystemTime,
    prec: usize,
    dur_len: usize,
) -> (r: ResourcesTable)
    requires
        prec <= u16::MAX,
        dur_len <= u16::MAX,
        old(list).wf(),
        old(state).wf(),
    ensures
        final(list).wf(),
        final(state).wf(),
        final(state).store().items() == old(state).store().items(),
        final(state).store().new_ids() == Seq::<u64>::empty(),
        final(state).store().spec_ids() == old(state).store().spec_ids(),
        final(state).spec_dropped_events() == old(state).spec_dropped_events(),
        final(list).sort_by == old(list).sort_by,
        final(list).selected_column == old(list).selected_column,
        final(list).sort_descending == old(list).sort_descending,
        final(list).selected == old(list).selected,
        final(list).last_key_event == old(list).last_key_event,
        final(list).columns == old(list).columns,
        exists|sorted: Seq<u64>| {
            let items = old(state).store().items();
            let t = resource_rows(
                display_order(sorted, old(list).sort_descending),
                sorted.len() as int,
                items,
                initial_resource_widths(),
                *styles,
                now,
                prec,
                dur_len,
            );
            &&& #[trigger] sorted.to_multiset() == (old(list).sorted_items@ + old(state).store().new_ids()).to_multiset()
            &&& forall|i: int, j: int|
                0 <= i < j < sorted.len() ==> crate::order::key_le(
                    resource_sort_key(old(list).sort_by, items, #[trigger] sorted[i], now),
                    resource_sort_key(old(list).sort_by, items, #[trigger] sorted[j], now),
                )
            &&& final(list).sorted_items@ == resources_still_stored(sorted, items)
            &&& resource_row_views(r.rows@) == t.0
            &&& r.widths == t.1
            &&& span_views(r.title@) == seq![("Resources ("@ + decimal(sorted.len()) + ") "@, crate::view::bold_style())]
        },
        r.header@.len() == 9,
        forall|i: int|
            0 <= i < 9 ==> (#[trigger] r.header@[i].content@, r.header@[i].style) == header_cell(
                resource_header()[i],
                i,
                old(list).selected_column,
                old(list).sort_descending,
                *styles,
            ),
        r.header_style == header_row_style(*styles),
{
    let new_ids = state.take_new_resources();
    let ghost start = list.sorted_items@;
    let m = new_ids.len();
    for i in 0..m
        invariant
            m == new_ids@.len(),
            list.sorted_items@ == start + new_ids@.take(i as int).map_values(|id: Id<Resource>| id.value()),
            list.wf(),
            list.sort_by == old(list).sort_by,
            list.selected_column == old(list).selected_column,
            list.sort_descending == old(list).sort_descending,
            list.selected == old(list).selected,
            list.last_key_event == old(list).last_key_event,
            list.columns == old(list).columns,
    {
        list.sorted_items.push(new_ids[i].as_u64());
        assert(new_ids@.take(i + 1).map_values(|id: Id<Resource>| id.value()) =~= new_ids@.take(i as int).map_values(
            |id: Id<Resource>| id.value(),
        ).push(new_ids@[i as int].value()));
    }
    assert(new_ids@.take(m as int) =~= new_ids@);
    assert(list.sorted_items@ == old(list).sorted_items@ + old(state).store().new_ids());
    let sort_by = list.sort_by;
    let mut sorted = Vec::new();
    std::mem::swap(&mut sorted, &mut list.sorted_items);
    sort_by.sort(now, state, &mut sorted);
    let ghost sorted_view = sorted@;
    let display = in_display_order(&sorted, list.sort_descending);
    let (rows, widths) = build_resource_rows(&display, state, styles, now, prec, dur_len);
    let header = resource_header_row(list.selected_column, list.sort_descending, styles);
    let base = if styles.color(Color::Cyan).is_some() {
        Style::plain()
    } else {
        Style::plain().add_modifier(Modifier::reversed())
    };
    let header_style = base.add_modifier(Modifier::bold());
    let mut text: Vec<char> = Vec::new();
    push_str(&mut text, "Resources (");
    push_decimal(sorted.len() as u128, &mut text);
    push_str(&mut text, ") ");
    let title_text = string_from(text.as_slice());
    let mut title: Vec<Span> = Vec::new();
    title.push(crate::view::bold(title_text.as_str()));
    let mut kept: Vec<u64> = Vec::new();
    let n = sorted.len();
    for i in 0..n
        invariant
            n == sorted@.len(),
            kept@ == resources_still_stored(sorted@.take(i as int), state.store().items()),
    {
        assert(sorted@.take(i + 1).drop_last() =~= sorted@.take(i as int));
        if state.resource(Id::new(sorted[i])).is_some() {
            kept.push(sorted[i]);
        }
    }
    assert(sorted@.take(n as int) =~= sorted@);
    list.sorted_items = kept;
    proof {
        assert(display@.len() == sorted_view.len());
        assert(span_views(title@) =~= seq![("Resources ("@ + decimal(sorted_view.len()) + ") "@, crate::view::bold_style())]);
    }
    ResourcesTable { rows, widths, header, header_style, title }
}

} // verus!
