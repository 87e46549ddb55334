//! The view of one resource: its overview and the controls of the view.
use vstd::prelude::*;
use crate::resource_table::visibility_span;
use crate::resources::Resource;
use crate::styles::{plain_style, span_views, Span, Style, Styles};
use crate::task_view::{bold_span, raw_span, task_view_controls};
use crate::view::{bold, bold_style, line_views, view_controls, ControlDisplay, KeyDisplay};

verus! {

/// The overview of resource `r`: its ID, its parent's ID, its kind, its
/// target, its type and whether the type is public, and its location.
pub open spec fn resource_overview_lines(r: Resource, styles: Styles) -> Seq<Seq<(Seq<char>, Style)>> {
    seq![
        seq![bold_span("ID: "@), raw_span(r.id_str@)],
        seq![bold_span("Parent ID: "@), raw_span(r.parent@)],
        seq![bold_span("Kind: "@), raw_span(r.kind@)],
        seq![bold_span("Target: "@), raw_span(r.target@)],
        seq![
            bold_span("Type: "@),
            raw_span(r.concrete_type@),
            raw_span(" "@),
            visibility_span(r.visibility, styles),
        ],
        seq![bold_span("Location: "@), raw_span(r.location@)],
    ]
}

/// The overview of `resource`.
pub fn resource_overview(resource: &Resource, styles: &Styles) -> (r: Vec<Vec<Span>>)
    ensures
        line_views(r@) == resource_overview_lines(*resource, *styles),
{
    let mut lines: Vec<Vec<Span>> = Vec::new();
    let l0 = vec![bold("ID: "), Span::raw(resource.id_str.to_string())];
    let l1 = vec![bold("Parent ID: "), Span::raw(resource.parent.to_string())];
    let l2 = vec![bold("Kind: "), Span::raw(resource.kind.to_string())];
    let l3 = vec![bold("Target: "), Span::raw(resource.target.to_string())];
    let l4 = vec![
        bold("Type: "),
        Span::raw(resource.concrete_type.to_string()),
        Span::raw(" ".to_string()),
        resource.visibility.render(styles),
    ];
    let l5 = vec![bold("Location: "), Span::raw(resource.location.clone())];
    let ghost want = resource_overview_lines(*resource, *styles);
    proof {
        assert(span_views(l0@) =~= want[0]);
        assert(span_views(l1@) =~= want[1]);
        assert(span_views(l2@) =~= want[2]);
        assert(span_views(l3@) =~= want[3]);
        assert(span_views(l4@) =~= want[4]);
        assert(span_views(l5@) =~= want[5]);
    }
    lines.push(l0);
    lines.push(l1);
    lines.push(l2);
    lines.push(l3);
    lines.push(l4);
    lines.push(l5);
    proof {
        assert(line_views(lines@) =~= want);
    }
    lines
}

/// The controls of the resource view: escape returns to the list, and the
/// controls of its table of async operations.
pub fn resource_view_controls() -> (r: Vec<ControlDisplay>)
    ensures
        r@.len() == 7,
        r@[0].action == "return to task list",
        r@[0].keys@ == seq![KeyDisplay { base: "esc", utf8: Some("\u{238B} esc") }],
        crate::view::is_table_controls(r@.skip(1)),
{
    let mut r = task_view_controls();
    let mut table = view_controls();
    let ghost first = r@;
    let ghost rest = table@;
    r.append(&mut table);
    assert(r@.skip(1) =~= rest);
    r
}

} // verus!
