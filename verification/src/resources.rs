//! Resources of the observed program (timers, locks, channels...): how the
//! console takes them in from updates, keeps their statistics, and drops
//! them once they have been gone for long enough.
use vstd::prelude::*;
use crate::fields::{
    accepted_field, attribute_named, attribute_spans, field_from, push_attribute_names, Attribute, Field,
    Metadata, ProtoField,
};
use crate::intern::{holds_text, push_text, InternedStr, Strings};
use crate::location::{format_location, formatted_location, Location};
use crate::order::le_of;
use crate::store::{
    insert_all, last_with_key, lemma_insert_all_lookup, Id, Ids, SpanId, Store, Visibility,
};
use crate::styles::{fg_style_in, span_views, Color, Span, Style, Styles};
use crate::tasks::{next_number, total_of};
use crate::text::{decimal, push_decimal, string_from};
use crate::time::{elapsed, Duration, SystemTime};
use crate::view::SortColumn;
use std::collections::HashMap;
use vstd::relations::sorted_by;
use vstd::std_specs::iter::IteratorSpec;

verus! {

broadcast use vstd::string::group_string_axioms;

/// The number that the wire format gives the known resource kind `Timer`.
pub const KNOWN_KIND_TIMER: i32 = 0;

/// The kind of a resource as the observed program sends it: a known kind,
/// by its number, or a name.
pub enum KindValue {
    Known(i32),
    Other(String),
}

/// A field of a resource's statistics as the observed program sends it.
pub struct ProtoAttribute {
    pub field: Option<ProtoField>,
    pub unit: Option<String>,
}

/// Statistics of a resource as the observed program sends them.
pub struct RawResourceStats {
    pub created_at: Option<SystemTime>,
    pub dropped_at: Option<SystemTime>,
    pub attributes: Vec<ProtoAttribute>,
}

/// A resource as the observed program announces it.
pub struct NewResource {
    pub id: Option<u64>,
    pub parent_resource_id: Option<u64>,
    pub kind: Option<KindValue>,
    pub metadata: Option<u64>,
    pub concrete_type: String,
    pub location: Option<Location>,
    pub is_internal: bool,
}

/// An update of the resources: the new ones, the statistics of new and
/// known ones (by span ID), and the number of events dropped.
pub struct ResourceUpdate {
    pub new_resources: Vec<NewResource>,
    pub stats_update: HashMap<u64, RawResourceStats>,
    pub dropped_events: u64,
}

/// Whether a resource's type is public or internal to its crate.
#[derive(PartialEq, Eq, Structural, Clone, Copy, Debug)]
pub enum TypeVisibility {
    Public,
    Internal,
}

/// Statistics of a resource.
pub struct ResourceStats {
    pub created_at: SystemTime,
    pub dropped_at: Option<SystemTime>,
    pub total: Option<Duration>,
    /// The attributes, in the order they are shown.
    pub attributes: Vec<Attribute>,
    /// How each attribute is shown.
    pub formatted_attributes: Vec<Vec<Span>>,
}

/// A resource.
pub struct Resource {
    /// The number of the resource's pretty (console-generated, sequential) ID.
    pub id: u64,
    /// The span ID of the resource in the observed program.
    pub span_id: SpanId,
    pub id_str: InternedStr,
    pub parent: InternedStr,
    pub parent_id: InternedStr,
    pub meta_id: u64,
    pub kind: InternedStr,
    pub stats: ResourceStats,
    pub target: InternedStr,
    pub concrete_type: InternedStr,
    pub location: String,
    pub visibility: TypeVisibility,
}

/// Whether the statistics `pb` say when the resource's span was created.
pub open spec fn raw_created(pb: RawResourceStats) -> bool {
    pb.created_at is Some
}

/// The duration in nanoseconds, if there is one.
pub open spec fn opt_nanos(d: Option<Duration>) -> Option<nat> {
    match d {
        Some(d) => Some(d.spec_nanos()),
        None => None,
    }
}

/// Whether `pb` gives an attribute under `meta`: it has a field, which
/// `meta` accepts.
pub open spec fn accepted_attribute(pb: ProtoAttribute, meta: Metadata) -> bool {
    pb.field matches Some(f) && accepted_field(f, meta)
}

/// The indices, in order, of the first `upto` attributes of `pbs` that give
/// an attribute.
pub open spec fn accepted_attributes(pbs: Seq<ProtoAttribute>, meta: Metadata, upto: int) -> Seq<int>
    decreases upto,
{
    if upto <= 0 {
        Seq::empty()
    } else if accepted_attribute(pbs[upto - 1], meta) {
        accepted_attributes(pbs, meta, upto - 1).push(upto - 1)
    } else {
        accepted_attributes(pbs, meta, upto - 1)
    }
}

/// Whether `attrs` are the attributes that `pbs` give under `meta`, in
/// order.
pub open spec fn attributes_from(pbs: Seq<ProtoAttribute>, meta: Metadata, attrs: Seq<Attribute>) -> bool {
    let idx = accepted_attributes(pbs, meta, pbs.len() as int);
    &&& attrs.len() == idx.len()
    &&& forall|i: int|
        0 <= i < attrs.len() ==> field_from(pbs[idx[i]].field.unwrap(), meta, #[trigger] attrs[i].field)
            && attrs[i].unit == pbs[idx[i]].unit
}

/// Whether `s` holds the statistics that `pb` sends under `meta`: the total
/// time runs from creation to the drop, and the attributes are those sent,
/// sorted and shown in `styles`.
pub open spec fn resource_stats_from(pb: RawResourceStats, meta: Metadata, styles: Styles, s: ResourceStats) -> bool {
    &&& s.created_at == pb.created_at.unwrap()
    &&& s.dropped_at == pb.dropped_at
    &&& opt_nanos(s.total) == total_of(s.created_at, s.dropped_at)
    &&& exists|a: Seq<Attribute>|
        attributes_from(pb.attributes@, meta, a) && #[trigger] a.to_multiset() == s.attributes@.to_multiset()
    &&& sorted_by(s.attributes@, le_of::<Attribute>())
    &&& s.formatted_attributes@.len() == s.attributes@.len()
    &&& forall|i: int|
        0 <= i < s.attributes@.len() ==> span_views(#[trigger] s.formatted_attributes@[i]@)
            == attribute_spans(styles, s.attributes@[i])
}

/// The attributes that `pbs` give under `meta`, in order.
fn attributes_from_proto(pbs: Vec<ProtoAttribute>, meta: &Metadata, strings: &mut Strings) -> (r: Vec<Attribute>)
    ensures
        attributes_from(pbs@, *meta, r@),
        old(strings)@.subset_of(final(strings)@),
{
    let ghost orig = pbs@;
    let ghost total = orig.len();
    let mut rest = crate::store::reversed(pbs);
    let mut out: Vec<Attribute> = Vec::new();
    while rest.len() > 0
        invariant
            rest@.len() <= total,
            total == orig.len(),
            rest@ == orig.reverse().take(rest@.len() as int),
            out@.len() == accepted_attributes(orig, *meta, total - rest@.len()).len(),
            forall|i: int|
                0 <= i < out@.len() ==> field_from(
                    orig[accepted_attributes(orig, *meta, total - rest@.len())[i]].field.unwrap(),
                    *meta,
                    #[trigger] out@[i].field,
                ) && out@[i].unit == orig[accepted_attributes(orig, *meta, total - rest@.len())[i]].unit,
            old(strings)@.subset_of(strings@),
        decreases rest.len(),
    {
        let ghost done = total - rest@.len();
        let pb = rest.pop().unwrap();
        assert(orig[done] == pb) by {
            assert(orig.reverse()[rest@.len() as int] == orig[total - 1 - rest@.len()]);
        }
        assert(rest@ =~= orig.reverse().take(rest@.len() as int));
        let ghost prev = out@;
        let ProtoAttribute { field, unit } = pb;
        match field {
            Some(f) => {
                let ghost before = strings@;
                match Field::from_proto(f, meta, strings) {
                    Some(field) => {
                        out.push(Attribute { field, unit });
                        assert forall|i: int|
                            0 <= i < out@.len() implies field_from(
                                orig[accepted_attributes(orig, *meta, done + 1)[i]].field.unwrap(),
                                *meta,
                                #[trigger] out@[i].field,
                            ) && out@[i].unit == orig[accepted_attributes(orig, *meta, done + 1)[i]].unit by {
                            if i < prev.len() {
                                assert(out@[i] == prev[i]);
                            }
                        }
                    },
                    None => {},
                }
                assert(before.subset_of(strings@));
            },
            None => {},
        }
    }
    out
}

impl ResourceStats {
    /// The statistics that `pb` sends under `meta`, with the attributes
    /// sorted and shown in `styles`. A resource's span must have been
    /// created.
    pub fn from_raw(pb: RawResourceStats, meta: &Metadata, styles: &Styles, strings: &mut Strings) -> (r: Self)
        requires
            pb.created_at is Some,
        ensures
            resource_stats_from(pb, *meta, *styles, r),
            old(strings)@.subset_of(final(strings)@),
    {
        let ghost spb = pb;
        let RawResourceStats { created_at, dropped_at, attributes } = pb;
        let mut attributes = attributes_from_proto(attributes, meta, strings);
        let ghost unsorted = attributes@;
        let formatted_attributes = Attribute::make_formatted(styles, &mut attributes);
        let created_at = created_at.unwrap();
        let total = match dropped_at {
            Some(d) => Some(d.elapsed_since(&created_at)),
            None => None,
        };
        ResourceStats { created_at, dropped_at, total, attributes, formatted_attributes }
    }
}

/// What the kind of a resource is called, or the error for a known kind the
/// console does not know.
pub open spec fn kind_text(pb: KindValue) -> Result<Seq<char>, Seq<char>> {
    match pb {
        KindValue::Known(k) => if k == KNOWN_KIND_TIMER {
            Ok("Timer"@)
        } else {
            Err("failed to parse known kind from "@ + crate::fields::value_text(
                crate::fields::FieldValue::I64(k as i64),
            ))
        },
        KindValue::Other(s) => Ok(s@),
    }
}

/// The kind of a resource, interned.
pub fn kind_from_proto(pb: KindValue, strings: &mut Strings) -> (r: Result<InternedStr, String>)
    ensures
        match (r, kind_text(pb)) {
            (Ok(k), Ok(t)) => k@ == t,
            (Err(e), Err(t)) => e@ == t,
            _ => false,
        },
        old(strings)@.subset_of(final(strings)@),
{
    match pb {
        KindValue::Known(k) => {
            if k == KNOWN_KIND_TIMER {
                Ok(strings.string("Timer".to_string()))
            } else {
                let mut out: Vec<char> = Vec::new();
                crate::warnings::push_str(&mut out, "failed to parse known kind from ");
                let n = crate::fields::FieldValue::I64(k as i64).to_string();
                crate::warnings::push_str(&mut out, n.as_str());
                Err(string_from(out.as_slice()))
            }
        },
        KindValue::Other(other) => Ok(strings.string(other)),
    }
}

/// How a resource is described as the parent of another: its ID, then its
/// target and type.
pub open spec fn parent_desc(p: Resource) -> Seq<char> {
    decimal(p.id as nat) + " ("@ + p.target@ + "::"@ + p.concrete_type@ + ")"@
}

/// The stored resources that the first `n` announcements of `news` name as
/// parents, by their sequential ID, with their descriptions (a later one
/// wins).
pub open spec fn parents_upto(
    news: Seq<NewResource>,
    n: int,
    items: Map<u64, Resource>,
    assigned: Map<u64, u64>,
) -> Map<u64, Seq<char>>
    decreases n,
{
    if n <= 0 {
        Map::empty()
    } else {
        let m = parents_upto(news, n - 1, items, assigned);
        match news[n - 1].parent_resource_id {
            Some(ps) => if assigned.contains_key(ps) && items.contains_key(assigned[ps]) {
                m.insert(items[assigned[ps]].id, parent_desc(items[assigned[ps]]))
            } else {
                m
            },
            None => m,
        }
    }
}

/// Whether the announcement `nr` is taken in: it names metadata that is
/// known and a kind that can be read, and it has a span ID whose statistics
/// are at hand.
pub open spec fn res_admitted(
    nr: NewResource,
    metas: Map<u64, Metadata>,
    stats: Map<u64, RawResourceStats>,
) -> bool {
    &&& nr.metadata is Some
    &&& metas.contains_key(nr.metadata.unwrap())
    &&& nr.kind is Some
    &&& kind_text(nr.kind.unwrap()) is Ok
    &&& nr.id is Some
    &&& stats.contains_key(nr.id.unwrap())
}

/// The statistics not yet used after the first `n` announcements of `news`
/// were taken in, starting from `stats0`.
pub open spec fn res_stats_after(
    news: Seq<NewResource>,
    n: int,
    metas: Map<u64, Metadata>,
    stats0: Map<u64, RawResourceStats>,
) -> Map<u64, RawResourceStats>
    decreases n,
{
    if n <= 0 {
        stats0
    } else {
        let m = res_stats_after(news, n - 1, metas, stats0);
        if res_admitted(news[n - 1], metas, m) {
            m.remove(news[n - 1].id.unwrap())
        } else {
            m
        }
    }
}

/// Whether the announcement at index `i` of `news` is taken in.
pub open spec fn res_admitted_at(
    news: Seq<NewResource>,
    i: int,
    metas: Map<u64, Metadata>,
    stats0: Map<u64, RawResourceStats>,
) -> bool {
    res_admitted(news[i], metas, res_stats_after(news, i, metas, stats0))
}

/// The sequential IDs and the next number after `span` gets one, if it has
/// none yet.
pub open spec fn assign(a: Map<u64, u64>, nx: u64, span: u64) -> (Map<u64, u64>, u64) {
    if a.contains_key(span) {
        (a, nx)
    } else {
        (a.insert(span, nx), next_number(nx))
    }
}

/// The sequential IDs given (by span ID) and the next number, after the first
/// `n` announcements of `news` were taken in: each one taken in gets an ID,
/// and then so does its parent.
pub open spec fn res_ids_after(
    news: Seq<NewResource>,
    n: int,
    metas: Map<u64, Metadata>,
    stats0: Map<u64, RawResourceStats>,
    assigned0: Map<u64, u64>,
    next0: u64,
) -> (Map<u64, u64>, u64)
    decreases n,
{
    if n <= 0 {
        (assigned0, next0)
    } else {
        let (a, nx) = res_ids_after(news, n - 1, metas, stats0, assigned0, next0);
        if res_admitted_at(news, n - 1, metas, stats0) {
            let (a1, n1) = assign(a, nx, news[n - 1].id.unwrap());
            match news[n - 1].parent_resource_id {
                Some(p) => assign(a1, n1, p),
                None => (a1, n1),
            }
        } else {
            (a, nx)
        }
    }
}

/// The sequential ID of the resource announced at index `i` of `news`.
pub open spec fn res_id_of(
    news: Seq<NewResource>,
    i: int,
    metas: Map<u64, Metadata>,
    stats0: Map<u64, RawResourceStats>,
    assigned0: Map<u64, u64>,
    next0: u64,
) -> u64 {
    res_ids_after(news, i + 1, metas, stats0, assigned0, next0).0[news[i].id.unwrap()]
}

/// The sequential IDs of the first `n` announcements of `news` that are
/// taken in, in order.
pub open spec fn res_admitted_ids(
    news: Seq<NewResource>,
    n: int,
    metas: Map<u64, Metadata>,
    stats0: Map<u64, RawResourceStats>,
    assigned0: Map<u64, u64>,
    next0: u64,
) -> Seq<u64>
    decreases n,
{
    if n <= 0 {
        Seq::empty()
    } else if res_admitted_at(news, n - 1, metas, stats0) {
        res_admitted_ids(news, n - 1, metas, stats0, assigned0, next0).push(
            res_id_of(news, n - 1, metas, stats0, assigned0, next0),
        )
    } else {
        res_admitted_ids(news, n - 1, metas, stats0, assigned0, next0)
    }
}

/// The last of the first `upto` announcements of `news` that is taken in
/// with sequential ID `k`.
pub open spec fn res_last_built(
    news: Seq<NewResource>,
    k: u64,
    upto: int,
    metas: Map<u64, Metadata>,
    stats0: Map<u64, RawResourceStats>,
    assigned0: Map<u64, u64>,
    next0: u64,
) -> Option<int>
    decreases upto,
{
    if upto <= 0 {
        None
    } else if res_admitted_at(news, upto - 1, metas, stats0) && res_id_of(
        news,
        upto - 1,
        metas,
        stats0,
        assigned0,
        next0,
    ) == k {
        Some(upto - 1)
    } else {
        res_last_built(news, k, upto - 1, metas, stats0, assigned0, next0)
    }
}

/// The text that names a parent: its description if it was stored, else
/// its ID; `n/a` without a parent.
pub open spec fn parent_text(parent: Option<u64>, parents: Map<u64, Seq<char>>) -> Seq<char> {
    match parent {
        Some(pid) => if parents.contains_key(pid) {
            parents[pid]
        } else {
            decimal(pid as nat)
        },
        None => "n/a"@,
    }
}

/// The text of a parent's ID: the ID, or `n/a` without a parent.
pub open spec fn parent_id_text(parent: Option<u64>) -> Seq<char> {
    match parent {
        Some(pid) => decimal(pid as nat),
        None => "n/a"@,
    }
}

/// Whether `r` is the resource built from the announcement `nr` under the
/// metadata `meta` (with ID `meta_id`), with sequential ID `id`, span ID
/// `span`, statistics `raw`, and parent `parent` (by sequential ID) which
/// `parents` may describe.
#[verifier::opaque]
pub open spec fn resource_built(
    r: Resource,
    nr: NewResource,
    meta: Metadata,
    meta_id: u64,
    id: u64,
    span: u64,
    raw: RawResourceStats,
    parent: Option<u64>,
    parents: Map<u64, Seq<char>>,
    styles: Styles,
) -> bool {
    &&& r.id == id
    &&& r.span_id == span
    &&& r.id_str@ == decimal(id as nat)
    &&& r.parent@ == parent_text(parent, parents)
    &&& r.parent_id@ == parent_id_text(parent)
    &&& r.meta_id == meta_id
    &&& kind_text(nr.kind.unwrap()) == Ok::<Seq<char>, Seq<char>>(r.kind@)
    &&& resource_stats_from(raw, meta, styles, r.stats)
    &&& r.target@ == meta.target@
    &&& r.concrete_type@ == nr.concrete_type@
    &&& r.location@ == formatted_location(nr.location)
    &&& r.visibility == if nr.is_internal {
        TypeVisibility::Internal
    } else {
        TypeVisibility::Public
    }
}

/// Whether `r` is the resource built from the announcement at index `i` of
/// `news`.
pub open spec fn res_built_at(
    r: Resource,
    news: Seq<NewResource>,
    i: int,
    metas: Map<u64, Metadata>,
    stats0: Map<u64, RawResourceStats>,
    assigned0: Map<u64, u64>,
    next0: u64,
    parents: Map<u64, Seq<char>>,
    styles: Styles,
) -> bool {
    let nr = news[i];
    let span = nr.id.unwrap();
    let ids = res_ids_after(news, i + 1, metas, stats0, assigned0, next0).0;
    resource_built(
        r,
        nr,
        metas[nr.metadata.unwrap()],
        nr.metadata.unwrap(),
        ids[span],
        span,
        res_stats_after(news, i, metas, stats0)[span],
        match nr.parent_resource_id {
            Some(p) => Some(ids[p]),
            None => None,
        },
        parents,
        styles,
    )
}

/// The pairs of sequential ID numbers and resources.
pub open spec fn resource_pairs(built: Seq<(Id<Resource>, Resource)>) -> Seq<(u64, Resource)> {
    built.map_values(|p: (Id<Resource>, Resource)| (p.0.value(), p.1))
}

/// Whether `b` is `a` with other statistics.
pub open spec fn same_but_resource_stats(a: Resource, b: Resource) -> bool {
    &&& a.id == b.id
    &&& a.span_id == b.span_id
    &&& a.id_str == b.id_str
    &&& a.parent == b.parent
    &&& a.parent_id == b.parent_id
    &&& a.meta_id == b.meta_id
    &&& a.kind == b.kind
    &&& a.target == b.target
    &&& a.concrete_type == b.concrete_type
    &&& a.location == b.location
    &&& a.visibility == b.visibility
}

/// Whether the resource `after` is `before` updated with the statistics
/// `stats` (by span ID) of a resource whose sequential ID is `k`, under the
/// span IDs `assigned`, when its metadata is in `metas`: some span ID of
/// `stats` belongs to `k`, and `after` holds the statistics of one such
/// span ID; otherwise `after` is `before`.
pub open spec fn resource_stats_applied(
    before: Resource,
    after: Resource,
    k: u64,
    stats: Map<u64, RawResourceStats>,
    assigned: Map<u64, u64>,
    metas: Map<u64, Metadata>,
    styles: Styles,
) -> bool {
    if metas.contains_key(before.meta_id) && exists|s: u64|
        #[trigger] stats.contains_key(s) && assigned.contains_key(s) && assigned[s] == k {
        exists|s: u64|
            #[trigger] stats.contains_key(s) && assigned.contains_key(s) && assigned[s] == k
                && resource_stats_from(stats[s], metas[before.meta_id], styles, after.stats)
                && same_but_resource_stats(before, after)
    } else {
        after == before
    }
}

proof fn lemma_resource_stats_applied_extend(
    before: Resource,
    after: Resource,
    k: u64,
    p0: Map<u64, RawResourceStats>,
    span: u64,
    raw: RawResourceStats,
    a: Map<u64, u64>,
    metas: Map<u64, Metadata>,
    styles: Styles,
)
    requires
        resource_stats_applied(before, after, k, p0, a, metas, styles),
        !p0.contains_key(span),
        !a.contains_key(span) || a[span] != k,
    ensures
        resource_stats_applied(before, after, k, p0.insert(span, raw), a, metas, styles),
{
    let p1 = p0.insert(span, raw);
    if metas.contains_key(before.meta_id) && exists|s: u64|
        #[trigger] p1.contains_key(s) && a.contains_key(s) && a[s] == k {
        let s1 = choose|s: u64| #[trigger] p1.contains_key(s) && a.contains_key(s) && a[s] == k;
        assert(p0.contains_key(s1));
        let s0 = choose|s: u64|
            #[trigger] p0.contains_key(s) && a.contains_key(s) && a[s] == k && resource_stats_from(
                p0[s],
                metas[before.meta_id],
                styles,
                after.stats,
            ) && same_but_resource_stats(before, after);
        assert(p1.contains_key(s0) && p1[s0] == p0[s0]);
    } else if metas.contains_key(before.meta_id) {
        assert forall|s: u64| #[trigger] p0.contains_key(s) && a.contains_key(s) implies a[s] != k by {
            assert(p1.contains_key(s));
        }
    }
}

/// The statistics left after taking in resources are some of those given.
proof fn lemma_res_stats_after_sub(
    news: Seq<NewResource>,
    n: int,
    metas: Map<u64, Metadata>,
    stats0: Map<u64, RawResourceStats>,
    k: u64,
)
    ensures
        res_stats_after(news, n, metas, stats0).contains_key(k) ==> stats0.contains_key(k)
            && res_stats_after(news, n, metas, stats0)[k] == stats0[k],
    decreases n,
{
    if n > 0 {
        lemma_res_stats_after_sub(news, n - 1, metas, stats0, k);
    }
}

/// Whether `r` is what key `k` held after the announced resources were taken
/// in: the resource last built under `k`, or else the one that was stored.
pub open spec fn admitted_resource(
    r: Resource,
    k: u64,
    old_items: Map<u64, Resource>,
    news: Seq<NewResource>,
    metas: Map<u64, Metadata>,
    stats0: Map<u64, RawResourceStats>,
    assigned0: Map<u64, u64>,
    next0: u64,
    styles: Styles,
) -> bool {
    match res_last_built(news, k, news.len() as int, metas, stats0, assigned0, next0) {
        Some(i) => res_built_at(
            r,
            news,
            i,
            metas,
            stats0,
            assigned0,
            next0,
            parents_upto(news, news.len() as int, old_items, assigned0),
            styles,
        ),
        None => r == old_items[k],
    }
}

/// Whether a resource is still shown at `now` when dropped resources are
/// kept for `retain_for`: it was not dropped, or was dropped less than
/// `retain_for` ago.
pub open spec fn resource_retained(r: Resource, now: SystemTime, retain_for: Duration) -> bool {
    match r.stats.dropped_at {
        Some(d) => retain_for.spec_nanos() > elapsed(now, d),
        None => true,
    }
}

/// Whether the kind `pb` can be read.
fn kind_readable(pb: &KindValue) -> (r: bool)
    ensures
        r == kind_text(*pb) is Ok,
{
    match pb {
        KindValue::Known(k) => *k == KNOWN_KIND_TIMER,
        KindValue::Other(_) => true,
    }
}

/// Builds the resource that `nr` announces, under the metadata `meta` (with
/// ID `meta_id`), with span ID `span_id` and statistics `raw`: it gets a
/// sequential ID from `ids`, and so does its parent; `parents` describes
/// the parents that were stored.
fn build_resource(
    nr: NewResource,
    meta: &Metadata,
    meta_id: u64,
    span_id: u64,
    raw: RawResourceStats,
    ids: &mut Ids<Resource>,
    parents: &Vec<(u64, String)>,
    styles: &Styles,
    strings: &mut Strings,
) -> (r: (Id<Resource>, Resource))
    requires
        raw.created_at is Some,
        nr.kind matches Some(k) && kind_text(k) is Ok,
    ensures
        (final(ids).assigned(), final(ids).next_id()) == ({
            let (a1, n1) = assign(old(ids).assigned(), old(ids).next_id(), span_id);
            match nr.parent_resource_id {
                Some(p) => assign(a1, n1, p),
                None => (a1, n1),
            }
        }),
        old(ids).distinct() && old(ids).next_id() < u64::MAX - 1 ==> final(ids).distinct(),
        r.0.value() == final(ids).assigned()[span_id],
        resource_built(
            r.1,
            nr,
            *meta,
            meta_id,
            final(ids).assigned()[span_id],
            span_id,
            raw,
            match nr.parent_resource_id {
                Some(p) => Some(final(ids).assigned()[p]),
                None => None,
            },
            list_map(parents@),
            *styles,
        ),
        old(strings)@.subset_of(final(strings)@),
{
    let ghost snr = nr;
    let NewResource { id: _, parent_resource_id, kind, metadata: _, concrete_type, location, is_internal } = nr;
    let kind = match kind_from_proto(kind.unwrap(), strings) {
        Ok(kind) => kind,
        Err(_) => {
            assert(false);
            return (Id::new(0), Resource {
                id: 0,
                span_id,
                id_str: strings.string(String::new()),
                parent: strings.string(String::new()),
                parent_id: strings.string(String::new()),
                meta_id,
                kind: strings.string(String::new()),
                stats: ResourceStats::from_raw(raw, meta, styles, strings),
                target: meta.target.clone(),
                concrete_type: strings.string(String::new()),
                location: String::new(),
                visibility: TypeVisibility::Public,
            });
        },
    };
    let rstats = ResourceStats::from_raw(raw, meta, styles, strings);
    // remap the server's ID to a pretty, sequential resource ID
    let id = ids.id_for(span_id);
    let ghost mid = *ids;
    let parent_id = match parent_resource_id {
        Some(p) => Some(ids.id_for(p)),
        None => None,
    };
    assert(ids.assigned()[span_id] == id.value());
    let parent_s = match parent_id {
        Some(pid) => match find_parent(parents, pid.as_u64()) {
            Some(t) => t.clone(),
            None => crate::text::decimal_string(pid.as_u64() as u128),
        },
        None => "n/a".to_string(),
    };
    proof {
        if let Some(pid) = parent_id {
            lemma_list_map_lookup(parents@, pid.value());
        }
    }
    let parent = strings.string(parent_s);
    let parent_id_s = match parent_id {
        Some(pid) => crate::text::decimal_string(pid.as_u64() as u128),
        None => "n/a".to_string(),
    };
    let parent_id_str = strings.string(parent_id_s);
    let location = format_location(location);
    let visibility = if is_internal {
        TypeVisibility::Internal
    } else {
        TypeVisibility::Public
    };
    let id_str = strings.string(crate::text::decimal_string(id.as_u64() as u128));
    let concrete_type = strings.string(concrete_type);
    let resource = Resource {
        id: id.as_u64(),
        span_id,
        id_str,
        parent,
        parent_id: parent_id_str,
        meta_id,
        kind,
        stats: rstats,
        target: meta.target.clone(),
        concrete_type,
        location,
        visibility,
    };
    proof {
        reveal(resource_built);
    }
    (id, resource)
}

/// The resources of the console.
pub struct ResourcesState {
    resources: Store<Resource>,
    dropped_events: u64,
}

/// The description recorded for the parent with sequential ID `id` in
/// `parents`: the last one recorded.
fn find_parent(parents: &Vec<(u64, String)>, id: u64) -> (r: Option<&String>)
    ensures
        match r {
            Some(t) => exists|i: int|
                0 <= i < parents@.len() && parents@[i].0 == id && t@ == parents@[i].1@ && forall|j: int|
                    i < j < parents@.len() ==> parents@[j].0 != id,
            None => forall|i: int| 0 <= i < parents@.len() ==> parents@[i].0 != id,
        },
{
    let n = parents.len();
    let mut i = n;
    while i > 0
        invariant
            i <= n,
            n == parents@.len(),
            forall|j: int| i <= j < n ==> parents@[j].0 != id,
        decreases i,
    {
        i = i - 1;
        if parents[i].0 == id {
            return Some(&parents[i].1);
        }
    }
    None
}

/// The map that a list of descriptions makes (a later one wins).
pub open spec fn list_map(parents: Seq<(u64, String)>) -> Map<u64, Seq<char>>
    decreases parents.len(),
{
    if parents.len() == 0 {
        Map::empty()
    } else {
        list_map(parents.drop_last()).insert(parents.last().0, parents.last().1@)
    }
}

#[verifier::spinoff_prover]
#[verifier::rlimit(30)]
proof fn lemma_list_map_lookup(parents: Seq<(u64, String)>, id: u64)
    ensures
        list_map(parents).contains_key(id) <==> exists|i: int| 0 <= i < parents.len() && parents[i].0 == id,
        forall|i: int|
            0 <= i < parents.len() && parents[i].0 == id && (forall|j: int| i < j < parents.len() ==> parents[j].0 != id)
                ==> list_map(parents)[id] == parents[i].1@,
    decreases parents.len(),
{
    if parents.len() > 0 {
        let init = parents.drop_last();
        lemma_list_map_lookup(init, id);
        if parents.last().0 != id {
            assert forall|i: int| 0 <= i < init.len() && init[i].0 == id implies exists|k: int|
                0 <= k < parents.len() && parents[k].0 == id by {
                assert(parents[i] == init[i]);
            }
            if exists|i: int| 0 <= i < parents.len() && parents[i].0 == id {
                let i = choose|i: int| 0 <= i < parents.len() && parents[i].0 == id;
                assert(init[i] == parents[i]);
            }
            assert forall|i: int|
                0 <= i < parents.len() && parents[i].0 == id && (forall|j: int| i < j < parents.len() ==> parents[j].0 != id)
                    implies list_map(parents)[id] == parents[i].1@ by {
                assert(init[i] == parents[i]);
                assert forall|j: int| i < j < init.len() implies init[j].0 != id by {
                    assert(init[j] == parents[j]);
                }
            }
        } else {
            assert(parents[parents.len() - 1].0 == id);
        }
    }
}

impl ResourcesState {
    /// The stored resources.
    pub closed spec fn store(self) -> Store<Resource> {
        self.resources
    }

    /// The number of events the observed program dropped.
    pub closed spec fn spec_dropped_events(self) -> u64 {
        self.dropped_events
    }

    pub open spec fn wf(self) -> bool {
        self.store().wf()
    }

    /// No resource, no dropped event.
    pub fn new() -> (r: Self)
        ensures
            r.wf(),
            r.store().items() == Map::<u64, Resource>::empty(),
            r.store().new_ids() == Seq::<u64>::empty(),
            r.store().spec_ids().next_id() == 1,
            r.store().spec_ids().assigned() == Map::<u64, u64>::empty(),
            r.spec_dropped_events() == 0,
    {
        ResourcesState { resources: Store::new(), dropped_events: 0 }
    }

    /// The descriptions of the stored resources that `news` name as parents,
    /// by their sequential IDs.
    fn parents_of(&self, news: &Vec<NewResource>) -> (r: Vec<(u64, String)>)
        ensures
            list_map(r@) == parents_upto(
                news@,
                news@.len() as int,
                self.store().items(),
                self.store().spec_ids().assigned(),
            ),
    {
        let mut r: Vec<(u64, String)> = Vec::new();
        let n = news.len();
        for i in 0..n
            invariant
                n == news@.len(),
                list_map(r@) == parents_upto(
                    news@,
                    i as int,
                    self.store().items(),
                    self.store().spec_ids().assigned(),
                ),
        {
            if let Some(ps) = news[i].parent_resource_id {
                if let Some(p) = self.resources.get_by_span(ps) {
                    let mut desc: Vec<char> = Vec::new();
                    push_decimal(p.id as u128, &mut desc);
                    crate::warnings::push_str(&mut desc, " (");
                    crate::warnings::push_str(&mut desc, p.target.as_str());
                    crate::warnings::push_str(&mut desc, "::");
                    crate::warnings::push_str(&mut desc, p.concrete_type.as_str());
                    crate::warnings::push_str(&mut desc, ")");
                    let ghost prev = r@;
                    r.push((p.id, string_from(desc.as_slice())));
                    assert(r@.drop_last() =~= prev);
                }
            }
        }
        r
    }

    /// Takes in the announced resources `news`, in order, using the
    /// statistics of `stats` (each one is used once), and stores them.
    fn admit_new_resources(
        &mut self,
        styles: &Styles,
        strings: &mut Strings,
        metas: &HashMap<u64, Metadata>,
        news: Vec<NewResource>,
        stats: &mut HashMap<u64, RawResourceStats>,
        visibility: Visibility,
    )
        requires
            old(self).wf(),
            forall|k: u64| #[trigger] old(stats)@.contains_key(k) ==> old(stats)@[k].created_at is Some,
        ensures
            final(self).wf(),
            final(self).spec_dropped_events() == old(self).spec_dropped_events(),
            final(stats)@ == res_stats_after(news@, news@.len() as int, metas@, old(stats)@),
            final(self).store().new_ids() == (match visibility {
                Visibility::Show => Seq::<u64>::empty(),
                Visibility::Hide => old(self).store().new_ids(),
            }) + res_admitted_ids(
                news@,
                news@.len() as int,
                metas@,
                old(stats)@,
                old(self).store().spec_ids().assigned(),
                old(self).store().spec_ids().next_id(),
            ),
            (final(self).store().spec_ids().assigned(), final(self).store().spec_ids().next_id())
                == res_ids_after(
                news@,
                news@.len() as int,
                metas@,
                old(stats)@,
                old(self).store().spec_ids().assigned(),
                old(self).store().spec_ids().next_id(),
            ),
            forall|k: u64|
                #[trigger] final(self).store().items().contains_key(k) <==> (old(
                    self,
                ).store().items().contains_key(k) || res_last_built(
                    news@,
                    k,
                    news@.len() as int,
                    metas@,
                    old(stats)@,
                    old(self).store().spec_ids().assigned(),
                    old(self).store().spec_ids().next_id(),
                ) is Some),
            forall|k: u64| #[trigger]
                final(self).store().items().contains_key(k) ==> admitted_resource(
                    final(self).store().items()[k],
                    k,
                    old(self).store().items(),
                    news@,
                    metas@,
                    old(stats)@,
                    old(self).store().spec_ids().assigned(),
                    old(self).store().spec_ids().next_id(),
                    *styles,
                ),
            old(strings)@.subset_of(final(strings)@),
    {
        let parents = self.parents_of(&news);
        let ghost pmap = list_map(parents@);
        let ghost orig = news@;
        let ghost total = orig.len();
        let ghost stats0 = stats@;
        let ghost a0 = self.resources.spec_ids().assigned();
        let ghost n0 = self.resources.spec_ids().next_id();
        let ghost ms = metas@;
        let ghost items0 = self.resources.items();
        assert(pmap == parents_upto(orig, total as int, items0, a0));
        let mut rest = crate::store::reversed(news);
        let mut built: Vec<(Id<Resource>, Resource)> = Vec::new();
        let ghost mut idxs: Seq<int> = Seq::empty();
        while rest.len() > 0
            invariant
                rest@.len() <= total,
                total == orig.len(),
                rest@ == orig.reverse().take(rest@.len() as int),
                ms == metas@,
                pmap == list_map(parents@),
                self.resources.wf(),
                self.resources.items() == items0,
                self.resources.new_ids() == old(self).resources.new_ids(),
                self.dropped_events == old(self).dropped_events,
                stats@ == res_stats_after(orig, total - rest@.len(), ms, stats0),
                (self.resources.spec_ids().assigned(), self.resources.spec_ids().next_id())
                    == res_ids_after(orig, total - rest@.len(), ms, stats0, a0, n0),
                forall|k: u64| #[trigger] stats0.contains_key(k) ==> stats0[k].created_at is Some,
                forall|k: u64| #[trigger] stats@.contains_key(k) ==> stats0.contains_key(k) && stats@[k] == stats0[k],
                built@.len() == idxs.len(),
                built@.map_values(|p: (Id<Resource>, Resource)| p.0.value()) == res_admitted_ids(
                    orig,
                    total - rest@.len(),
                    ms,
                    stats0,
                    a0,
                    n0,
                ),
                forall|m: int| 0 <= m < idxs.len() ==> 0 <= #[trigger] idxs[m] < total - rest@.len(),
                forall|k: u64|
                    #[trigger] res_last_built(orig, k, total - rest@.len(), ms, stats0, a0, n0) == match last_with_key(
                        resource_pairs(built@),
                        k,
                        built@.len() as int,
                    ) {
                        Some(m) => Some(idxs[m]),
                        None => None,
                    },
                forall|m: int|
                    0 <= m < idxs.len() ==> #[trigger] built@[m].0.value() == res_id_of(
                        orig,
                        idxs[m],
                        ms,
                        stats0,
                        a0,
                        n0,
                    ),
                forall|m: int|
                    0 <= m < idxs.len() ==> res_built_at(
                        #[trigger] built@[m].1,
                        orig,
                        idxs[m],
                        ms,
                        stats0,
                        a0,
                        n0,
                        pmap,
                        *styles,
                    ),
                old(strings)@.subset_of(strings@),
            decreases rest.len(),
        {
            let ghost done = total - rest@.len();
            let nr = rest.pop().unwrap();
            assert(orig[done] == nr) by {
                assert(orig.reverse()[rest@.len() as int] == orig[total - 1 - rest@.len()]);
            }
            assert(rest@ =~= orig.reverse().take(rest@.len() as int));
            proof {
                if !res_admitted_at(orig, done, ms, stats0) {
                    assert forall|k: u64| #[trigger] res_last_built(orig, k, done + 1, ms, stats0, a0, n0)
                        == res_last_built(orig, k, done, ms, stats0, a0, n0) by {}
                }
            }
            let meta_id = match nr.metadata {
                Some(id) => id,
                None => {
                    continue;
                },
            };
            let meta = match metas.get(&meta_id) {
                Some(meta) => meta,
                None => {
                    continue;
                },
            };
            let kind_ok = match &nr.kind {
                Some(k) => kind_readable(k),
                None => false,
            };
            if !kind_ok {
                continue;
            }
            let span_id = match nr.id {
                Some(id) => id,
                None => {
                    continue;
                },
            };
            let raw = match stats.remove(&span_id) {
                Some(raw) => raw,
                None => {
                    continue;
                },
            };
            assert(res_admitted_at(orig, done, ms, stats0));
            let (id, resource) = build_resource(
                nr,
                meta,
                meta_id,
                span_id,
                raw,
                self.resources.ids_mut(),
                &parents,
                styles,
                strings,
            );
            let ghost prev = built@;
            built.push((id, resource));
            let ghost old_idxs = idxs;
            proof {
                assert(built@.map_values(|p: (Id<Resource>, Resource)| p.0.value()) =~= prev.map_values(
                    |p: (Id<Resource>, Resource)| p.0.value(),
                ).push(id.value()));
                idxs = idxs.push(done);
                assert(resource_pairs(prev) =~= resource_pairs(built@).take(prev.len() as int));
                assert forall|k: u64|
                    #[trigger] res_last_built(orig, k, done + 1, ms, stats0, a0, n0) == match last_with_key(
                        resource_pairs(built@),
                        k,
                        built@.len() as int,
                    ) {
                        Some(m) => Some(idxs[m]),
                        None => None,
                    } by {
                    crate::store::lemma_last_with_key_take(resource_pairs(built@), k, prev.len() as int);
                    crate::store::lemma_last_with_key_prefix(resource_pairs(prev), k, prev.len() as int);
                    assert(res_last_built(orig, k, done, ms, stats0, a0, n0) == match last_with_key(
                        resource_pairs(prev),
                        k,
                        prev.len() as int,
                    ) {
                        Some(m) => Some(old_idxs[m]),
                        None => None,
                    });
                }
            }
        }
        let ghost pairs = resource_pairs(built@);
        self.resources.insert_with(visibility, built);
        proof {
            assert(built@.map_values(|p: (Id<Resource>, Resource)| (p.0.value(), p.1)) == pairs);
            assert forall|k: u64| #[trigger] self.store().items().contains_key(k) implies admitted_resource(
                self.store().items()[k],
                k,
                items0,
                orig,
                ms,
                stats0,
                a0,
                n0,
                *styles,
            ) by {
                lemma_insert_all_lookup(items0, pairs, k);
            }
            assert forall|k: u64| #[trigger] self.store().items().contains_key(k) <==> (items0.contains_key(k)
                || res_last_built(orig, k, total as int, ms, stats0, a0, n0) is Some) by {
                lemma_insert_all_lookup(items0, pairs, k);
            }
        }
    }
}


/// Whether `after` is what the resources `before` become when they take in
/// `update` under the metadata `metas` (shown at once if `visibility` says
/// so), with attributes shown in `styles`: each announced resource whose
/// metadata is known, whose kind can be read and whose statistics came along
/// is built and given a sequential ID (as is its parent); then the stored
/// resources are updated with the statistics left.
pub open spec fn resources_updated(
    before: ResourcesState,
    after: ResourcesState,
    styles: Styles,
    metas: Map<u64, Metadata>,
    update: ResourceUpdate,
    visibility: Visibility,
) -> bool {
    let news = update.new_resources@;
    let stats0 = update.stats_update@;
    let a0 = before.store().spec_ids().assigned();
    let n0 = before.store().spec_ids().next_id();
    &&& after.spec_dropped_events() == before.spec_dropped_events() + update.dropped_events
    &&& (after.store().spec_ids().assigned(), after.store().spec_ids().next_id()) == res_ids_after(
        news,
        news.len() as int,
        metas,
        stats0,
        a0,
        n0,
    )
    &&& forall|k: u64|
        #[trigger] after.store().items().contains_key(k) <==> (before.store().items().contains_key(k)
            || res_last_built(news, k, news.len() as int, metas, stats0, a0, n0) is Some)
    &&& forall|k: u64| #[trigger]
        after.store().items().contains_key(k) ==> exists|r: Resource|
            admitted_resource(r, k, before.store().items(), news, metas, stats0, a0, n0, styles)
                && resource_stats_applied(
                r,
                after.store().items()[k],
                k,
                res_stats_after(news, news.len() as int, metas, stats0),
                after.store().spec_ids().assigned(),
                metas,
                styles,
            )
    &&& after.store().new_ids() == (match visibility {
        Visibility::Show => Seq::<u64>::empty(),
        Visibility::Hide => before.store().new_ids(),
    }) + res_admitted_ids(news, news.len() as int, metas, stats0, a0, n0)
}

impl ResourcesState {
    /// Updates the stored resources with the statistics of `stats`, by span
    /// ID, where their metadata is in `metas`.
    fn apply_stats(
        &mut self,
        styles: &Styles,
        strings: &mut Strings,
        metas: &HashMap<u64, Metadata>,
        stats: HashMap<u64, RawResourceStats>,
    )
        requires
            old(self).wf(),
            forall|k: u64| #[trigger] stats@.contains_key(k) ==> stats@[k].created_at is Some,
        ensures
            final(self).wf(),
            final(self).spec_dropped_events() == old(self).spec_dropped_events(),
            final(self).store().spec_ids() == old(self).store().spec_ids(),
            final(self).store().new_ids() == old(self).store().new_ids(),
            final(self).store().items().dom() == old(self).store().items().dom(),
            forall|k: u64| #[trigger]
                final(self).store().items().contains_key(k) ==> resource_stats_applied(
                    old(self).store().items()[k],
                    final(self).store().items()[k],
                    k,
                    stats@,
                    old(self).store().spec_ids().assigned(),
                    metas@,
                    *styles,
                ),
            old(strings)@.subset_of(final(strings)@),
    {
        let ghost st = stats@;
        let ghost a = self.resources.spec_ids().assigned();
        let ghost items0 = self.resources.items();
        let ghost ms = metas@;
        let mut keys: Vec<u64> = Vec::new();
        let ghost ks = vstd::std_specs::hash::spec_keys_iter(&stats).remaining();
        for k in it: stats.keys()
            invariant
                it.seq() == ks,
                keys@.len() == it.index(),
                forall|i: int| 0 <= i < keys@.len() ==> #[trigger] keys@[i] == *ks[i],
        {
            keys.push(*k);
        }
        proof {
            assert(keys@ =~= ks.unref());
        }
        let mut stats = stats;
        let n = keys.len();
        for i in 0..n
            invariant
                n == keys@.len(),
                keys@.to_set() == st.dom(),
                keys@.no_duplicates(),
                forall|j: int| i <= j < n ==> #[trigger] stats@.contains_key(keys@[j]),
                forall|s: u64| #[trigger] stats@.contains_key(s) ==> st.contains_key(s) && stats@[s] == st[s],
                forall|s: u64| #[trigger] st.contains_key(s) ==> st[s].created_at is Some,
                ms == metas@,
                self.wf(),
                self.dropped_events == old(self).dropped_events,
                self.resources.spec_ids() == old(self).resources.spec_ids(),
                a == old(self).resources.spec_ids().assigned(),
                self.resources.new_ids() == old(self).resources.new_ids(),
                self.resources.items().dom() == items0.dom(),
                items0 == old(self).resources.items(),
                forall|k: u64| #[trigger]
                    self.resources.items().contains_key(k) ==> resource_stats_applied(
                        items0[k],
                        self.resources.items()[k],
                        k,
                        st.restrict(keys@.take(i as int).to_set()),
                        a,
                        ms,
                        *styles,
                    ),
                old(strings)@.subset_of(strings@),
        {
            let span = keys[i];
            let ghost before = self.resources.items();
            let raw = stats.remove(&span).unwrap();
            assert(raw == st[span]);
            let ghost p0 = st.restrict(keys@.take(i as int).to_set());
            let ghost p1 = st.restrict(keys@.take(i + 1).to_set());
            proof {
                assert(keys@.take(i + 1).to_set() =~= keys@.take(i as int).to_set().insert(span)) by {
                    assert(keys@.take(i + 1) =~= keys@.take(i as int).push(span));
                    keys@.take(i as int).lemma_push_to_set_commute(span);
                }
                assert(p1 =~= p0.insert(span, raw));
                assert(!keys@.take(i as int).to_set().contains(span)) by {
                    if keys@.take(i as int).to_set().contains(span) {
                        let j = choose|j: int| 0 <= j < i && keys@.take(i as int)[j] == span;
                        assert(keys@[j] == keys@[i as int]);
                    }
                }
                assert forall|j: int| i + 1 <= j < n implies #[trigger] stats@.contains_key(keys@[j]) by {
                    assert(keys@[j] != keys@[i as int]);
                }
            }
            let found = self.resources.ids().get(span);
            let mut done = false;
            match found {
                Some(id) => {
                    match self.resources.take(id) {
                        Some(resource) => {
                            let mut resource = resource;
                            let ghost r0 = resource;
                            match metas.get(&resource.meta_id) {
                                Some(meta) => {
                                    resource.stats = ResourceStats::from_raw(raw, meta, styles, strings);
                                },
                                None => {},
                            }
                            self.resources.put(id, resource);
                            proof {
                                assert forall|k: u64| #[trigger] self.resources.items().contains_key(k) implies resource_stats_applied(
                                    items0[k],
                                    self.resources.items()[k],
                                    k,
                                    p1,
                                    a,
                                    ms,
                                    *styles,
                                ) by {
                                    if k == id.value() {
                                        let r1 = self.resources.items()[k];
                                        assert(r0 == before[k]);
                                        assert(resource_stats_applied(items0[k], r0, k, p0, a, ms, *styles));
                                        assert(r0.meta_id == items0[k].meta_id);
                                        if ms.contains_key(items0[k].meta_id) {
                                            assert(same_but_resource_stats(r0, r1));
                                            if exists|s: u64| #[trigger] p0.contains_key(s) && a.contains_key(s) && a[s] == k {
                                                let s0 = choose|s: u64| #[trigger] p0.contains_key(s) && a.contains_key(s) && a[s] == k
                                                    && resource_stats_from(p0[s], ms[items0[k].meta_id], *styles, r0.stats)
                                                    && same_but_resource_stats(items0[k], r0);
                                                assert(same_but_resource_stats(items0[k], r1));
                                            } else {
                                                assert(r0 == items0[k]);
                                            }
                                            assert(p1.contains_key(span) && a.contains_key(span) && a[span] == k
                                                && resource_stats_from(p1[span], ms[items0[k].meta_id], *styles, r1.stats)
                                                && same_but_resource_stats(items0[k], r1));
                                        } else {
                                            assert(r1 == r0);
                                        }
                                    } else {
                                        assert(before.contains_key(k));
                                        assert(self.resources.items()[k] == before[k]);
                                        lemma_resource_stats_applied_extend(items0[k], before[k], k, p0, span, raw, a, ms, *styles);
                                    }
                                }
                            }
                            done = true;
                        },
                        None => {},
                    }
                },
                None => {},
            }
            if !done {
                proof {
                    assert forall|k: u64| #[trigger] self.resources.items().contains_key(k) implies resource_stats_applied(
                        items0[k],
                        self.resources.items()[k],
                        k,
                        p1,
                        a,
                        ms,
                        *styles,
                    ) by {
                        assert(before.contains_key(k));
                        lemma_resource_stats_applied_extend(items0[k], before[k], k, p0, span, raw, a, ms, *styles);
                    }
                }
            }
        }
        proof {
            assert(keys@.take(n as int) =~= keys@);
            assert(st.restrict(keys@.to_set()) =~= st);
        }
    }

    /// Takes in a resource update: each announced resource whose metadata is
    /// known, whose kind can be read and whose statistics came along is
    /// built, given a sequential ID (as is its parent) and stored (shown at
    /// once if `visibility` says so); then the stored resources are updated
    /// with the statistics left.
    pub fn update_resources(
        &mut self,
        styles: &Styles,
        strings: &mut Strings,
        metas: &HashMap<u64, Metadata>,
        update: ResourceUpdate,
        visibility: Visibility,
    )
        requires
            old(self).wf(),
            forall|k: u64| #[trigger]
                update.stats_update@.contains_key(k) ==> update.stats_update@[k].created_at is Some,
            old(self).spec_dropped_events() + update.dropped_events <= u64::MAX,
        ensures
            final(self).wf(),
            resources_updated(*old(self), *final(self), *styles, metas@, update, visibility),
            old(strings)@.subset_of(final(strings)@),
    {
        let ResourceUpdate { new_resources, stats_update, dropped_events } = update;
        let mut stats_update = stats_update;
        self.admit_new_resources(styles, strings, metas, new_resources, &mut stats_update, visibility);
        let ghost mid = self.store().items();
        proof {
            assert forall|k: u64| #[trigger] stats_update@.contains_key(k) implies stats_update@[k].created_at is Some by {
                lemma_res_stats_after_sub(
                    update.new_resources@,
                    update.new_resources@.len() as int,
                    metas@,
                    update.stats_update@,
                    k,
                );
            }
        }
        self.dropped_events = self.dropped_events + dropped_events;
        self.apply_stats(styles, strings, metas, stats_update);
        proof {
            assert forall|k: u64| #[trigger] self.store().items().contains_key(k) implies exists|r: Resource|
                admitted_resource(
                    r,
                    k,
                    old(self).store().items(),
                    update.new_resources@,
                    metas@,
                    update.stats_update@,
                    old(self).store().spec_ids().assigned(),
                    old(self).store().spec_ids().next_id(),
                    *styles,
                ) && resource_stats_applied(
                    r,
                    self.store().items()[k],
                    k,
                    res_stats_after(
                        update.new_resources@,
                        update.new_resources@.len() as int,
                        metas@,
                        update.stats_update@,
                    ),
                    self.store().spec_ids().assigned(),
                    metas@,
                    *styles,
                ) by {
                assert(mid.contains_key(k));
                let r = mid[k];
                assert(admitted_resource(
                    r,
                    k,
                    old(self).store().items(),
                    update.new_resources@,
                    metas@,
                    update.stats_update@,
                    old(self).store().spec_ids().assigned(),
                    old(self).store().spec_ids().next_id(),
                    *styles,
                ));
            }
        }
    }

    /// The resources added since this was last called (oldest first).
    pub fn take_new_resources(&mut self) -> (r: Vec<Id<Resource>>)
        requires
            old(self).wf(),
        ensures
            final(self).wf(),
            r@.map_values(|id: Id<Resource>| id.value()) == old(self).store().new_ids(),
            final(self).store().new_ids() == Seq::<u64>::empty(),
            final(self).store().items() == old(self).store().items(),
            final(self).store().spec_ids() == old(self).store().spec_ids(),
            final(self).spec_dropped_events() == old(self).spec_dropped_events(),
    {
        self.resources.take_new_items()
    }

    /// The sequential IDs of the resources, by span ID.
    pub fn ids_mut(&mut self) -> (r: &mut Ids<Resource>)
        ensures
            *r == old(self).store().spec_ids(),
            final(self).store().spec_ids() == *final(r),
            final(self).store().items() == old(self).store().items(),
            final(self).store().new_ids() == old(self).store().new_ids(),
            final(self).spec_dropped_events() == old(self).spec_dropped_events(),
    {
        self.resources.ids_mut()
    }

    /// Drops the resources that were dropped `retain_for` or longer before
    /// `now`.
    pub fn retain_active(&mut self, now: SystemTime, retain_for: Duration)
        requires
            old(self).wf(),
        ensures
            final(self).wf(),
            final(self).spec_dropped_events() == old(self).spec_dropped_events(),
            final(self).store().spec_ids() == old(self).store().spec_ids(),
            forall|k: u64|
                #[trigger] final(self).store().items().contains_key(k) <==> old(
                    self,
                ).store().items().contains_key(k) && resource_retained(
                    old(self).store().items()[k],
                    now,
                    retain_for,
                ),
            forall|k: u64| #[trigger]
                final(self).store().items().contains_key(k) ==> final(self).store().items()[k]
                    == old(self).store().items()[k],
    {
        let keep = |_id: &Id<Resource>, resource: &Resource| -> (r: bool)
            ensures
                r == resource_retained(*resource, now, retain_for),
            {
                match resource.stats.dropped_at {
                    Some(d) => {
                        let dropped_for = now.elapsed_since(&d);
                        dropped_for.lt(&retain_for)
                    },
                    None => true,
                }
            };
        self.resources.retain(keep);
    }

    /// The number of events the observed program dropped.
    pub fn dropped_events(&self) -> (r: u64)
        ensures
            r == self.spec_dropped_events(),
    {
        self.dropped_events
    }

    /// The resource with sequential ID `id`.
    pub fn resource(&self, id: Id<Resource>) -> (r: Option<&Resource>)
        ensures
            match r {
                Some(res) => self.store().items().contains_key(id.value()) && *res
                    == self.store().items()[id.value()],
                None => !self.store().items().contains_key(id.value()),
            },
    {
        self.resources.get(id)
    }
}

impl Resource {
    /// The resource's sequential ID.
    pub fn id(&self) -> (r: Id<Resource>)
        ensures
            r.value() == self.id,
    {
        Id::new(self.id)
    }

    /// The resource's span ID in the observed program.
    pub fn span_id(&self) -> (r: u64)
        ensures
            r == self.span_id,
    {
        self.span_id
    }

    pub fn id_str(&self) -> (r: &str)
        ensures
            r@ == self.id_str@,
    {
        self.id_str.as_str()
    }

    pub fn parent(&self) -> (r: &str)
        ensures
            r@ == self.parent@,
    {
        self.parent.as_str()
    }

    pub fn parent_id(&self) -> (r: &str)
        ensures
            r@ == self.parent_id@,
    {
        self.parent_id.as_str()
    }

    pub fn type_visibility(&self) -> (r: TypeVisibility)
        ensures
            r == self.visibility,
    {
        self.visibility
    }

    pub fn target(&self) -> (r: &str)
        ensures
            r@ == self.target@,
    {
        self.target.as_str()
    }

    pub fn concrete_type(&self) -> (r: &str)
        ensures
            r@ == self.concrete_type@,
    {
        self.concrete_type.as_str()
    }

    pub fn kind(&self) -> (r: &str)
        ensures
            r@ == self.kind@,
    {
        self.kind.as_str()
    }

    /// How each attribute is shown.
    pub fn formatted_attributes(&self) -> (r: &[Vec<Span>])
        ensures
            r@ == self.stats.formatted_attributes@,
    {
        self.stats.formatted_attributes.as_slice()
    }

    /// How long the resource lived: until it was dropped, or else until
    /// `since`.
    pub fn total(&self, since: SystemTime) -> (r: Duration)
        ensures
            r.spec_nanos() == match self.stats.total {
                Some(t) => t.spec_nanos(),
                None => elapsed(since, self.stats.created_at),
            },
    {
        match self.stats.total {
            Some(t) => t,
            None => since.elapsed_since(&self.stats.created_at),
        }
    }

    /// Whether the resource was dropped.
    pub fn dropped(&self) -> (r: bool)
        ensures
            r == self.stats.total is Some,
    {
        self.stats.total.is_some()
    }

    pub fn location(&self) -> (r: &str)
        ensures
            r@ == self.location@,
    {
        self.location.as_str()
    }
}

impl TypeVisibility {
    /// How the visibility is shown: a lock (or `INT`) in red for internal
    /// types, a check mark (or `PUB`) in green for public ones.
    pub fn render(self, styles: &Styles) -> (r: Span)
        ensures
            r.content@ == match self {
                TypeVisibility::Internal => if styles.utf8 {
                    "\u{1F512}"@
                } else {
                    "INT"@
                },
                TypeVisibility::Public => if styles.utf8 {
                    "\u{2705}"@
                } else {
                    "PUB"@
                },
            },
            r.style == match self {
                TypeVisibility::Internal => fg_style_in(styles.palette, Color::Red),
                TypeVisibility::Public => fg_style_in(styles.palette, Color::Green),
            },
    {
        match self {
            TypeVisibility::Internal => Span::styled(
                styles.if_utf8("\u{1F512}", "INT").to_string(),
                styles.fg(Color::Red),
            ),
            TypeVisibility::Public => Span::styled(
                styles.if_utf8("\u{2705}", "PUB").to_string(),
                styles.fg(Color::Green),
            ),
        }
    }
}

/// Columns by which the resource list can be sorted.
#[derive(PartialEq, Eq, Structural, Clone, Copy, Debug)]
pub enum SortBy {
    Rid,
    Kind,
    ConcreteType,
    Target,
    Total,
}

/// The column of each sort key of the resource list.
pub open spec fn resource_sort_column(s: SortBy) -> nat {
    match s {
        SortBy::Rid => 0,
        SortBy::Kind => 1,
        SortBy::ConcreteType => 2,
        SortBy::Target => 3,
        SortBy::Total => 4,
    }
}

/// The sort key of a resource-list column.
pub open spec fn resource_column_sort(c: usize) -> Option<SortBy> {
    if c == 0 {
        Some(SortBy::Rid)
    } else if c == 1 {
        Some(SortBy::Kind)
    } else if c == 2 {
        Some(SortBy::ConcreteType)
    } else if c == 3 {
        Some(SortBy::Target)
    } else if c == 4 {
        Some(SortBy::Total)
    } else {
        None
    }
}

impl SortBy {
    /// The sort key of column `idx`, if there is one.
    pub fn try_from(idx: usize) -> (r: Result<Self, ()>)
        ensures
            match r {
                Ok(s) => resource_column_sort(idx) == Some(s),
                Err(_) => resource_column_sort(idx) is None,
            },
    {
        match idx {
            0 => Ok(SortBy::Rid),
            1 => Ok(SortBy::Kind),
            2 => Ok(SortBy::ConcreteType),
            3 => Ok(SortBy::Target),
            4 => Ok(SortBy::Total),
            _ => Err(()),
        }
    }

    /// The column of the resource list that this sort key belongs to.
    pub fn as_column(&self) -> (r: usize)
        ensures
            r == resource_sort_column(*self),
    {
        match self {
            SortBy::Rid => 0,
            SortBy::Kind => 1,
            SortBy::ConcreteType => 2,
            SortBy::Target => 3,
            SortBy::Total => 4,
        }
    }
}

impl Default for SortBy {
    fn default() -> (r: Self)
        ensures
            r == SortBy::Rid,
    {
        SortBy::Rid
    }
}

impl SortColumn for SortBy {
    open spec fn column_sort(c: usize) -> Option<Self> {
        resource_column_sort(c)
    }

    open spec fn sort_column(s: Self) -> nat {
        resource_sort_column(s)
    }

    open spec fn initial_sort() -> Self {
        SortBy::Rid
    }

    fn from_column(c: usize) -> (r: Option<Self>) {
        match SortBy::try_from(c) {
            Ok(s) => Some(s),
            Err(_) => None,
        }
    }

    fn as_column(&self) -> (r: usize) {
        SortBy::as_column(self)
    }

    fn initial() -> (r: Self) {
        SortBy::Rid
    }
}


/// The key by which the resource list sorts the resource with sequential ID
/// `id` of `items` at `now`: resources that are gone first, then by the
/// sort key.
pub open spec fn resource_sort_key(s: SortBy, items: Map<u64, Resource>, id: u64, now: SystemTime) -> (u8, nat, Seq<char>) {
    if !items.contains_key(id) {
        (0, 0, Seq::empty())
    } else {
        let r = items[id];
        match s {
            SortBy::Rid => (1, r.id as nat, Seq::empty()),
            SortBy::Kind => (1, 0, r.kind@),
            SortBy::ConcreteType => (1, 0, r.concrete_type@),
            SortBy::Target => (1, 0, r.target@),
            SortBy::Total => (1, match r.stats.total {
                Some(t) => t.spec_nanos(),
                None => elapsed(now, r.stats.created_at),
            }, Seq::empty()),
        }
    }
}

/// The sort key of each resource ID.
pub open spec fn resource_key_fn(s: SortBy, items: Map<u64, Resource>, now: SystemTime) -> spec_fn(u64) -> (u8, nat, Seq<char>) {
    |id: u64| resource_sort_key(s, items, id, now)
}

impl SortBy {
    /// The sort key of the resource `id` in `state` at `now`.
    fn row_key(&self, state: &ResourcesState, id: u64, now: SystemTime) -> (r: crate::order::RowKey)
        ensures
            crate::order::key_of(r) == resource_sort_key(*self, state.store().items(), id, now),
            r.id == id,
    {
        let res = match state.resource(Id::new(id)) {
            Some(res) => res,
            None => return crate::order::RowKey { rank: 0, num: 0, text: String::new(), id },
        };
        let (num, text): (u128, String) = match self {
            SortBy::Rid => (res.id as u128, String::new()),
            SortBy::Kind => (0, res.kind.to_string()),
            SortBy::ConcreteType => (0, res.concrete_type.to_string()),
            SortBy::Target => (0, res.target.to_string()),
            SortBy::Total => (res.total(now).as_nanos(), String::new()),
        };
        crate::order::RowKey { rank: 1, num, text, id }
    }

    /// Sorts the resource IDs `ids` by this sort key of the resources of
    /// `state` at `now`; resources that are gone come first.
    pub fn sort(&self, now: SystemTime, state: &ResourcesState, ids: &mut Vec<u64>)
        ensures
            final(ids)@.to_multiset() == old(ids)@.to_multiset(),
            forall|i: int, j: int|
                0 <= i < j < final(ids)@.len() ==> crate::order::key_le(
                    resource_sort_key(*self, state.store().items(), #[trigger] final(ids)@[i], now),
                    resource_sort_key(*self, state.store().items(), #[trigger] final(ids)@[j], now),
                ),
    {
        let ghost key = resource_key_fn(*self, state.store().items(), now);
        let mut rows: Vec<crate::order::RowKey> = Vec::new();
        let n = ids.len();
        for i in 0..n
            invariant
                n == ids@.len(),
                rows@.map_values(|k: crate::order::RowKey| k.id) == ids@.take(i as int),
                forall|m: int| 0 <= m < rows@.len() ==> crate::order::key_of(#[trigger] rows@[m])
                    == resource_sort_key(*self, state.store().items(), rows@[m].id, now),
        {
            let row = self.row_key(state, ids[i], now);
            let ghost prev = rows@;
            rows.push(row);
            assert forall|m: int| 0 <= m < rows@.len() implies crate::order::key_of(#[trigger] rows@[m])
                == resource_sort_key(*self, state.store().items(), rows@[m].id, now) by {
                if m < prev.len() {
                    assert(rows@[m] == prev[m]);
                }
            }
            assert(rows@.map_values(|k: crate::order::RowKey| k.id) =~= prev.map_values(|k: crate::order::RowKey| k.id).push(ids@[i as int]));
            assert(ids@.take(i + 1) =~= ids@.take(i as int).push(ids@[i as int]));
        }
        assert(ids@.take(n as int) =~= ids@);
        let sorted = crate::order::sort_rows(rows, Ghost(key));
        *ids = sorted;
    }
}

/// Whether the resource `r` holds the interned string `s`: its ID, parent,
/// parent ID, kind, target or concrete type, or the name of one of its
/// attributes.
pub open spec fn resource_holds(r: Resource, s: Seq<char>) -> bool {
    ||| r.id_str@ == s
    ||| r.parent@ == s
    ||| r.parent_id@ == s
    ||| r.kind@ == s
    ||| r.target@ == s
    ||| r.concrete_type@ == s
    ||| attribute_named(r.stats.attributes@, s)
}

/// Pushes copies of the interned strings of `r` onto `out`.
pub fn push_resource_texts(out: &mut Vec<InternedStr>, r: &Resource)
    ensures
        forall|s: Seq<char>| #![trigger holds_text(final(out)@, s)]
            holds_text(final(out)@, s) <==> holds_text(old(out)@, s) || resource_holds(*r, s),
{
    let ghost s0 = out@;
    push_text(out, &r.id_str);
    let ghost s1 = out@;
    push_text(out, &r.parent);
    let ghost s2 = out@;
    push_text(out, &r.parent_id);
    let ghost s3 = out@;
    push_text(out, &r.kind);
    let ghost s4 = out@;
    push_text(out, &r.target);
    let ghost s5 = out@;
    push_text(out, &r.concrete_type);
    let ghost s6 = out@;
    push_attribute_names(out, &r.stats.attributes);
    assert forall|s: Seq<char>|
        holds_text(out@, s) <==> holds_text(s0, s) || resource_holds(*r, s) by {
        assert(holds_text(s1, s) <==> holds_text(s0, s) || r.id_str@ == s);
        assert(holds_text(s2, s) <==> holds_text(s1, s) || r.parent@ == s);
        assert(holds_text(s3, s) <==> holds_text(s2, s) || r.parent_id@ == s);
        assert(holds_text(s4, s) <==> holds_text(s3, s) || r.kind@ == s);
        assert(holds_text(s5, s) <==> holds_text(s4, s) || r.target@ == s);
        assert(holds_text(s6, s) <==> holds_text(s5, s) || r.concrete_type@ == s);
        assert(holds_text(out@, s) <==> holds_text(s6, s) || attribute_named(r.stats.attributes@, s));
    }
}

impl ResourcesState {
    /// Whether one of the stored resources holds the interned string `s`.
    pub open spec fn holds_text(self, s: Seq<char>) -> bool {
        exists|k: u64| #[trigger]
            self.store().items().contains_key(k) && resource_holds(self.store().items()[k], s)
    }

    /// Pushes copies of the interned strings of the stored resources onto
    /// `out`.
    pub fn push_held_texts(&self, out: &mut Vec<InternedStr>)
        ensures
            forall|s: Seq<char>| #![trigger holds_text(final(out)@, s)]
                holds_text(final(out)@, s) <==> holds_text(old(out)@, s) || self.holds_text(s),
    {
        let all = self.resources.values();
        let ghost start = out@;
        let n = all.len();
        let mut i: usize = 0;
        while i < n
            invariant
                n == all@.len(),
                i <= n,
                start == old(out)@,
                forall|j: int| 0 <= j < n ==> self.store().items().values().contains(*#[trigger] all@[j]),
                forall|k: u64| #[trigger]
                    self.store().items().contains_key(k) ==> exists|j: int|
                        0 <= j < n && *#[trigger] all@[j] == self.store().items()[k],
                forall|s: Seq<char>| #![trigger holds_text(out@, s)]
                    holds_text(out@, s) <==> holds_text(start, s) || exists|j: int|
                        0 <= j < i && resource_holds(*#[trigger] all@[j], s),
            decreases n - i,
        {
            let ghost before = out@;
            let ghost j0 = i as int;
            push_resource_texts(out, all[i]);
            i = i + 1;
            assert(j0 + 1 == i as int);
            assert forall|s: Seq<char>|
                holds_text(out@, s) <==> holds_text(start, s) || exists|j: int|
                    0 <= j < i && resource_holds(*#[trigger] all@[j], s) by {
                assert(holds_text(out@, s) <==> holds_text(before, s) || resource_holds(*all@[j0], s));
                assert(holds_text(before, s) <==> holds_text(start, s) || exists|j: int|
                    0 <= j < j0 && resource_holds(*#[trigger] all@[j], s));
            }
        }
        assert forall|s: Seq<char>|
            holds_text(out@, s) <==> holds_text(old(out)@, s) || self.holds_text(s) by {
            assert(holds_text(out@, s) <==> holds_text(start, s) || exists|j: int|
                0 <= j < n && resource_holds(*#[trigger] all@[j], s));
            if exists|j: int| 0 <= j < n && resource_holds(*#[trigger] all@[j], s) {
                let j = choose|j: int| 0 <= j < n && resource_holds(*#[trigger] all@[j], s);
                assert(self.store().items().values().contains(*all@[j]));
                let k = choose|k: u64|
                    #[trigger] self.store().items().contains_key(k) && self.store().items()[k] == *all@[j];
                assert(self.store().items().contains_key(k) && resource_holds(self.store().items()[k], s));
            }
            if self.holds_text(s) {
                let k = choose|k: u64| #[trigger]
                    self.store().items().contains_key(k) && resource_holds(self.store().items()[k], s);
                let j = choose|j: int| 0 <= j < n && *#[trigger] all@[j] == self.store().items()[k];
                assert(resource_holds(*all@[j], s));
            }
        }
    }
}

} // verus!
