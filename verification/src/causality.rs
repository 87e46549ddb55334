//! Updates of the causal relations between spans (which span opened which),
//! as the observed program sends them, turned into single updates of a
//! causality graph.
use vstd::prelude::*;

verus! {

/// A span as the observed program sends it.
#[derive(PartialEq, Eq, Structural, Clone, Copy, Debug)]
pub struct ProtoSpan {
    pub span_id: Option<u64>,
    pub metadata_id: Option<u64>,
}

/// An update of the causal relations as the observed program sends it.
pub enum ProtoCausalityUpdate {
    /// A span that exists, with the spans it opened directly and indirectly.
    Extant { cause: Option<ProtoSpan>, direct_consequences: Vec<ProtoSpan>, indirect_consequences: Vec<ProtoSpan> },
    /// A span opened another directly.
    OpenDirect { cause: Option<ProtoSpan>, direct_consequence: Option<ProtoSpan> },
    /// A span became an indirect cause of another.
    NewIndirect { cause: Option<ProtoSpan>, indirect_consequence: Option<ProtoSpan> },
    /// A span closed, with its direct cause.
    CloseDirect { span: Option<ProtoSpan>, direct_cause: Option<ProtoSpan> },
    /// A span closed, with its indirect causes.
    CloseIndirect { span: Option<ProtoSpan>, indirect_causes: Vec<ProtoSpan> },
    /// A span in a cycle closed, with its causes.
    CloseCyclic { span: Option<ProtoSpan>, direct_cause: Option<ProtoSpan>, indirect_causes: Vec<ProtoSpan> },
}

/// A span of the causality graph: its ID and its metadata ID.
#[derive(PartialEq, Eq, Structural, Clone, Copy, Debug)]
pub struct CausalSpan {
    pub id: u64,
    pub metadata: u64,
}

/// A single update of the causality graph.
pub enum CausalUpdate {
    OpenDirect { cause: CausalSpan, consequence: CausalSpan },
    NewIndirect { cause: CausalSpan, consequence: CausalSpan },
    CloseDirect { span: CausalSpan, direct_cause: Option<CausalSpan> },
    CloseIndirect { span: CausalSpan, indirect_causes: Vec<CausalSpan> },
    CloseCyclic { span: CausalSpan, direct_cause: Option<CausalSpan>, indirect_causes: Vec<CausalSpan> },
}

/// Whether a span has its ID and its metadata ID.
pub open spec fn complete(s: ProtoSpan) -> bool {
    s.span_id is Some && s.metadata_id is Some
}

/// Whether an optional span, if given, is complete.
pub open spec fn complete_opt(s: Option<ProtoSpan>) -> bool {
    s matches Some(x) ==> complete(x)
}

/// Whether every span of `v` is complete.
pub open spec fn all_complete(v: Seq<ProtoSpan>) -> bool {
    forall|i: int| 0 <= i < v.len() ==> complete(#[trigger] v[i])
}

/// Whether an update can be turned into updates of the graph: the spans it
/// must have are given, and every span is complete.
pub open spec fn well_formed(u: ProtoCausalityUpdate) -> bool {
    match u {
        ProtoCausalityUpdate::Extant { cause, direct_consequences, indirect_consequences } => {
            &&& cause matches Some(c) && complete(c)
            &&& all_complete(direct_consequences@)
            &&& all_complete(indirect_consequences@)
        },
        ProtoCausalityUpdate::OpenDirect { cause, direct_consequence } => {
            &&& cause matches Some(c) && complete(c)
            &&& direct_consequence matches Some(c) && complete(c)
        },
        ProtoCausalityUpdate::NewIndirect { cause, indirect_consequence } => {
            &&& cause matches Some(c) && complete(c)
            &&& indirect_consequence matches Some(c) && complete(c)
        },
        ProtoCausalityUpdate::CloseDirect { span, direct_cause } => {
            &&& span matches Some(s) && complete(s)
            &&& complete_opt(direct_cause)
        },
        ProtoCausalityUpdate::CloseIndirect { span, indirect_causes } => {
            &&& span matches Some(s) && complete(s)
            &&& all_complete(indirect_causes@)
        },
        ProtoCausalityUpdate::CloseCyclic { span, direct_cause, indirect_causes } => {
            &&& span matches Some(s) && complete(s)
            &&& complete_opt(direct_cause)
            &&& all_complete(indirect_causes@)
        },
    }
}

/// The span of the graph that a complete span names.
pub open spec fn span_of(s: ProtoSpan) -> CausalSpan {
    CausalSpan { id: s.span_id.unwrap(), metadata: s.metadata_id.unwrap() }
}

/// The spans of the graph that complete spans name.
pub open spec fn spans_of(v: Seq<ProtoSpan>) -> Seq<CausalSpan> {
    v.map_values(|s: ProtoSpan| span_of(s))
}

/// The span of the graph that an optional span names.
pub open spec fn opt_span_of(s: Option<ProtoSpan>) -> Option<CausalSpan> {
    match s {
        Some(x) => Some(span_of(x)),
        None => None,
    }
}

/// Whether `r` is the update `u` of the graph.
pub open spec fn update_is(r: CausalUpdate, u: CausalUpdate) -> bool {
    match (r, u) {
        (
            CausalUpdate::OpenDirect { cause: c1, consequence: q1 },
            CausalUpdate::OpenDirect { cause: c2, consequence: q2 },
        ) => c1 == c2 && q1 == q2,
        (
            CausalUpdate::NewIndirect { cause: c1, consequence: q1 },
            CausalUpdate::NewIndirect { cause: c2, consequence: q2 },
        ) => c1 == c2 && q1 == q2,
        (
            CausalUpdate::CloseDirect { span: s1, direct_cause: d1 },
            CausalUpdate::CloseDirect { span: s2, direct_cause: d2 },
        ) => s1 == s2 && d1 == d2,
        (
            CausalUpdate::CloseIndirect { span: s1, indirect_causes: i1 },
            CausalUpdate::CloseIndirect { span: s2, indirect_causes: i2 },
        ) => s1 == s2 && i1@ == i2@,
        (
            CausalUpdate::CloseCyclic { span: s1, direct_cause: d1, indirect_causes: i1 },
            CausalUpdate::CloseCyclic { span: s2, direct_cause: d2, indirect_causes: i2 },
        ) => s1 == s2 && d1 == d2 && i1@ == i2@,
        _ => false,
    }
}

/// The span of the graph that a complete span names.
pub fn span_from_pb(s: ProtoSpan) -> (r: CausalSpan)
    requires
        complete(s),
    ensures
        r == span_of(s),
{
    CausalSpan { id: s.span_id.unwrap(), metadata: s.metadata_id.unwrap() }
}

/// The spans of the graph that complete spans name, in order.
fn spans_from_pb(v: &Vec<ProtoSpan>) -> (r: Vec<CausalSpan>)
    requires
        all_complete(v@),
    ensures
        r@ == spans_of(v@),
{
    let mut r: Vec<CausalSpan> = Vec::new();
    let n = v.len();
    for i in 0..n
        invariant
            n == v@.len(),
            all_complete(v@),
            r@ == spans_of(v@.take(i as int)),
    {
        r.push(span_from_pb(v[i]));
        assert(v@.take(i + 1) =~= v@.take(i as int).push(v@[i as int]));
        assert(r@ =~= spans_of(v@.take(i + 1)));
    }
    assert(v@.take(n as int) =~= v@);
    r
}

/// The span of the graph that an optional complete span names.
fn opt_span_from_pb(s: Option<ProtoSpan>) -> (r: Option<CausalSpan>)
    requires
        complete_opt(s),
    ensures
        r == opt_span_of(s),
{
    match s {
        Some(x) => Some(span_from_pb(x)),
        None => None,
    }
}

/// The updates of the graph that an update from the observed program
/// makes: for a span that exists, it opened each direct consequence and is
/// an indirect cause of each indirect one, in that order; every other
/// update is one update of the graph.
pub fn updates_from_pb(proto: ProtoCausalityUpdate) -> (r: Vec<CausalUpdate>)
    requires
        well_formed(proto),
    ensures
        match proto {
            ProtoCausalityUpdate::Extant { cause, direct_consequences, indirect_consequences } => {
                let c = span_of(cause.unwrap());
                let d = direct_consequences@;
                let ind = indirect_consequences@;
                &&& r@.len() == d.len() + ind.len()
                &&& forall|i: int|
                    0 <= i < d.len() ==> update_is(
                        #[trigger] r@[i],
                        CausalUpdate::OpenDirect { cause: c, consequence: span_of(d[i]) },
                    )
                &&& forall|i: int|
                    0 <= i < ind.len() ==> update_is(
                        #[trigger] r@[d.len() + i],
                        CausalUpdate::NewIndirect { cause: c, consequence: span_of(ind[i]) },
                    )
            },
            ProtoCausalityUpdate::OpenDirect { cause, direct_consequence } => r@.len() == 1
                && update_is(
                r@[0],
                CausalUpdate::OpenDirect {
                    cause: span_of(cause.unwrap()),
                    consequence: span_of(direct_consequence.unwrap()),
                },
            ),
            ProtoCausalityUpdate::NewIndirect { cause, indirect_consequence } => r@.len() == 1
                && update_is(
                r@[0],
                CausalUpdate::NewIndirect {
                    cause: span_of(cause.unwrap()),
                    consequence: span_of(indirect_consequence.unwrap()),
                },
            ),
            ProtoCausalityUpdate::CloseDirect { span, direct_cause } => {
                &&& r@.len() == 1
                &&& r@[0] matches CausalUpdate::CloseDirect { span: s, direct_cause: d }
                    && s == span_of(span.unwrap()) && d == opt_span_of(direct_cause)
            },
            ProtoCausalityUpdate::CloseIndirect { span, indirect_causes } => {
                &&& r@.len() == 1
                &&& r@[0] matches CausalUpdate::CloseIndirect { span: s, indirect_causes: i }
                    && s == span_of(span.unwrap()) && i@ == spans_of(indirect_causes@)
            },
            ProtoCausalityUpdate::CloseCyclic { span, direct_cause, indirect_causes } => {
                &&& r@.len() == 1
                &&& r@[0] matches CausalUpdate::CloseCyclic { span: s, direct_cause: d, indirect_causes: i }
                    && s == span_of(span.unwrap()) && d == opt_span_of(direct_cause)
                    && i@ == spans_of(indirect_causes@)
            },
        },
{
    match proto {
        ProtoCausalityUpdate::Extant { cause, direct_consequences, indirect_consequences } => {
            let c = span_from_pb(cause.unwrap());
            let mut r: Vec<CausalUpdate> = Vec::new();
            let n = direct_consequences.len();
            for i in 0..n
                invariant
                    n == direct_consequences@.len(),
                    all_complete(direct_consequences@),
                    r@.len() == i,
                    forall|j: int|
                        0 <= j < i ==> update_is(
                            #[trigger] r@[j],
                            CausalUpdate::OpenDirect {
                                cause: c,
                                consequence: span_of(direct_consequences@[j]),
                            },
                        ),
            {
                r.push(CausalUpdate::OpenDirect { cause: c, consequence: span_from_pb(direct_consequences[i]) });
            }
            let m = indirect_consequences.len();
            for i in 0..m
                invariant
                    n == direct_consequences@.len(),
                    m == indirect_consequences@.len(),
                    all_complete(indirect_consequences@),
                    r@.len() == n + i,
                    forall|j: int|
                        0 <= j < n ==> update_is(
                            #[trigger] r@[j],
                            CausalUpdate::OpenDirect {
                                cause: c,
                                consequence: span_of(direct_consequences@[j]),
                            },
                        ),
                    forall|j: int|
                        0 <= j < i ==> update_is(
                            #[trigger] r@[n + j],
                            CausalUpdate::NewIndirect {
                                cause: c,
                                consequence: span_of(indirect_consequences@[j]),
                            },
                        ),
            {
                let ghost prev = r@;
                r.push(CausalUpdate::NewIndirect { cause: c, consequence: span_from_pb(indirect_consequences[i]) });
                assert forall|j: int| 0 <= j < n implies update_is(
                    #[trigger] r@[j],
                    CausalUpdate::OpenDirect { cause: c, consequence: span_of(direct_consequences@[j]) },
                ) by {
                    assert(r@[j] == prev[j]);
                }
                assert forall|j: int| 0 <= j < i + 1 implies update_is(
                    #[trigger] r@[n + j],
                    CausalUpdate::NewIndirect { cause: c, consequence: span_of(indirect_consequences@[j]) },
                ) by {
                    if j < i {
                        assert(r@[n + j] == prev[n + j]);
                    }
                }
            }
            r
        },
        ProtoCausalityUpdate::OpenDirect { cause, direct_consequence } => {
            vec![CausalUpdate::OpenDirect {
                cause: span_from_pb(cause.unwrap()),
                consequence: span_from_pb(direct_consequence.unwrap()),
            }]
        },
        ProtoCausalityUpdate::NewIndirect { cause, indirect_consequence } => {
            vec![CausalUpdate::NewIndirect {
                cause: span_from_pb(cause.unwrap()),
                consequence: span_from_pb(indirect_consequence.unwrap()),
            }]
        },
        ProtoCausalityUpdate::CloseDirect { span, direct_cause } => {
            vec![CausalUpdate::CloseDirect {
                span: span_from_pb(span.unwrap()),
                direct_cause: opt_span_from_pb(direct_cause),
            }]
        },
        ProtoCausalityUpdate::CloseIndirect { span, indirect_causes } => {
            vec![CausalUpdate::CloseIndirect {
                span: span_from_pb(span.unwrap()),
                indirect_causes: spans_from_pb(&indirect_causes),
            }]
        },
        ProtoCausalityUpdate::CloseCyclic { span, direct_cause, indirect_causes } => {
            vec![CausalUpdate::CloseCyclic {
                span: span_from_pb(span.unwrap()),
                direct_cause: opt_span_from_pb(direct_cause),
                indirect_causes: spans_from_pb(&indirect_causes),
            }]
        },
    }
}

/// Whether `s` is a span that names both its ID and its metadata.
fn is_complete(s: &Option<ProtoSpan>) -> (r: bool)
    ensures
        r == (*s matches Some(x) && complete(x)),
{
    match s {
        Some(x) => x.span_id.is_some() && x.metadata_id.is_some(),
        None => false,
    }
}

/// Whether every span of `v` names both its ID and its metadata.
fn are_complete(v: &Vec<ProtoSpan>) -> (r: bool)
    ensures
        r == all_complete(v@),
{
    let n = v.len();
    for i in 0..n
        invariant
            n == v@.len(),
            forall|j: int| 0 <= j < i ==> complete(#[trigger] v@[j]),
    {
        if !(v[i].span_id.is_some() && v[i].metadata_id.is_some()) {
            assert(!complete(v@[i as int]));
            return false;
        }
    }
    true
}

/// Whether the update names every span it needs completely, so that it
/// can be turned into updates of the graph.
pub fn is_well_formed(u: &ProtoCausalityUpdate) -> (r: bool)
    ensures
        r == well_formed(*u),
{
    match u {
        ProtoCausalityUpdate::Extant { cause, direct_consequences, indirect_consequences } => {
            is_complete(cause) && are_complete(direct_consequences) && are_complete(indirect_consequences)
        },
        ProtoCausalityUpdate::OpenDirect { cause, direct_consequence } => {
            is_complete(cause) && is_complete(direct_consequence)
        },
        ProtoCausalityUpdate::NewIndirect { cause, indirect_consequence } => {
            is_complete(cause) && is_complete(indirect_consequence)
        },
        ProtoCausalityUpdate::CloseDirect { span, direct_cause } => {
            is_complete(span) && (direct_cause.is_none() || is_complete(direct_cause))
        },
        ProtoCausalityUpdate::CloseIndirect { span, indirect_causes } => {
            is_complete(span) && are_complete(indirect_causes)
        },
        ProtoCausalityUpdate::CloseCyclic { span, direct_cause, indirect_causes } => {
            is_complete(span) && (direct_cause.is_none() || is_complete(direct_cause)) && are_complete(
                indirect_causes,
            )
        },
    }
}

} // verus!
