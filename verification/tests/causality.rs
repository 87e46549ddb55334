use tokio_console::causality::{span_from_pb, updates_from_pb, CausalSpan, CausalUpdate, ProtoCausalityUpdate, ProtoSpan};

fn span(id: u64, meta: u64) -> ProtoSpan {
    ProtoSpan { span_id: Some(id), metadata_id: Some(meta) }
}

fn cs(id: u64, meta: u64) -> CausalSpan {
    CausalSpan { id, metadata: meta }
}

#[test]
fn a_span_names_its_id_and_metadata() {
    assert_eq!(span_from_pb(span(3, 9)), cs(3, 9));
}

#[test]
fn an_extant_span_opens_its_direct_then_its_indirect_consequences() {
    let u = ProtoCausalityUpdate::Extant {
        cause: Some(span(1, 10)),
        direct_consequences: vec![span(2, 20), span(3, 30)],
        indirect_consequences: vec![span(4, 40)],
    };
    let r = updates_from_pb(u);
    assert_eq!(r.len(), 3);
    assert!(matches!(r[0], CausalUpdate::OpenDirect { cause, consequence } if cause == cs(1, 10) && consequence == cs(2, 20)));
    assert!(matches!(r[1], CausalUpdate::OpenDirect { cause, consequence } if cause == cs(1, 10) && consequence == cs(3, 30)));
    assert!(matches!(r[2], CausalUpdate::NewIndirect { cause, consequence } if cause == cs(1, 10) && consequence == cs(4, 40)));
}

#[test]
fn an_extant_span_without_consequences_makes_no_update() {
    let u = ProtoCausalityUpdate::Extant {
        cause: Some(span(1, 10)),
        direct_consequences: vec![],
        indirect_consequences: vec![],
    };
    assert!(updates_from_pb(u).is_empty());
}

#[test]
fn other_updates_are_one_update_each() {
    let r = updates_from_pb(ProtoCausalityUpdate::OpenDirect {
        cause: Some(span(1, 1)),
        direct_consequence: Some(span(2, 2)),
    });
    assert!(matches!(r[..], [CausalUpdate::OpenDirect { cause, consequence }] if cause == cs(1, 1) && consequence == cs(2, 2)));
    let r = updates_from_pb(ProtoCausalityUpdate::NewIndirect {
        cause: Some(span(1, 1)),
        indirect_consequence: Some(span(5, 5)),
    });
    assert!(matches!(r[..], [CausalUpdate::NewIndirect { consequence, .. }] if consequence == cs(5, 5)));
    let r = updates_from_pb(ProtoCausalityUpdate::CloseDirect { span: Some(span(2, 2)), direct_cause: None });
    assert!(matches!(r[..], [CausalUpdate::CloseDirect { span, direct_cause: None }] if span == cs(2, 2)));
    let r = updates_from_pb(ProtoCausalityUpdate::CloseIndirect {
        span: Some(span(2, 2)),
        indirect_causes: vec![span(7, 1), span(8, 1)],
    });
    match &r[..] {
        [CausalUpdate::CloseIndirect { span, indirect_causes }] => {
            assert_eq!(*span, cs(2, 2));
            assert_eq!(indirect_causes, &vec![cs(7, 1), cs(8, 1)]);
        },
        _ => panic!("expected one CloseIndirect"),
    }
    let r = updates_from_pb(ProtoCausalityUpdate::CloseCyclic {
        span: Some(span(2, 2)),
        direct_cause: Some(span(1, 1)),
        indirect_causes: vec![],
    });
    match &r[..] {
        [CausalUpdate::CloseCyclic { span, direct_cause, indirect_causes }] => {
            assert_eq!(*span, cs(2, 2));
            assert_eq!(*direct_cause, Some(cs(1, 1)));
            assert!(indirect_causes.is_empty());
        },
        _ => panic!("expected one CloseCyclic"),
    }
}
