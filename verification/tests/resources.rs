use std::collections::HashMap;

use tokio_console::config::{ColorToggles, Palette};
use tokio_console::fields::ProtoMetadata;
use tokio_console::location::Location;
use tokio_console::resource_table::{resource_header_names, resources_table};
use tokio_console::resource_view::{resource_overview, resource_view_controls};
use tokio_console::resources::{
    KindValue, NewResource, RawResourceStats, ResourceUpdate, SortBy, TypeVisibility,
};
use tokio_console::state::{ProtoMetadataEntry, State, Update};
use tokio_console::styles::Styles;
use tokio_console::time::{Duration, SystemTime};
use tokio_console::view::{TableListState, ViewState};

fn at(secs: i64) -> SystemTime {
    SystemTime::from_unix(secs, 0)
}

fn styles() -> Styles {
    Styles {
        palette: Palette::All,
        toggles: ColorToggles { color_durations: None, color_terminated: None },
        utf8: false,
    }
}

fn new_resource(span: u64, kind: KindValue, parent: Option<u64>, ty: &str, internal: bool) -> NewResource {
    NewResource {
        id: Some(span),
        parent_resource_id: parent,
        kind: Some(kind),
        metadata: Some(1),
        concrete_type: ty.to_string(),
        location: Some(Location { file: Some("src/lib.rs".to_string()), module: None, line: Some(5), column: Some(1) }),
        is_internal: internal,
    }
}

fn created(secs: i64, dropped: Option<i64>) -> RawResourceStats {
    RawResourceStats { created_at: Some(at(secs)), dropped_at: dropped.map(at), attributes: vec![] }
}

fn state_with_resources() -> State {
    let mut stats_update = HashMap::new();
    stats_update.insert(10, created(90, None));
    stats_update.insert(11, created(95, None));
    stats_update.insert(12, created(95, None));
    let update = Update {
        now: Some(at(100)),
        new_metadata: Some(vec![ProtoMetadataEntry {
            id: Some(1),
            metadata: Some(ProtoMetadata { field_names: vec![], target: "tokio::sync".to_string() }),
        }]),
        task_update: None,
        resource_update: Some(ResourceUpdate {
            new_resources: vec![
                new_resource(10, KindValue::Known(0), None, "Sleep", false),
                new_resource(11, KindValue::Other("Mutex".to_string()), Some(10), "Mutex<()>", true),
                new_resource(12, KindValue::Known(7), None, "Mystery", false),
            ],
            stats_update,
            dropped_events: 1,
        }),
    };
    let mut state = State::new().with_retain_for(Some(Duration::from_secs(6)));
    state.update(&styles(), &ViewState::ResourcesList, update, at(100));
    state
}

#[test]
fn announced_resources_are_stored_with_their_kind_and_parent() {
    let mut state = state_with_resources();
    let ids = state.resources_state_mut().take_new_resources();
    assert_eq!(ids.len(), 2);
    assert_eq!(state.resources_state().dropped_events(), 1);
    let timer = state.resources_state().resource(ids[0]).unwrap();
    assert_eq!(timer.kind(), "Timer");
    assert_eq!(timer.parent_id(), "n/a");
    assert_eq!(timer.target(), "tokio::sync");
    assert_eq!(timer.concrete_type(), "Sleep");
    assert_eq!(timer.location(), "src/lib.rs:5:1");
    assert_eq!(timer.type_visibility(), TypeVisibility::Public);
    assert_eq!(timer.total(at(100)), Duration::from_secs(10));
    let mutex = state.resources_state().resource(ids[1]).unwrap();
    assert_eq!(mutex.kind(), "Mutex");
    assert_eq!(mutex.parent_id(), timer.id_str());
    assert_eq!(mutex.type_visibility(), TypeVisibility::Internal);
}

#[test]
fn dropped_resources_leave_after_the_retention_time() {
    let mut state = state_with_resources();
    let ids = state.resources_state_mut().take_new_resources();
    let mut stats_update = HashMap::new();
    stats_update.insert(10, created(90, Some(101)));
    let update = Update {
        now: Some(at(110)),
        new_metadata: None,
        task_update: None,
        resource_update: Some(ResourceUpdate { new_resources: vec![], stats_update, dropped_events: 0 }),
    };
    state.update(&styles(), &ViewState::ResourcesList, update, at(110));
    assert!(state.resources_state().resource(ids[0]).unwrap().dropped());
    state.retain_active();
    assert!(state.resources_state().resource(ids[0]).is_none());
    assert!(state.resources_state().resource(ids[1]).is_some());
}

#[test]
fn the_resource_list_shows_every_resource() {
    let mut state = state_with_resources();
    let mut list: TableListState<SortBy> = TableListState::new(9);
    let table = resources_table(&mut list, state.resources_state_mut(), &styles(), at(100), 4, 10);
    assert_eq!(table.rows.len(), 2);
    assert_eq!(list.sorted_items.len(), 2);
    assert_eq!(resource_header_names().len(), 9);
    assert_eq!(resource_header_names()[0], "ID");
}

#[test]
fn the_resource_view_shows_an_overview() {
    let mut state = state_with_resources();
    let ids = state.resources_state_mut().take_new_resources();
    let mutex = state.resources_state().resource(ids[1]).unwrap();
    let lines = resource_overview(mutex, &styles());
    let texts: Vec<String> = lines.iter().map(|l| l.iter().map(|s| s.content.clone()).collect::<String>()).collect();
    assert_eq!(texts[2], "Kind: Mutex");
    assert_eq!(texts[3], "Target: tokio::sync");
    assert_eq!(texts[4], "Type: Mutex<()> INT");
    assert_eq!(texts[5], "Location: src/lib.rs:5:1");
    let controls = resource_view_controls();
    assert_eq!(controls.len(), 7);
    assert_eq!(controls[1].action, "select column (sort)");
}
