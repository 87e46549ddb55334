use std::collections::HashMap;

use tokio_console::config::{ColorToggles, Palette};
use tokio_console::fields::{FieldName, FieldValue, ProtoField, ProtoMetadata};
use tokio_console::location::Location;
use tokio_console::state::{ProtoMetadataEntry, State, Update};
use tokio_console::styles::Styles;
use tokio_console::table::{task_header_names, tasks_table};
use tokio_console::tasks::{NewTask, RawPollStats, RawTaskStats, SortBy, TaskUpdate};
use tokio_console::time::{Duration, SystemTime};
use tokio_console::view::{TableListState, ViewState};
use tokio_console::warnings::{Linter, SelfWakePercent};

fn at(secs: i64) -> SystemTime {
    SystemTime::from_unix(secs, 0)
}

fn styles() -> Styles {
    Styles {
        palette: Palette::All,
        toggles: ColorToggles { color_durations: None, color_terminated: None },
        utf8: false,
    }
}

fn stats(created: i64, self_wakes: u64) -> RawTaskStats {
    RawTaskStats {
        created_at: Some(at(created)),
        dropped_at: None,
        poll_stats: Some(RawPollStats {
            polls: 1,
            busy_time: Some(Duration::from_secs(1)),
            last_poll_started: Some(at(created)),
            last_poll_ended: Some(at(created + 1)),
        }),
        scheduled_time: None,
        last_wake: None,
        wakes: 2,
        waker_clones: 1,
        waker_drops: 0,
        self_wakes,
    }
}

fn named(span_id: u64, name: &str) -> NewTask {
    NewTask {
        id: Some(span_id),
        metadata: Some(1),
        fields: vec![ProtoField {
            name: Some(FieldName::Str("task.name".to_string())),
            metadata_id: Some(1),
            value: Some(FieldValue::Str(name.to_string())),
        }],
        location: Some(Location { file: Some("src/lib.rs".to_string()), module: None, line: Some(3), column: None }),
    }
}

fn state_with_two_tasks() -> State {
    let styles = styles();
    let mut state = State::new().with_task_linters(vec![Linter::SelfWakes(SelfWakePercent::new(50))]);
    let mut stats_update = HashMap::new();
    stats_update.insert(1, stats(90, 0));
    stats_update.insert(2, stats(80, 2));
    let update = Update {
        now: Some(at(100)),
        new_metadata: Some(vec![ProtoMetadataEntry {
            id: Some(1),
            metadata: Some(ProtoMetadata { field_names: vec![], target: "app".to_string() }),
        }]),
        task_update: Some(TaskUpdate {
            new_tasks: vec![named(1, "young"), named(2, "old")],
            stats_update,
            dropped_events: 0,
        }),
        resource_update: None,
    };
    state.update(&styles, &ViewState::TasksList, update, at(100));
    state
}

fn texts(spans: &[tokio_console::styles::Span]) -> Vec<String> {
    spans.iter().map(|s| s.content.clone()).collect()
}

#[test]
fn the_task_list_shows_every_task_sorted() {
    let mut state = state_with_two_tasks();
    let mut list: TableListState<SortBy> = TableListState::new(12);
    let table = tasks_table(&mut list, state.tasks_state_mut(), &styles(), at(100), 4, 10);
    assert_eq!(table.rows.len(), 2);
    assert_eq!(list.sorted_items.len(), 2);
    let names: Vec<String> = table.rows.iter().map(|r| texts(&r.cells[3]).concat()).collect();
    assert_eq!(names, vec!["old", "young"]);
    assert_eq!(texts(&table.title), vec!["Tasks (2) ", "BUSY", " Running (0) ", "IDLE", " Idle (2)"]);
    assert_eq!(table.num_idle, 2);
    assert_eq!(texts(&table.header)[4], "Total-");
    assert_eq!(texts(&table.header)[3], "Name");
    assert_eq!(table.warnings.len(), 1);
    assert_eq!(
        texts(&table.warnings[0]),
        vec!["/!\\ ", "1 tasks have woken themselves more than 50% of the time"]
    );
    assert_eq!(texts(&table.rows[0].cells[10]).concat(), "src/lib.rs:3");
    assert_eq!(texts(&table.rows[0].cells[9]).concat(), "app");
}

#[test]
fn the_task_list_keeps_its_rows_between_frames() {
    let mut state = state_with_two_tasks();
    let mut list: TableListState<SortBy> = TableListState::new(12);
    let _ = tasks_table(&mut list, state.tasks_state_mut(), &styles(), at(100), 4, 10);
    list.sort_descending = true;
    let table = tasks_table(&mut list, state.tasks_state_mut(), &styles(), at(100), 4, 10);
    assert_eq!(table.rows.len(), 2);
    let names: Vec<String> = table.rows.iter().map(|r| texts(&r.cells[3]).concat()).collect();
    assert_eq!(names, vec!["young", "old"]);
    assert_eq!(texts(&table.header)[4], "Total+");
}

#[test]
fn the_task_list_has_twelve_columns() {
    assert_eq!(
        task_header_names(),
        vec!["Warn", "ID", "State", "Name", "Total", "Busy", "Sched", "Idle", "Polls", "Kind", "Location", "Fields"]
    );
}
