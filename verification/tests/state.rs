use std::collections::HashMap;

use tokio_console::config::{ColorToggles, Palette};
use tokio_console::fields::{FieldName, FieldValue, ProtoField, ProtoMetadata};
use tokio_console::location::Location;
use tokio_console::state::{ProtoMetadataEntry, State, Update};
use tokio_console::styles::Styles;
use tokio_console::tasks::{raw_stats_fit, NewTask, RawPollStats, RawTaskStats, SortBy, TaskState, TaskUpdate};
use tokio_console::time::{Duration, SystemTime};
use tokio_console::view::ViewState;
use tokio_console::warnings::{Linter, LostWaker, SelfWakePercent};

fn at(secs: i64) -> SystemTime {
    SystemTime::from_unix(secs, 0)
}

fn styles() -> Styles {
    Styles {
        palette: Palette::All,
        toggles: ColorToggles { color_durations: None, color_terminated: None },
        utf8: true,
    }
}

fn metadata_update() -> Update {
    Update {
        now: Some(at(100)),
        new_metadata: Some(vec![ProtoMetadataEntry {
            id: Some(1),
            metadata: Some(ProtoMetadata {
                field_names: vec!["task.name".to_string(), "kind".to_string()],
                target: "tokio::task".to_string(),
            }),
        }]),
        task_update: None,
        resource_update: None,
    }
}

fn raw_stats(dropped_at: Option<SystemTime>, wakes: u64, self_wakes: u64) -> RawTaskStats {
    RawTaskStats {
        created_at: Some(at(90)),
        dropped_at,
        poll_stats: Some(RawPollStats {
            polls: 3,
            busy_time: Some(Duration::from_secs(1)),
            last_poll_started: Some(at(95)),
            last_poll_ended: Some(at(96)),
        }),
        scheduled_time: Some(Duration::from_secs(2)),
        last_wake: Some(at(95)),
        wakes,
        waker_clones: 2,
        waker_drops: 1,
        self_wakes,
    }
}

fn new_task(span_id: u64, name: &str) -> NewTask {
    NewTask {
        id: Some(span_id),
        metadata: Some(1),
        fields: vec![
            ProtoField {
                name: Some(FieldName::Str("task.name".to_string())),
                metadata_id: Some(1),
                value: Some(FieldValue::Str(name.to_string())),
            },
            ProtoField {
                name: Some(FieldName::Index(1)),
                metadata_id: Some(1),
                value: Some(FieldValue::Debug("task".to_string())),
            },
        ],
        location: Some(Location {
            file: Some("src/main.rs".to_string()),
            module: None,
            line: Some(10),
            column: Some(5),
        }),
    }
}

fn task_update(tasks: Vec<NewTask>, stats: Vec<(u64, RawTaskStats)>) -> Update {
    let mut stats_update = HashMap::new();
    for (k, v) in stats {
        stats_update.insert(k, v);
    }
    Update {
        now: Some(at(100)),
        new_metadata: None,
        task_update: Some(TaskUpdate { new_tasks: tasks, stats_update, dropped_events: 2 }),
        resource_update: None,
    }
}

fn linters() -> Vec<Linter> {
    vec![
        Linter::SelfWakes(SelfWakePercent::new(50)),
        Linter::LostWaker(LostWaker),
    ]
}

#[test]
fn announced_tasks_are_stored_with_their_fields_and_stats() {
    let styles = styles();
    let mut state = State::new().with_retain_for(Some(Duration::from_secs(6))).with_task_linters(linters());
    state.update(&styles, &ViewState::TasksList, metadata_update(), at(100));
    assert_eq!(state.last_updated_at(), Some(at(100)));
    state.update(
        &styles,
        &ViewState::TasksList,
        task_update(vec![new_task(7, "worker")], vec![(7, raw_stats(None, 4, 3))]),
        at(100),
    );
    let ids = state.tasks_state_mut().take_new_tasks();
    assert_eq!(ids.len(), 1);
    let task = state.tasks_state().task(ids[0]).unwrap();
    assert_eq!(task.name(), Some("worker"));
    assert_eq!(task.target(), "tokio::task");
    assert_eq!(task.location(), "src/main.rs:10:5");
    assert_eq!(task.total_polls(), 3);
    assert_eq!(task.waker_count(), 1);
    assert_eq!(task.self_wake_percent(), 75);
    assert_eq!(task.state(), TaskState::Idle);
    assert_eq!(task.busy(at(100)), Duration::from_secs(1));
    assert_eq!(task.total(at(100)), Duration::from_secs(10));
    assert_eq!(task.warnings(), &[0usize][..]);
    assert_eq!(task.fields().len(), 1);
    assert_eq!(task.fields()[0].name.as_str(), "kind");
    assert_eq!(state.tasks_state().warning_count(0), 1);
    assert_eq!(state.tasks_state().warning_count(1), 0);
    assert_eq!(state.tasks_state().dropped_events(), 2);
}

#[test]
fn tasks_without_statistics_or_metadata_are_not_stored() {
    let styles = styles();
    let mut state = State::new();
    state.update(&styles, &ViewState::TasksList, metadata_update(), at(100));
    let mut orphan = new_task(9, "orphan");
    orphan.metadata = Some(42);
    state.update(
        &styles,
        &ViewState::TasksList,
        task_update(vec![new_task(8, "no-stats"), orphan], vec![(9, raw_stats(None, 0, 0))]),
        at(100),
    );
    assert_eq!(state.tasks_state_mut().take_new_tasks().len(), 0);
}

#[test]
fn completed_tasks_are_dropped_after_the_retention_time() {
    let styles = styles();
    let mut state = State::new().with_retain_for(Some(Duration::from_secs(6)));
    state.update(&styles, &ViewState::TasksList, metadata_update(), at(100));
    state.update(
        &styles,
        &ViewState::TasksList,
        task_update(vec![new_task(7, "worker")], vec![(7, raw_stats(None, 1, 0))]),
        at(100),
    );
    let ids = state.tasks_state_mut().take_new_tasks();
    let mut done = task_update(vec![], vec![(7, raw_stats(Some(at(101)), 1, 0))]);
    done.now = Some(at(104));
    state.update(&styles, &ViewState::TasksList, done, at(104));
    assert!(state.tasks_state().task(ids[0]).unwrap().is_completed());
    state.retain_active();
    assert!(state.tasks_state().task(ids[0]).is_some());
    let mut later = task_update(vec![], vec![]);
    later.now = Some(at(107));
    state.update(&styles, &ViewState::TasksList, later, at(107));
    state.pause();
    state.retain_active();
    assert!(state.tasks_state().task(ids[0]).is_some());
    state.resume();
    assert!(!state.is_paused());
    state.retain_active();
    assert!(state.tasks_state().task(ids[0]).is_none());
}

#[test]
fn tasks_sort_by_polls_and_name() {
    let styles = styles();
    let mut state = State::new();
    state.update(&styles, &ViewState::TasksList, metadata_update(), at(100));
    let mut busy = raw_stats(None, 1, 0);
    busy.poll_stats.as_mut().unwrap().polls = 10;
    state.update(
        &styles,
        &ViewState::TasksList,
        task_update(
            vec![new_task(1, "b"), new_task(2, "a")],
            vec![(1, raw_stats(None, 1, 0)), (2, busy)],
        ),
        at(100),
    );
    let ids: Vec<u64> = state.tasks_state_mut().take_new_tasks().iter().map(|i| i.as_u64()).collect();
    assert_eq!(ids.len(), 2);
    let mut order = ids.clone();
    SortBy::Polls.sort(at(100), state.tasks_state(), &mut order);
    assert_eq!(order, vec![ids[0], ids[1]]);
    let mut by_name = ids.clone();
    SortBy::Name.sort(at(100), state.tasks_state(), &mut by_name);
    assert_eq!(by_name, vec![ids[1], ids[0]]);
}

#[test]
fn self_wake_summary_names_the_percentage() {
    let lint = Linter::SelfWakes(SelfWakePercent::new(50));
    assert_eq!(lint.summary(), "tasks have woken themselves more than 50% of the time");
    let lint = Linter::SelfWakes(SelfWakePercent::new(7));
    assert_eq!(lint.summary(), "tasks have woken themselves more than 7% of the time");
}

#[test]
fn strings_of_dropped_tasks_leave_the_interner_unless_paused() {
    let styles = styles();
    let mut state = State::new().with_retain_for(Some(Duration::from_secs(6)));
    assert!(!state.interns("tokio::task"));
    state.update(&styles, &ViewState::TasksList, metadata_update(), at(100));
    state.update(
        &styles,
        &ViewState::TasksList,
        task_update(vec![new_task(7, "worker")], vec![(7, raw_stats(None, 1, 0))]),
        at(100),
    );
    assert!(state.interns("worker"));
    assert!(state.interns("tokio::task"));
    let mut done = task_update(vec![], vec![(7, raw_stats(Some(at(101)), 1, 0))]);
    done.now = Some(at(110));
    state.update(&styles, &ViewState::TasksList, done, at(110));
    state.pause();
    state.retain_active();
    assert!(state.interns("worker"));
    state.resume();
    state.retain_active();
    assert!(!state.interns("worker"));
    // The metadata still holds its target and field names.
    assert!(state.interns("tokio::task"));
    assert!(state.interns("kind"));
}

#[test]
fn only_dropped_tasks_need_busy_and_scheduled_to_add_up() {
    let mut live = raw_stats(None, 1, 0);
    live.scheduled_time = Some(Duration::from_secs(u64::MAX));
    assert!(raw_stats_fit(&live));
    let mut dropped = raw_stats(Some(at(101)), 1, 0);
    dropped.scheduled_time = Some(Duration::from_secs(u64::MAX));
    assert!(!raw_stats_fit(&dropped));
    assert!(raw_stats_fit(&raw_stats(Some(at(101)), 1, 0)));
}

#[test]
fn warning_count_follows_the_warned_tasks() {
    let styles = styles();
    let mut state = State::new().with_retain_for(Some(Duration::from_secs(6))).with_task_linters(linters());
    state.update(&styles, &ViewState::TasksList, metadata_update(), at(100));
    state.update(
        &styles,
        &ViewState::TasksList,
        task_update(
            vec![new_task(7, "busy"), new_task(8, "calm")],
            vec![(7, raw_stats(None, 4, 3)), (8, raw_stats(None, 4, 0))],
        ),
        at(100),
    );
    assert_eq!(state.tasks_state().warning_count(0), 1);
    state.update(
        &styles,
        &ViewState::TasksList,
        task_update(vec![new_task(9, "loud")], vec![(9, raw_stats(None, 10, 9))]),
        at(100),
    );
    assert_eq!(state.tasks_state().warning_count(0), 2);
    let mut done = task_update(vec![], vec![(7, raw_stats(Some(at(101)), 4, 3))]);
    done.now = Some(at(110));
    state.update(&styles, &ViewState::TasksList, done, at(110));
    state.retain_active();
    assert_eq!(state.tasks_state().warning_count(0), 1);
}
