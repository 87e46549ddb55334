use std::collections::HashMap;

use tokio_console::config::{ColorToggles, Palette};
use tokio_console::fields::{FieldName, FieldValue, ProtoField, ProtoMetadata};
use tokio_console::location::Location;
use tokio_console::state::{ProtoMetadataEntry, State, Update};
use tokio_console::styles::{Span, Styles};
use tokio_console::task_view::{
    location_lines, task_layout, task_overview, task_view_controls, task_waker_lines,
    task_warning_lines, warnings_describable_at, Constraint,
};
use tokio_console::tasks::{NewTask, RawPollStats, RawTaskStats, TaskUpdate};
use tokio_console::time::{Duration, SystemTime};
use tokio_console::view::ViewState;
use tokio_console::warnings::{Linter, SelfWakePercent};

fn at(secs: i64) -> SystemTime {
    SystemTime::from_unix(secs, 0)
}

fn styles() -> Styles {
    Styles {
        palette: Palette::NoColors,
        toggles: ColorToggles { color_durations: None, color_terminated: None },
        utf8: false,
    }
}

fn texts(line: &[Span]) -> Vec<String> {
    line.iter().map(|s| s.content.clone()).collect()
}

fn one_task_state() -> State {
    let styles = styles();
    let mut state = State::new().with_task_linters(vec![Linter::SelfWakes(SelfWakePercent::new(50))]);
    let mut stats_update = HashMap::new();
    stats_update.insert(
        5,
        RawTaskStats {
            created_at: Some(at(90)),
            dropped_at: None,
            poll_stats: Some(RawPollStats {
                polls: 4,
                busy_time: Some(Duration::from_secs(2)),
                last_poll_started: Some(at(96)),
                last_poll_ended: Some(at(97)),
            }),
            scheduled_time: Some(Duration::from_secs(1)),
            last_wake: Some(at(95)),
            wakes: 4,
            waker_clones: 3,
            waker_drops: 1,
            self_wakes: 3,
        },
    );
    let update = Update {
        now: Some(at(100)),
        new_metadata: Some(vec![ProtoMetadataEntry {
            id: Some(1),
            metadata: Some(ProtoMetadata { field_names: vec![], target: "app::jobs".to_string() }),
        }]),
        task_update: Some(TaskUpdate {
            new_tasks: vec![NewTask {
                id: Some(5),
                metadata: Some(1),
                fields: vec![ProtoField {
                    name: Some(FieldName::Str("task.name".to_string())),
                    metadata_id: Some(1),
                    value: Some(FieldValue::Str("jobs".to_string())),
                }],
                location: Some(Location {
                    file: Some("src/jobs/runner.rs".to_string()),
                    module: None,
                    line: Some(120),
                    column: Some(9),
                }),
            }],
            stats_update,
            dropped_events: 0,
        }),
        resource_update: None,
    };
    state.update(&styles, &ViewState::TasksList, update, at(100));
    state
}

#[test]
fn locations_are_cut_into_lines() {
    assert_eq!(location_lines("abcdefg", 3), vec!["abc", "def", "g"]);
    assert_eq!(location_lines("abc", 3), vec!["abc"]);
    assert_eq!(location_lines("", 3), Vec::<String>::new());
}

#[test]
fn the_screen_is_divided_by_warnings_and_location() {
    let plain = task_layout(3, 0, 20, 40, 1);
    assert_eq!(
        plain.rows,
        vec![
            Constraint::Length(3),
            Constraint::Length(10),
            Constraint::Length(9),
            Constraint::Length(9),
            Constraint::Percentage(60)
        ]
    );
    assert!(!plain.warnings_shown);
    assert_eq!(plain.stats_columns, vec![Constraint::Percentage(50), Constraint::Percentage(50)]);
    let long = task_layout(2, 2, 90, 40, 3);
    assert_eq!(
        long.rows,
        vec![
            Constraint::Length(2),
            Constraint::Length(4),
            Constraint::Length(12),
            Constraint::Length(9),
            Constraint::Length(9),
            Constraint::Percentage(60)
        ]
    );
    assert!(long.warnings_shown);
    assert_eq!(long.stats_columns, vec![Constraint::Min(105), Constraint::Min(32)]);
}

#[test]
fn the_overview_shows_the_task() {
    let mut state = one_task_state();
    let ids = state.tasks_state_mut().take_new_tasks();
    let task = state.tasks_state().task(ids[0]).unwrap();
    let lines = task_overview(task, &styles(), at(100), 2, 12);
    let all: Vec<Vec<String>> = lines.iter().map(|l| texts(l)).collect();
    assert_eq!(all[0], vec!["ID: ", &format!("{} ", task.id_str()), "IDLE"]);
    assert_eq!(all[1], vec!["Name: ", "jobs"]);
    assert_eq!(all[2], vec!["Target: ", "app::jobs"]);
    assert_eq!(all[3], vec!["Location: ", "src/jobs/run"]);
    assert_eq!(all[4], vec!["    ner.rs:120:9"]);
    assert_eq!(all[5], vec!["Total Time: ", "10.00s"]);
    assert_eq!(all[6], vec!["Busy: ", "2.00s"]);
    assert_eq!(all[7], vec!["Scheduled: ", "1.00s"]);
    assert_eq!(all[8], vec!["Idle: ", "7.00s"]);
    assert_eq!(all.len(), 9);
}

#[test]
fn the_waker_panel_counts_wakers_and_wakes() {
    let mut state = one_task_state();
    let ids = state.tasks_state_mut().take_new_tasks();
    let task = state.tasks_state().task(ids[0]).unwrap();
    let lines = task_waker_lines(task, &styles(), at(100), 2);
    let all: Vec<Vec<String>> = lines.iter().map(|l| texts(l)).collect();
    assert_eq!(all[0], vec!["Current wakers: ", "2 "]);
    assert_eq!(all[1], vec!["  Clones: ", "3, "]);
    assert_eq!(all[2], vec!["  Drops: ", "1"]);
    assert_eq!(all[3], vec!["Woken: ", "4 times"]);
    assert_eq!(all[4], vec!["Last woken: ", "5.00s", " ago"]);
    assert_eq!(all[5], vec!["Self Wakes: ", "3 times (75%)"]);
}

#[test]
fn the_warnings_panel_describes_each_warning() {
    let mut state = one_task_state();
    let ids = state.tasks_state_mut().take_new_tasks();
    let linters = vec![Linter::SelfWakes(SelfWakePercent::new(50))];
    let task = state.tasks_state().task(ids[0]).unwrap();
    assert!(warnings_describable_at(task, &linters, at(100)));
    let lines = task_warning_lines(task, &linters, &styles(), at(100));
    assert_eq!(lines.len(), 1);
    assert_eq!(
        texts(&lines[0]),
        vec![
            "/!\\ ".to_string(),
            ["This", " task has woken itself for more than 50% of its total wakeups (75%)"].concat()
        ]
    );
    assert!(!warnings_describable_at(task, &[], at(100)));
}

#[test]
fn escape_returns_to_the_task_list() {
    let c = task_view_controls();
    assert_eq!(c.len(), 1);
    assert_eq!(c[0].action, "return to task list");
    assert_eq!(c[0].keys[0].base, "esc");
}
