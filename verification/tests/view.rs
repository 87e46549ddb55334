use tokio_console::config::{ColorToggles, Palette};
use tokio_console::input::{Event, KeyCode, KeyEvent};
use tokio_console::styles::{Span, Style, Styles};
use tokio_console::tasks::SortBy;
use tokio_console::view::{
    bold, controls_paragraph, universal_controls, view_controls, ControlDisplay, Controls,
    TableListState, UpdateKind, View, ViewState, Width,
};
use tokio_console::state::State;

fn styles(utf8: bool) -> Styles {
    Styles {
        palette: Palette::All,
        toggles: ColorToggles { color_durations: None, color_terminated: None },
        utf8,
    }
}

fn table(items: &[u64]) -> TableListState<SortBy> {
    let mut t: TableListState<SortBy> = TableListState::new(12);
    t.sorted_items = items.to_vec();
    t
}

fn key(c: char) -> KeyEvent {
    KeyEvent::press(KeyCode::Char(c))
}

fn texts(spans: &[Span]) -> Vec<String> {
    spans.iter().map(|s| s.content.clone()).collect()
}

#[test]
fn columns_grow_to_fit_up_to_a_hundred() {
    let mut w = Width::new(4);
    w.update_len(2);
    assert_eq!(w.chars(), 4);
    w.update_len(9);
    assert_eq!(w.constraint(), 9);
    assert_eq!(w.update_str("a longer name"), "a longer name");
    assert_eq!(w.chars(), 13);
    w.update_len(500);
    assert_eq!(w.chars(), 100);
}

#[test]
fn new_table_is_sorted_by_total_with_nothing_selected() {
    let t: TableListState<SortBy> = TableListState::new(12);
    assert_eq!(t.sort_by, SortBy::Total);
    assert_eq!(t.selected_column, SortBy::Total.as_column());
    assert!(!t.sort_descending);
    assert_eq!(t.selected, None);
    assert_eq!(t.len(), 0);
    assert_eq!(t.selected_item(), None);
}

#[test]
fn scrolling_wraps_around_the_rows() {
    let mut t = table(&[10, 20, 30]);
    t.scroll_next();
    assert_eq!(t.selected, Some(1));
    t.scroll_prev();
    assert_eq!(t.selected, Some(0));
    t.scroll_prev();
    assert_eq!(t.selected, Some(2));
    t.scroll_next();
    assert_eq!(t.selected, Some(0));
    t.scroll_to_last();
    assert_eq!(t.selected, Some(2));
    t.scroll_to_first();
    assert_eq!(t.selected, Some(0));
    let mut empty = table(&[]);
    empty.scroll_next();
    assert_eq!(empty.selected, None);
}

#[test]
fn selected_item_counts_from_the_bottom_in_ascending_order() {
    let mut t = table(&[10, 20, 30]);
    t.selected = Some(0);
    assert_eq!(t.selected_item(), Some(30));
    t.sort_descending = true;
    assert_eq!(t.selected_item(), Some(10));
}

#[test]
fn keys_move_the_column_and_the_selection() {
    let mut t = table(&[1, 2, 3, 4]);
    let start = t.selected_column;
    t.update_input(Event::Key(KeyEvent::press(KeyCode::Left)));
    assert_eq!(t.selected_column, start - 1);
    assert_eq!(t.sort_by, SortBy::try_from(start - 1).unwrap());
    t.key_input(key('l'));
    assert_eq!(t.selected_column, start);
    t.key_input(key('i'));
    assert!(t.sort_descending);
    t.key_input(key('j'));
    assert_eq!(t.selected, Some(1));
    t.key_input(key('G'));
    assert_eq!(t.selected, Some(3));
    t.key_input(key('g'));
    assert_eq!(t.selected, Some(3));
    t.key_input(key('g'));
    assert_eq!(t.selected, Some(0));
    t.update_input(Event::Mouse);
    assert_eq!(t.selected, Some(0));
    assert_eq!(t.last_key_event, Some(key('g')));
}

#[test]
fn selected_column_wraps_around() {
    let mut t = table(&[]);
    t.selected_column = 0;
    t.key_input(KeyEvent::press(KeyCode::Left));
    assert_eq!(t.selected_column, 11);
    t.key_input(key('l'));
    assert_eq!(t.selected_column, 0);
    assert_eq!(t.sort_by, SortBy::Warns);
}

#[test]
fn a_control_shows_its_action_and_keys() {
    let c = ControlDisplay::new_simple("quit", "q");
    let spans = c.into_spans(&styles(true), 2);
    assert_eq!(texts(&spans), vec!["  ", "quit", " = ", "q"]);
    assert_eq!(spans[3].style, bold("q").style);
    assert_eq!(spans[0].style, Style::plain());
    let vc = view_controls();
    let ascii = texts(&vc[0].into_spans(&styles(false), 0));
    assert_eq!(ascii, vec!["", "select column (sort)", " = ", "left, right", " or ", "h, l"]);
    let utf8 = texts(&vc[0].into_spans(&styles(true), 0));
    assert_eq!(utf8[3], "\u{2190}\u{2192}");
    assert_eq!(universal_controls().len(), 3);
    assert_eq!(universal_controls()[2].action, "quit");
}

#[test]
fn controls_wrap_to_the_width() {
    let vc = view_controls();
    let wide = Controls::new(&vc, 1000, &styles(false));
    assert_eq!(wide.height, 1);
    assert_eq!(wide.lines.len(), 1);
    let narrow = Controls::new(&vc, 40, &styles(false));
    assert!(narrow.lines.len() > 1);
    assert_eq!(narrow.height as usize, narrow.lines.len());
    let first = texts(&narrow.lines[0]);
    assert_eq!(first[0], "controls: ");
    let paragraph = controls_paragraph(&vc, &styles(false));
    assert_eq!(paragraph.len(), 1 + vc.len() + 3);
}

#[test]
fn keys_switch_between_the_lists_and_escape_returns() {
    let mut view = View::new(styles(true));
    let state = State::new();
    let key = |c: KeyCode| Event::Key(KeyEvent::press(c));
    assert_eq!(view.list.selected_column, 4);
    assert_eq!(view.resources_list.selected_column, 0);
    assert_eq!(view.update_input(key(KeyCode::Char('r')), &state), UpdateKind::Other);
    assert_eq!(view.state, ViewState::ResourcesList);
    // Nothing is selected: enter stays on the list.
    assert_eq!(view.update_input(key(KeyCode::Enter), &state), UpdateKind::Other);
    assert_eq!(view.state, ViewState::ResourcesList);
    assert_eq!(view.update_input(key(KeyCode::Char('t')), &state), UpdateKind::Other);
    assert_eq!(view.state, ViewState::TasksList);
    view.state = ViewState::ResourceInstance(3);
    assert_eq!(view.update_input(key(KeyCode::Esc), &state), UpdateKind::Other);
    assert_eq!(view.state, ViewState::ResourcesList);
    view.state = ViewState::TaskInstance(3);
    assert_eq!(view.update_input(key(KeyCode::Char('x')), &state), UpdateKind::Other);
    assert_eq!(view.state, ViewState::TaskInstance(3));
    assert_eq!(view.update_input(key(KeyCode::Esc), &state), UpdateKind::ExitTaskView);
    assert_eq!(view.state, ViewState::TasksList);
    view.state = ViewState::TaskInstance(3);
    assert_eq!(view.update_input(key(KeyCode::Char('r')), &state), UpdateKind::Other);
    assert_eq!(view.state, ViewState::ResourcesList);
}
