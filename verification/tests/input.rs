use tokio_console::input::{
    is_esc, is_help_toggle, is_space, should_ignore_key_event, should_quit, Event, KeyCode, KeyEvent,
    KeyEventKind, KeyModifiers,
};

#[test]
fn ignore_key_repeat_and_release_events() {
    let event = Event::Key(KeyEvent {
        code: KeyCode::Char('a'),
        modifiers: KeyModifiers::empty(),
        kind: KeyEventKind::Press,
    });

    assert!(!should_ignore_key_event(&event));

    let event = Event::Key(KeyEvent {
        code: KeyCode::Char('a'),
        modifiers: KeyModifiers::empty(),
        kind: KeyEventKind::Release,
    });

    assert!(should_ignore_key_event(&event));

    let event = Event::Key(KeyEvent {
        code: KeyCode::Char('a'),
        modifiers: KeyModifiers::empty(),
        kind: KeyEventKind::Repeat,
    });

    assert!(should_ignore_key_event(&event));
}

#[test]
fn mouse_events_are_not_ignored_as_key_repeats() {
    assert!(!should_ignore_key_event(&Event::Mouse));
}

#[test]
fn q_and_control_c_quit() {
    assert!(should_quit(&Event::Key(KeyEvent::press(KeyCode::Char('q')))));
    let ctrl_c = Event::Key(KeyEvent {
        code: KeyCode::Char('c'),
        modifiers: KeyModifiers::control(),
        kind: KeyEventKind::Press,
    });
    assert!(should_quit(&ctrl_c));
    assert!(!should_quit(&Event::Key(KeyEvent::press(KeyCode::Char('c')))));
    assert!(!should_quit(&Event::Mouse));
}

#[test]
fn space_help_and_escape_keys() {
    assert!(is_space(&Event::Key(KeyEvent::press(KeyCode::Char(' ')))));
    assert!(!is_space(&Event::Key(KeyEvent::press(KeyCode::Char('x')))));
    assert!(is_help_toggle(&Event::Key(KeyEvent::press(KeyCode::Char('?')))));
    assert!(!is_help_toggle(&Event::Key(KeyEvent::press(KeyCode::Char('h')))));
    assert!(is_esc(&Event::Key(KeyEvent::press(KeyCode::Esc))));
    assert!(!is_esc(&Event::Mouse));
}

#[test]
fn default_modifiers_are_empty() {
    assert_eq!(KeyModifiers::default(), KeyModifiers::empty());
}
