use tokio_console::config::{ColorToggles, Palette};
use tokio_console::conn::{ConnState, ConnectStep, Connection, Transport};
use tokio_console::styles::{Color, Modifier, Style, Styles};
use tokio_console::time::Duration;

fn styles() -> Styles {
    Styles {
        palette: Palette::All,
        toggles: ColorToggles { color_durations: None, color_terminated: None },
        utf8: true,
    }
}

fn texts(c: &Connection) -> Vec<String> {
    c.render(&styles()).iter().map(|s| s.content.clone()).collect()
}

#[test]
fn a_new_connection_connects_at_once() {
    let c = Connection::new("http://127.0.0.1:6669").unwrap();
    assert_eq!(c.target, "http://127.0.0.1:6669/");
    assert_eq!(c.scheme.as_deref(), Some("http"));
    assert_eq!(c.host.as_deref(), Some("127.0.0.1"));
    assert_eq!(c.state, ConnState::Disconnected(Duration::zero()));
    assert_eq!(c.connect_step(), Some(ConnectStep::Connect));
    assert!(matches!(c.transport(), Ok(Transport::Tcp)));
    assert_eq!(texts(&c), vec!["connection: ", "http://127.0.0.1:6669/", " ", "(CONNECTING)"]);
    assert!(Connection::new("http://[::1").is_none());
}

#[test]
fn failed_attempts_wait_longer_each_time() {
    let mut c = Connection::new("http://localhost:6669").unwrap();
    c.connect_finished(false);
    assert_eq!(c.state, ConnState::Disconnected(Duration::from_secs(5)));
    assert_eq!(c.connect_step(), Some(ConnectStep::Reconnect(Duration::from_secs(5))));
    c.connect_finished(false);
    assert_eq!(c.state, ConnState::Disconnected(Duration::from_nanos(5_500_000_000)));
    assert_eq!(texts(&c)[3], "(RECONNECTING IN 5.5s)");
    c.connect_finished(true);
    assert_eq!(c.state, ConnState::Connected);
    assert_eq!(c.connect_step(), None);
    assert_eq!(texts(&c)[3], "(CONNECTED)");
    assert_eq!(
        c.render(&styles())[3].style,
        Style::plain().fg(Color::Green).add_modifier(Modifier::bold())
    );
}

#[test]
fn lost_connections_are_retried_after_half_a_second() {
    let mut c = Connection::new("http://localhost:6669").unwrap();
    c.connect_finished(true);
    c.stream_ended();
    assert_eq!(c.state, ConnState::Disconnected(Duration::from_nanos(500_000_000)));
    c.connect_finished(true);
    assert!(!c.command_failed(false));
    assert_eq!(c.state, ConnState::Connected);
    assert!(c.command_failed(true));
    assert_eq!(c.state, ConnState::Disconnected(Duration::from_nanos(500_000_000)));
}

#[test]
fn transports_follow_the_scheme() {
    let unix = Connection::new("file://localhost/tmp/console.sock").unwrap();
    match unix.transport() {
        Ok(Transport::UnixSocket(p)) => assert_eq!(p, "/tmp/console.sock"),
        _ => panic!("a file URI names a unix domain socket"),
    }
    let remote = Connection::new("file://example.com/tmp/console.sock").unwrap();
    assert_eq!(
        remote.transport().err(),
        Some("cannot connect to non-localhost unix domain socket".to_string())
    );
    let vsock = Connection::new("vsock://1:6669").unwrap();
    assert_eq!(vsock.transport().err(), Some("vsock feature is not enabled".to_string()));
}

#[test]
fn the_status_line_notes_pauses_and_dropped_events() {
    let c = Connection::new("http://localhost:6669").unwrap();
    let line = |paused, a, t, r| -> Vec<String> {
        c.status_line(&styles(), paused, a, t, r).iter().map(|s| s.content.clone()).collect()
    };
    assert_eq!(line(false, 0, 0, 0).len(), 4);
    assert_eq!(line(true, 0, 0, 0)[4], " PAUSED");
    assert_eq!(line(false, 0, 3, 0)[4], " dropped: 3 tasks");
    assert_eq!(line(true, 1, 0, 2)[5], " dropped: 1 async_ops, 2 resources");
    assert_eq!(line(false, 1, 2, 3)[4], " dropped: 1 async_ops, 2 tasks, 3 resources");
    let spans = c.status_line(&styles(), true, 0, 0, 0);
    assert_eq!(spans[4].style, Style::plain().fg(Color::Red));
}
