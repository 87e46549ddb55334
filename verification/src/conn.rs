//! The connection to the instrumented program, as decisions: when to
//! connect, how long to wait before connecting again, which transport a
//! target address asks for, and how the connection is shown. The caller
//! performs each step (connecting, sleeping, reading the streams) and hands
//! the outcome back.
use vstd::prelude::*;
use crate::config::{opt_chars, parse_uri, uri_parts};
use crate::styles::{adding, fg_style_in, plain_style, span_views, Color, Modifier, Span, Style, Styles};
use crate::time::{duration_debug, Duration};
use crate::warnings::push_str;
use crate::text::{chars_of, decimal, string_from};

verus! {

/// How long to wait before connecting again after a connection was lost:
/// half a second, in nanoseconds.
pub open spec fn backoff_nanos() -> nat {
    500_000_000
}

/// The wait after a failed attempt to connect never falls below five
/// seconds, in nanoseconds.
pub open spec fn max_backoff_nanos() -> nat {
    5_000_000_000
}

/// Whether the console is connected, or else how long it waits before it
/// tries to connect (no time at first).
#[derive(PartialEq, Eq, Structural, Clone, Copy, Debug)]
pub enum ConnState {
    Connected,
    Disconnected(Duration),
}

/// What to do to connect: connect at once, or wait for the given time and
/// then connect.
#[derive(PartialEq, Eq, Structural, Clone, Copy, Debug)]
pub enum ConnectStep {
    Connect,
    Reconnect(Duration),
}

/// How the console reaches the instrumented program: a Unix domain socket
/// at a path, or a TCP connection to the address.
pub enum Transport {
    UnixSocket(String),
    Tcp,
}

/// The connection to the target address: the URI's parts and the state.
pub struct Connection {
    /// The URI written out.
    pub target: String,
    pub scheme: Option<String>,
    pub host: Option<String>,
    pub path: String,
    pub state: ConnState,
}

/// The wait after an attempt to connect that waited `d` failed: half a
/// second more, and at least five seconds.
pub open spec fn backoff_after(d: nat) -> nat {
    if d + backoff_nanos() >= max_backoff_nanos() {
        d + backoff_nanos()
    } else {
        max_backoff_nanos()
    }
}

/// The step to connect from state `s`, if the console is disconnected.
pub open spec fn step_of(s: ConnState) -> Option<ConnectStep> {
    match s {
        ConnState::Connected => None,
        ConnState::Disconnected(d) => if d.spec_nanos() == 0 {
            Some(ConnectStep::Connect)
        } else {
            Some(ConnectStep::Reconnect(d))
        },
    }
}

/// The transport that a URI with scheme `scheme` and host `host` asks for:
/// a Unix domain socket at `path` for `file` (on the local host only), an
/// error for `vsock` (which this console is built without), else TCP.
pub open spec fn transport_of(scheme: Option<Seq<char>>, host: Option<Seq<char>>, path: Seq<char>) -> Result<
    Seq<char>,
    Seq<char>,
> {
    if scheme == Some("file"@) {
        if host is None || host == Some("localhost"@) {
            Ok(path)
        } else {
            Err("cannot connect to non-localhost unix domain socket"@)
        }
    } else if scheme == Some("vsock"@) {
        Err("vsock feature is not enabled"@)
    } else {
        Ok(Seq::empty())
    }
}

/// The bold style in `color`, if the palette shows it.
pub open spec fn status_style(styles: Styles, color: Color) -> Style {
    adding(fg_style_in(styles.palette, color), Modifier { bold: true, dim: false, reversed: false })
}

/// How a connection state is shown.
pub open spec fn status_span(s: ConnState, styles: Styles) -> (Seq<char>, Style) {
    match s {
        ConnState::Connected => ("(CONNECTED)"@, status_style(styles, Color::Green)),
        ConnState::Disconnected(d) => if d.spec_nanos() == 0 {
            ("(CONNECTING)"@, status_style(styles, Color::Yellow))
        } else {
            (
                "(RECONNECTING IN "@ + duration_debug(d.parts().0, d.parts().1) + ")"@,
                status_style(styles, Color::Yellow),
            )
        },
    }
}

fn eq_str(s: &String, t: &str) -> (r: bool)
    ensures
        r == (s@ == t@),
{
    let v = chars_of(s.as_str());
    crate::config::chars_eq(v.as_slice(), t)
}

impl Connection {
    /// A connection to the URI `target`, not yet connected, that connects at
    /// once; nothing if `target` is not a URI.
    pub fn new(target: &str) -> (r: Option<Self>)
        ensures
            match uri_parts(target@) {
                Some((scheme, host, path, text)) => r matches Some(c) && opt_chars(c.scheme) == scheme
                    && opt_chars(c.host) == host && c.path@ == path && c.target@ == text
                    && (c.state matches ConnState::Disconnected(d) && d.spec_nanos() == 0),
                None => r is None,
            },
    {
        match parse_uri(target) {
            Some((scheme, host, path, text)) => Some(
                Connection {
                    target: text,
                    scheme,
                    host,
                    path,
                    state: ConnState::Disconnected(Duration::zero()),
                },
            ),
            None => None,
        }
    }

    /// What to do to connect: nothing when connected; connect at once the
    /// first time; else wait the backoff first.
    pub fn connect_step(&self) -> (r: Option<ConnectStep>)
        ensures
            r == step_of(self.state),
    {
        match self.state {
            ConnState::Connected => None,
            ConnState::Disconnected(d) => {
                if d.as_nanos() == 0 {
                    Some(ConnectStep::Connect)
                } else {
                    Some(ConnectStep::Reconnect(d))
                }
            },
        }
    }

    /// The transport that the target asks for, or why it cannot be used.
    pub fn transport(&self) -> (r: Result<Transport, String>)
        ensures
            match (r, transport_of(opt_chars(self.scheme), opt_chars(self.host), self.path@)) {
                (Ok(Transport::UnixSocket(p)), Ok(q)) => opt_chars(self.scheme) == Some("file"@) && p@ == q,
                (Ok(Transport::Tcp), Ok(_)) => opt_chars(self.scheme) != Some("file"@),
                (Err(e), Err(m)) => e@ == m,
                _ => false,
            },
    {
        proof {
            reveal_strlit("file");
            reveal_strlit("vsock");
        }
        let is_file = match &self.scheme {
            Some(s) => eq_str(s, "file"),
            None => false,
        };
        if is_file {
            let local = match &self.host {
                Some(h) => eq_str(h, "localhost"),
                None => true,
            };
            if local {
                return Ok(Transport::UnixSocket(self.path.clone()));
            }
            return Err("cannot connect to non-localhost unix domain socket".to_string());
        }
        let is_vsock = match &self.scheme {
            Some(s) => eq_str(s, "vsock"),
            None => false,
        };
        if is_vsock {
            return Err("vsock feature is not enabled".to_string());
        }
        Ok(Transport::Tcp)
    }

    /// The attempt to connect that the state asked for is over: connected if
    /// it succeeded, else the wait grows by half a second, to at least five
    /// seconds.
    pub fn connect_finished(&mut self, connected: bool)
        requires
            old(self).state matches ConnState::Disconnected(d) && d.spec_nanos() + backoff_nanos()
                <= crate::time::MAX_DURATION_NANOS,
        ensures
            connected ==> final(self).state == ConnState::Connected,
            !connected ==> (final(self).state matches ConnState::Disconnected(d) && (old(self).state
                matches ConnState::Disconnected(b) && d.spec_nanos() == backoff_after(b.spec_nanos()))),
            final(self).target == old(self).target,
            final(self).scheme == old(self).scheme,
            final(self).host == old(self).host,
            final(self).path == old(self).path,
    {
        if connected {
            self.state = ConnState::Connected;
            return;
        }
        if let ConnState::Disconnected(b) = self.state {
            let step = Duration::from_nanos(500_000_000);
            let grown = b.add(&step);
            let max = Duration::from_secs(5);
            let next = if grown.lt(&max) {
                max
            } else {
                grown
            };
            self.state = ConnState::Disconnected(next);
        }
    }

    /// A stream from the instrumented program failed or was closed: the
    /// console reconnects after half a second.
    pub fn stream_ended(&mut self)
        ensures
            final(self).state matches ConnState::Disconnected(d) && d.spec_nanos() == backoff_nanos(),
            final(self).target == old(self).target,
            final(self).scheme == old(self).scheme,
            final(self).host == old(self).host,
            final(self).path == old(self).path,
    {
        self.state = ConnState::Disconnected(Duration::from_nanos(500_000_000));
    }

    /// A command sent to the instrumented program failed: if the failure was
    /// at the connection level, the console reconnects after half a second
    /// and sends the command again (`true`); else the error is the answer.
    pub fn command_failed(&mut self, connection_level: bool) -> (retry: bool)
        ensures
            retry == connection_level,
            connection_level ==> (final(self).state matches ConnState::Disconnected(d)
                && d.spec_nanos() == backoff_nanos()),
            !connection_level ==> final(self).state == old(self).state,
            final(self).target == old(self).target,
            final(self).scheme == old(self).scheme,
            final(self).host == old(self).host,
            final(self).path == old(self).path,
    {
        if connection_level {
            self.stream_ended();
        }
        connection_level
    }

    /// How the connection is shown: `connection: `, the target, and the
    /// state.
    pub fn render(&self, styles: &Styles) -> (r: Vec<Span>)
        ensures
            span_views(r@) == seq![
                ("connection: "@, plain_style()),
                (self.target@, plain_style()),
                (" "@, plain_style()),
                status_span(self.state, *styles),
            ],
    {
        let state = match self.state {
            ConnState::Connected => Span::styled(
                "(CONNECTED)".to_string(),
                styles.fg(Color::Green).add_modifier(Modifier::bold()),
            ),
            ConnState::Disconnected(d) => {
                if d.as_nanos() == 0 {
                    Span::styled(
                        "(CONNECTING)".to_string(),
                        styles.fg(Color::Yellow).add_modifier(Modifier::bold()),
                    )
                } else {
                    let mut v: Vec<char> = Vec::new();
                    push_str(&mut v, "(RECONNECTING IN ");
                    let d_text = d.to_debug_string();
                    push_str(&mut v, d_text.as_str());
                    push_str(&mut v, ")");
                    Span::styled(
                        string_from(v.as_slice()),
                        styles.fg(Color::Yellow).add_modifier(Modifier::bold()),
                    )
                }
            },
        };
        let mut spans: Vec<Span> = Vec::new();
        spans.push(Span::raw("connection: ".to_string()));
        spans.push(Span::raw(self.target.clone()));
        spans.push(Span::raw(" ".to_string()));
        spans.push(state);
        assert(span_views(spans@) =~= seq![
            ("connection: "@, plain_style()),
            (self.target@, plain_style()),
            (" "@, plain_style()),
            status_span(self.state, *styles),
        ]);
        spans
    }
}

/// The parts of the note of dropped events: each kind of event that was
/// dropped, with its count.
pub open spec fn dropped_parts(async_ops: u64, tasks: u64, resources: u64) -> Seq<Seq<char>> {
    (if async_ops > 0 {
        seq![decimal(async_ops as nat) + " async_ops"@]
    } else {
        Seq::empty()
    }) + (if tasks > 0 {
        seq![decimal(tasks as nat) + " tasks"@]
    } else {
        Seq::empty()
    }) + (if resources > 0 {
        seq![decimal(resources as nat) + " resources"@]
    } else {
        Seq::empty()
    })
}

/// `parts` joined with `, ` between them.
pub open spec fn joined_with_commas(parts: Seq<Seq<char>>) -> Seq<char>
    decreases parts.len(),
{
    if parts.len() == 0 {
        Seq::empty()
    } else if parts.len() == 1 {
        parts[0]
    } else {
        joined_with_commas(parts.drop_last()) + ", "@ + parts.last()
    }
}

/// The top line of the console: the connection, then ` PAUSED` in red if
/// the view is paused, then a note in red of the events that the
/// instrumented program dropped, if it dropped any.
pub open spec fn status_line_of(
    c: Connection,
    styles: Styles,
    paused: bool,
    async_ops: u64,
    tasks: u64,
    resources: u64,
) -> Seq<(Seq<char>, Style)> {
    let red = fg_style_in(styles.palette, Color::Red);
    seq![
        ("connection: "@, plain_style()),
        (c.target@, plain_style()),
        (" "@, plain_style()),
        status_span(c.state, styles),
    ] + (if paused {
        seq![(" PAUSED"@, red)]
    } else {
        Seq::empty()
    }) + (if async_ops > 0 || tasks > 0 || resources > 0 {
        seq![(" dropped: "@ + joined_with_commas(dropped_parts(async_ops, tasks, resources)), red)]
    } else {
        Seq::empty()
    })
}

/// Appends a part of the note of dropped events, after `, ` if a part
/// came before.
fn push_part(out: &mut Vec<char>, first: bool, n: u64, what: &str)
    ensures
        final(out)@ == old(out)@ + (if first {
            Seq::empty()
        } else {
            ", "@
        }) + decimal(n as nat) + what@,
{
    if !first {
        push_str(out, ", ");
    }
    crate::text::push_decimal(n as u128, out);
    push_str(out, what);
    proof {
        reveal_strlit("");
    }
}

impl Connection {
    /// The top line of the console for this connection.
    pub fn status_line(&self, styles: &Styles, paused: bool, async_ops: u64, tasks: u64, resources: u64) -> (r: Vec<Span>)
        ensures
            span_views(r@) == status_line_of(*self, *styles, paused, async_ops, tasks, resources),
    {
        let mut spans = self.render(styles);
        let ghost base = span_views(spans@);
        if paused {
            spans.push(Span::styled(" PAUSED".to_string(), styles.fg(Color::Red)));
        }
        let ghost with_pause = span_views(spans@);
        proof {
            assert(with_pause =~= base + (if paused {
                seq![(" PAUSED"@, fg_style_in(styles.palette, Color::Red))]
            } else {
                Seq::<(Seq<char>, Style)>::empty()
            }));
        }
        if async_ops > 0 || tasks > 0 || resources > 0 {
            let mut text: Vec<char> = Vec::new();
            push_str(&mut text, " dropped: ");
            let ghost head = text@;
            let mut first = true;
            let ghost mut parts: Seq<Seq<char>> = Seq::empty();
            if async_ops > 0 {
                push_part(&mut text, first, async_ops, " async_ops");
                proof {
                    parts = parts.push(decimal(async_ops as nat) + " async_ops"@);
                    assert(text@ =~= head + joined_with_commas(parts));
                }
                first = false;
            }
            if tasks > 0 {
                let ghost before = text@;
                push_part(&mut text, first, tasks, " tasks");
                proof {
                    let prev = parts;
                    parts = parts.push(decimal(tasks as nat) + " tasks"@);
                    assert(parts.drop_last() =~= prev);
                    assert(text@ =~= head + joined_with_commas(parts));
                }
                first = false;
            }
            if resources > 0 {
                push_part(&mut text, first, resources, " resources");
                proof {
                    let prev = parts;
                    parts = parts.push(decimal(resources as nat) + " resources"@);
                    assert(parts.drop_last() =~= prev);
                    assert(text@ =~= head + joined_with_commas(parts));
                }
            }
            proof {
                assert(parts =~= dropped_parts(async_ops, tasks, resources));
            }
            spans.push(Span::styled(string_from(text.as_slice()), styles.fg(Color::Red)));
        }
        proof {
            assert(span_views(spans@) =~= status_line_of(*self, *styles, paused, async_ops, tasks, resources));
        }
        spans
    }
}

} // verus!
