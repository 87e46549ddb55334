//! Terminal input events, and what the console makes of the keys that are
//! the same on every view.
use vstd::prelude::*;

verus! {

/// A key of the keyboard.
#[derive(PartialEq, Eq, Structural, Clone, Copy, Debug)]
pub enum KeyCode {
    Char(char),
    Enter,
    Esc,
    Backspace,
    Left,
    Right,
    Up,
    Down,
    Home,
    End,
    PageUp,
    PageDown,
    Tab,
    BackTab,
    Delete,
    Insert,
    F(u8),
}

/// The modifier keys held down with a key.
#[derive(PartialEq, Eq, Structural, Clone, Copy, Debug)]
pub struct KeyModifiers {
    pub shift: bool,
    pub control: bool,
    pub alt: bool,
    pub super_: bool,
}

impl KeyModifiers {
    /// No modifier key.
    pub fn empty() -> (r: Self)
        ensures
            !r.shift && !r.control && !r.alt && !r.super_,
    {
        KeyModifiers { shift: false, control: false, alt: false, super_: false }
    }

    /// The control key alone.
    pub fn control() -> (r: Self)
        ensures
            !r.shift && r.control && !r.alt && !r.super_,
    {
        KeyModifiers { shift: false, control: true, alt: false, super_: false }
    }
}

impl Default for KeyModifiers {
    fn default() -> (r: Self)
        ensures
            !r.shift && !r.control && !r.alt && !r.super_,
    {
        KeyModifiers::empty()
    }
}

/// Whether a key was pressed, held (and repeated) or released.
#[derive(PartialEq, Eq, Structural, Clone, Copy, Debug)]
pub enum KeyEventKind {
    Press,
    Repeat,
    Release,
}

/// A key event.
#[derive(PartialEq, Eq, Structural, Clone, Copy, Debug)]
pub struct KeyEvent {
    pub code: KeyCode,
    pub modifiers: KeyModifiers,
    pub kind: KeyEventKind,
}

impl KeyEvent {
    /// A press of `code` with no modifier key.
    pub fn press(code: KeyCode) -> (r: Self)
        ensures
            r.code == code,
            r.modifiers == (KeyModifiers { shift: false, control: false, alt: false, super_: false }),
            r.kind == KeyEventKind::Press,
    {
        KeyEvent { code, modifiers: KeyModifiers::empty(), kind: KeyEventKind::Press }
    }
}

/// A terminal input event.
#[derive(PartialEq, Eq, Structural, Clone, Copy, Debug)]
pub enum Event {
    Key(KeyEvent),
    /// A mouse event, which the views ignore.
    Mouse,
}

/// Whether `e` is a key event with the code `code`.
pub open spec fn is_key(e: Event, code: KeyCode) -> bool {
    e matches Event::Key(k) && k.code == code
}

/// Whether the key event only repeats or releases a key: terminals on some
/// systems report those, which would count a key press twice.
pub fn should_ignore_key_event(input: &Event) -> (r: bool)
    ensures
        r == (input matches Event::Key(k) && k.kind != KeyEventKind::Press),
{
    match input {
        Event::Key(k) => match k.kind {
            KeyEventKind::Release | KeyEventKind::Repeat => true,
            KeyEventKind::Press => false,
        },
        _ => false,
    }
}

/// Whether the input asks the console to quit: `q`, or control with `c`
/// or `d`.
pub fn should_quit(input: &Event) -> (r: bool)
    ensures
        r == (is_key(*input, KeyCode::Char('q')) || (input matches Event::Key(k) && (k.code
            == KeyCode::Char('c') || k.code == KeyCode::Char('d')) && k.modifiers.control)),
{
    match input {
        Event::Key(k) => match k.code {
            KeyCode::Char('q') => true,
            KeyCode::Char('c') | KeyCode::Char('d') => k.modifiers.control,
            _ => false,
        },
        _ => false,
    }
}

/// Whether the input is the space bar.
pub fn is_space(input: &Event) -> (r: bool)
    ensures
        r == is_key(*input, KeyCode::Char(' ')),
{
    match input {
        Event::Key(k) => k.code == KeyCode::Char(' '),
        _ => false,
    }
}

/// Whether the input toggles the help: `?`.
pub fn is_help_toggle(input: &Event) -> (r: bool)
    ensures
        r == is_key(*input, KeyCode::Char('?')),
{
    match input {
        Event::Key(k) => k.code == KeyCode::Char('?'),
        _ => false,
    }
}

/// Whether the input is the escape key.
pub fn is_esc(input: &Event) -> (r: bool)
    ensures
        r == is_key(*input, KeyCode::Esc),
{
    match input {
        Event::Key(k) => k.code == KeyCode::Esc,
        _ => false,
    }
}

} // verus!
