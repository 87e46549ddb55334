//! How the terminal views are styled: which colors the chosen palette
//! allows, how durations are written and colored, and the symbols that
//! depend on whether the terminal speaks UTF-8.
use vstd::prelude::*;
use crate::config::{palette_of, utf8_enabled, ColorToggles, Palette, ViewOptions};
use crate::text::{chars_of, decimal, ends_with, push_decimal, slice_ends_with, string_from};
use crate::time::{duration_debug_padded, Duration};
use crate::warnings::push_str;

verus! {

broadcast use vstd::string::group_string_axioms;

/// A terminal color.
#[derive(PartialEq, Eq, Structural, Clone, Copy, Debug)]
pub enum Color {
    Reset,
    Black,
    Red,
    Green,
    Yellow,
    Blue,
    Magenta,
    Cyan,
    Gray,
    DarkGray,
    LightRed,
    LightGreen,
    LightYellow,
    LightBlue,
    LightMagenta,
    LightCyan,
    White,
    /// A 24-bit RGB color.
    Rgb(u8, u8, u8),
    /// A color of the ANSI 256-color palette.
    Indexed(u8),
}

/// A set of text modifiers.
#[derive(PartialEq, Eq, Structural, Clone, Copy, Debug)]
pub struct Modifier {
    pub bold: bool,
    pub dim: bool,
    pub reversed: bool,
}

impl Modifier {
    /// No modifier.
    pub fn empty() -> (r: Self)
        ensures
            r == (Modifier { bold: false, dim: false, reversed: false }),
    {
        Modifier { bold: false, dim: false, reversed: false }
    }

    /// Bold text.
    pub fn bold() -> (r: Self)
        ensures
            r == (Modifier { bold: true, dim: false, reversed: false }),
    {
        Modifier { bold: true, dim: false, reversed: false }
    }

    /// Dim text.
    pub fn dim() -> (r: Self)
        ensures
            r == (Modifier { bold: false, dim: true, reversed: false }),
    {
        Modifier { bold: false, dim: true, reversed: false }
    }

    /// Reversed colors.
    pub fn reversed() -> (r: Self)
        ensures
            r == (Modifier { bold: false, dim: false, reversed: true }),
    {
        Modifier { bold: false, dim: false, reversed: true }
    }

    /// The modifiers of `self` and of `other`.
    pub fn union(&self, other: &Self) -> (r: Self)
        ensures
            r == (Modifier {
                bold: self.bold || other.bold,
                dim: self.dim || other.dim,
                reversed: self.reversed || other.reversed,
            }),
    {
        Modifier {
            bold: self.bold || other.bold,
            dim: self.dim || other.dim,
            reversed: self.reversed || other.reversed,
        }
    }

    /// The modifiers of `self` that `other` lacks.
    pub fn without(&self, other: &Self) -> (r: Self)
        ensures
            r == (Modifier {
                bold: self.bold && !other.bold,
                dim: self.dim && !other.dim,
                reversed: self.reversed && !other.reversed,
            }),
    {
        Modifier {
            bold: self.bold && !other.bold,
            dim: self.dim && !other.dim,
            reversed: self.reversed && !other.reversed,
        }
    }
}

/// A text style: a foreground color, and the modifiers that it adds to and
/// removes from the text it applies to.
#[derive(PartialEq, Eq, Structural, Clone, Copy, Debug)]
pub struct Style {
    pub fg: Option<Color>,
    pub add_modifier: Modifier,
    pub sub_modifier: Modifier,
}

/// The style that changes nothing.
pub open spec fn plain_style() -> Style {
    Style {
        fg: None,
        add_modifier: Modifier { bold: false, dim: false, reversed: false },
        sub_modifier: Modifier { bold: false, dim: false, reversed: false },
    }
}

/// `s` with the foreground color `c`.
pub open spec fn with_fg(s: Style, c: Color) -> Style {
    Style { fg: Some(c), ..s }
}

/// `s` adding the modifiers `m` (and no longer removing them).
pub open spec fn adding(s: Style, m: Modifier) -> Style {
    Style {
        add_modifier: Modifier {
            bold: s.add_modifier.bold || m.bold,
            dim: s.add_modifier.dim || m.dim,
            reversed: s.add_modifier.reversed || m.reversed,
        },
        sub_modifier: Modifier {
            bold: s.sub_modifier.bold && !m.bold,
            dim: s.sub_modifier.dim && !m.dim,
            reversed: s.sub_modifier.reversed && !m.reversed,
        },
        ..s
    }
}

/// `s` removing the modifiers `m` (and no longer adding them).
pub open spec fn removing(s: Style, m: Modifier) -> Style {
    Style {
        add_modifier: Modifier {
            bold: s.add_modifier.bold && !m.bold,
            dim: s.add_modifier.dim && !m.dim,
            reversed: s.add_modifier.reversed && !m.reversed,
        },
        sub_modifier: Modifier {
            bold: s.sub_modifier.bold || m.bold,
            dim: s.sub_modifier.dim || m.dim,
            reversed: s.sub_modifier.reversed || m.reversed,
        },
        ..s
    }
}

impl Style {
    /// The style that changes nothing.
    pub fn plain() -> (r: Self)
        ensures
            r == plain_style(),
    {
        Style { fg: None, add_modifier: Modifier::empty(), sub_modifier: Modifier::empty() }
    }

    /// This style with the foreground color `c`.
    pub fn fg(self, c: Color) -> (r: Self)
        ensures
            r == with_fg(self, c),
    {
        Style { fg: Some(c), ..self }
    }

    /// This style, adding the modifiers `m`.
    pub fn add_modifier(self, m: Modifier) -> (r: Self)
        ensures
            r == adding(self, m),
    {
        Style {
            fg: self.fg,
            add_modifier: self.add_modifier.union(&m),
            sub_modifier: self.sub_modifier.without(&m),
        }
    }

    /// This style, removing the modifiers `m`.
    pub fn remove_modifier(self, m: Modifier) -> (r: Self)
        ensures
            r == removing(self, m),
    {
        Style {
            fg: self.fg,
            add_modifier: self.add_modifier.without(&m),
            sub_modifier: self.sub_modifier.union(&m),
        }
    }
}

impl Default for Style {
    fn default() -> (r: Self)
        ensures
            r == plain_style(),
    {
        Style::plain()
    }
}

/// A piece of text in one style.
pub struct Span {
    pub content: String,
    pub style: Style,
}

impl Span {
    /// `content` in the plain style.
    pub fn raw(content: String) -> (r: Self)
        ensures
            r.content@ == content@,
            r.style == plain_style(),
    {
        Span { content, style: Style::plain() }
    }

    /// `content` in `style`.
    pub fn styled(content: String, style: Style) -> (r: Self)
        ensures
            r.content@ == content@,
            r.style == style,
    {
        Span { content, style }
    }
}

/// The text and style of spans.
pub open spec fn span_views(spans: Seq<Span>) -> Seq<(Seq<char>, Style)> {
    Seq::new(spans.len(), |i: int| (spans[i].content@, spans[i].style))
}

/// The border that a block of the view has.
#[derive(PartialEq, Eq, Structural, Clone, Copy, Debug)]
pub enum Border {
    /// A border on every side, with rounded corners.
    RoundedAll,
    /// No border.
    NoBorders,
}

/// The styles of the views: the palette, the color toggles, and whether the
/// terminal speaks UTF-8.
#[derive(Clone, Copy, Debug)]
pub struct Styles {
    pub palette: Palette,
    pub toggles: ColorToggles,
    pub utf8: bool,
}

/// Whether the toggles leave durations color-coded.
pub open spec fn colors_durations(t: ColorToggles) -> bool {
    match t.color_durations {
        Some(disabled) => !disabled,
        None => true,
    }
}

/// Whether the toggles leave terminated tasks color-coded.
pub open spec fn colors_terminated(t: ColorToggles) -> bool {
    match t.color_terminated {
        Some(disabled) => !disabled,
        None => true,
    }
}

/// The color that a palette shows for `c`, if it shows one: every color
/// with all colors, none without colors; ANSI 256 drops RGB colors; ANSI 16
/// also drops indexed colors; ANSI 8 also turns the light colors into their
/// plain variants.
pub open spec fn palette_color(p: Palette, c: Color) -> Option<Color> {
    match p {
        Palette::NoColors => None,
        Palette::All => Some(c),
        Palette::Ansi256 => match c {
            Color::Rgb(_, _, _) => None,
            _ => Some(c),
        },
        Palette::Ansi16 => match c {
            Color::Rgb(_, _, _) => None,
            Color::Indexed(_) => None,
            _ => Some(c),
        },
        Palette::Ansi8 => match c {
            Color::Rgb(_, _, _) => None,
            Color::LightRed => Some(Color::Red),
            Color::LightGreen => Some(Color::Green),
            Color::LightYellow => Some(Color::Yellow),
            Color::LightBlue => Some(Color::Blue),
            Color::LightMagenta => Some(Color::Magenta),
            _ => Some(c),
        },
    }
}

/// The plain style in color `c`, if the palette shows it.
pub open spec fn fg_style_in(p: Palette, c: Color) -> Style {
    match palette_color(p, c) {
        Some(shown) => with_fg(plain_style(), shown),
        None => plain_style(),
    }
}

/// How a duration was written: in days; days and hours; hours and minutes;
/// minutes and seconds; or with the debug format of a duration.
#[derive(PartialEq, Eq, Structural, Clone, Copy, Debug)]
pub enum DurationForm {
    Days,
    DaysHours,
    HoursMinutes,
    MinutesSeconds,
    Debug,
}

/// A duration written out, and how it was written.
pub enum FormattedDuration {
    Days(String),
    DaysHours(String),
    HoursMinutes(String),
    MinutesSeconds(String),
    Debug(String),
}

/// How a formatted duration was written.
pub open spec fn form_of(f: FormattedDuration) -> DurationForm {
    match f {
        FormattedDuration::Days(_) => DurationForm::Days,
        FormattedDuration::DaysHours(_) => DurationForm::DaysHours,
        FormattedDuration::HoursMinutes(_) => DurationForm::HoursMinutes,
        FormattedDuration::MinutesSeconds(_) => DurationForm::MinutesSeconds,
        FormattedDuration::Debug(_) => DurationForm::Debug,
    }
}

/// The text of a formatted duration.
pub open spec fn text_of(f: FormattedDuration) -> Seq<char> {
    match f {
        FormattedDuration::Days(s) => s@,
        FormattedDuration::DaysHours(s) => s@,
        FormattedDuration::HoursMinutes(s) => s@,
        FormattedDuration::MinutesSeconds(s) => s@,
        FormattedDuration::Debug(s) => s@,
    }
}

impl FormattedDuration {
    /// The text of the duration.
    pub fn into_inner(self) -> (r: String)
        ensures
            r@ == text_of(self),
    {
        match self {
            FormattedDuration::Days(inner) => inner,
            FormattedDuration::DaysHours(inner) => inner,
            FormattedDuration::HoursMinutes(inner) => inner,
            FormattedDuration::MinutesSeconds(inner) => inner,
            FormattedDuration::Debug(inner) => inner,
        }
    }
}

/// `n` spaces.
pub open spec fn spaces(n: int) -> Seq<char> {
    Seq::new(if n > 0 { n as nat } else { 0 }, |i: int| ' ')
}

/// `s` right-aligned in `width` characters (`{:>width$}`).
pub open spec fn pad_left(s: Seq<char>, width: nat) -> Seq<char> {
    spaces(width - s.len()) + s
}

/// `n` in at least two digits (`{:02}`).
pub open spec fn two_digits(n: nat) -> Seq<char> {
    if n < 10 {
        seq!['0'] + decimal(n)
    } else {
        decimal(n)
    }
}

/// The index of the first `µs` at or after `i` in `s`, or `s.len()`.
pub open spec fn first_micros(s: Seq<char>, i: int) -> int
    decreases s.len() - i,
{
    if i < 0 || i + 1 >= s.len() {
        s.len() as int
    } else if s[i] == '\u{b5}' && s[i + 1] == 's' {
        i
    } else {
        first_micros(s, i + 1)
    }
}

/// `s` with everything from its first `µs` on replaced by `us`.
pub open spec fn ascii_micros(s: Seq<char>) -> Seq<char> {
    let i = first_micros(s, 0);
    if i < s.len() {
        s.take(i) + seq!['u', 's']
    } else {
        s
    }
}

/// How a duration of `secs` seconds (and `nanos` nanoseconds) is written in
/// `width` characters: in days from 100 days on; in days and hours from a
/// day on; in hours and minutes from an hour on; in minutes and seconds from
/// a minute on; else with the debug format at precision `prec`, with `us`
/// for `µs` unless the terminal speaks UTF-8.
pub open spec fn duration_text_of(secs: nat, nanos: u32, width: nat, prec: usize, utf8: bool) -> (
    DurationForm,
    Seq<char>,
) {
    if secs >= 60 * 60 * 24 * 100 {
        (DurationForm::Days, pad_left(decimal(secs / (60 * 60 * 24)), width) + seq!['d'])
    } else if secs >= 60 * 60 * 24 {
        let hours = secs / (60 * 60);
        (
            DurationForm::DaysHours,
            pad_left(decimal(hours / 24) + seq!['d'] + two_digits(hours % 24) + seq!['h'], width),
        )
    } else if secs >= 60 * 60 {
        let mins = secs / 60;
        (
            DurationForm::HoursMinutes,
            pad_left(decimal(mins / 60) + seq!['h'] + two_digits(mins % 60) + seq!['m'], width),
        )
    } else if secs >= 60 {
        (
            DurationForm::MinutesSeconds,
            pad_left(decimal(secs / 60) + seq!['m'] + two_digits(secs % 60) + seq!['s'], width),
        )
    } else {
        let text = duration_debug_padded(secs as u64, nanos, width as usize, prec);
        (DurationForm::Debug, if utf8 { text } else { ascii_micros(text) })
    }
}

/// The color in which a duration is shown, by how it was written and the
/// unit it ends with, for a palette with colors.
pub open spec fn duration_color(p: Palette, form: DurationForm, text: Seq<char>) -> Option<Color> {
    let rich = p == Palette::Ansi256 || p == Palette::All;
    match form {
        DurationForm::Days => Some(if rich { Color::Indexed(37) } else { Color::Green }),
        DurationForm::DaysHours => Some(if rich { Color::Indexed(38) } else { Color::Blue }),
        DurationForm::HoursMinutes => Some(if rich { Color::Indexed(39) } else { Color::Gray }),
        DurationForm::MinutesSeconds => Some(if rich { Color::Indexed(45) } else { Color::Cyan }),
        DurationForm::Debug => if ends_with(text, seq!['p', 's']) {
            Some(if rich { Color::Indexed(40) } else { Color::Blue })
        } else if ends_with(text, seq!['n', 's']) {
            Some(if rich { Color::Indexed(41) } else { Color::Green })
        } else if ends_with(text, seq!['\u{b5}', 's']) || ends_with(text, seq!['u', 's']) {
            Some(if rich { Color::Indexed(42) } else { Color::Yellow })
        } else if ends_with(text, seq!['m', 's']) {
            Some(if rich { Color::Indexed(43) } else { Color::Red })
        } else if ends_with(text, seq!['s']) {
            Some(if rich { Color::Indexed(44) } else { Color::Magenta })
        } else {
            None
        },
    }
}

/// The style in which a duration is shown, when durations are color-coded
/// and the palette has colors.
pub open spec fn duration_style(p: Palette, form: DurationForm, text: Seq<char>) -> Style {
    match duration_color(p, form, text) {
        Some(c) => with_fg(plain_style(), c),
        None => plain_style(),
    }
}

/// Appends `n` spaces to `out`.
fn push_spaces(out: &mut Vec<char>, n: usize)
    ensures
        final(out)@ == old(out)@ + spaces(n as int),
{
    let ghost start = out@;
    for i in 0..n
        invariant
            out@ == start + spaces(i as int),
    {
        out.push(' ');
        assert(out@ =~= start + spaces(i + 1));
    }
}

/// `s` right-aligned in `width` characters.
pub fn padded_chars(s: &[char], width: usize) -> (r: Vec<char>)
    ensures
        r@ == pad_left(s@, width as nat),
{
    let mut out: Vec<char> = Vec::new();
    if s.len() < width {
        push_spaces(&mut out, width - s.len());
    } else {
        push_spaces(&mut out, 0);
        assert(spaces(0) =~= spaces(width - s@.len()));
    }
    let ghost before = out@;
    for i in 0..s.len()
        invariant
            out@ == before + s@.take(i as int),
    {
        out.push(s[i]);
        assert(s@.take(i + 1) =~= s@.take(i as int).push(s@[i as int]));
        assert(out@ =~= before + s@.take(i + 1));
    }
    assert(s@.take(s@.len() as int) =~= s@);
    out
}

/// Appends `n` in at least two digits to `out`.
fn push_two_digits(out: &mut Vec<char>, n: u64)
    ensures
        final(out)@ == old(out)@ + two_digits(n as nat),
{
    if n < 10 {
        out.push('0');
    }
    let ghost mid = out@;
    push_decimal(n as u128, out);
    assert(out@ =~= old(out)@ + two_digits(n as nat));
}

/// `s` with everything from its first `µs` on replaced by `us`.
pub fn replace_micros(s: &[char]) -> (r: Vec<char>)
    ensures
        r@ == ascii_micros(s@),
{
    let n = s.len();
    let mut i: usize = 0;
    while i < n && i + 1 < n && !(s[i] == '\u{b5}' && s[i + 1] == 's')
        invariant
            i <= n,
            n == s@.len(),
            first_micros(s@, 0) == first_micros(s@, i as int),
        decreases n - i,
    {
        i = i + 1;
    }
    let found = i < n && i + 1 < n;
    assert(first_micros(s@, i as int) == if found { i as int } else { n as int });
    let mut r: Vec<char> = Vec::new();
    if found {
        for j in 0..i
            invariant
                i < n,
                n == s@.len(),
                r@ == s@.take(j as int),
        {
            r.push(s[j]);
            assert(s@.take(j + 1) =~= s@.take(j as int).push(s@[j as int]));
        }
        r.push('u');
        r.push('s');
        assert(r@ =~= s@.take(i as int) + seq!['u', 's']);
    } else {
        for j in 0..n
            invariant
                n == s@.len(),
                r@ == s@.take(j as int),
        {
            r.push(s[j]);
            assert(s@.take(j + 1) =~= s@.take(j as int).push(s@[j as int]));
        }
        assert(s@.take(n as int) =~= s@);
    }
    r
}

impl Styles {
    /// The styles that the options give, where `tput_colors` is what
    /// `tput colors` printed (`None` if it could not be run).
    pub fn from_config(config: ViewOptions, tput_colors: Option<&str>) -> (r: Self)
        ensures
            r.palette == palette_of(
                config,
                match tput_colors {
                    Some(s) => Some(s@),
                    None => None,
                },
            ),
            r.toggles == config.toggles,
            r.utf8 == utf8_enabled(config),
    {
        Styles {
            palette: config.determine_palette(tput_colors),
            toggles: config.toggles(),
            utf8: config.is_utf8(),
        }
    }

    /// `utf8` if the terminal speaks UTF-8, else `ascii`.
    pub fn if_utf8<'a>(&self, utf8: &'a str, ascii: &'a str) -> (r: &'a str)
        ensures
            r == if self.utf8 {
                utf8
            } else {
                ascii
            },
    {
        if self.utf8 {
            utf8
        } else {
            ascii
        }
    }

    /// The color that the palette shows for `color`, if it shows one.
    pub fn color(&self, color: Color) -> (r: Option<Color>)
        ensures
            r == palette_color(self.palette, color),
    {
        match self.palette {
            Palette::NoColors => None,
            Palette::All => Some(color),
            Palette::Ansi256 => match color {
                Color::Rgb(_, _, _) => None,
                _ => Some(color),
            },
            Palette::Ansi16 => match color {
                Color::Rgb(_, _, _) => None,
                Color::Indexed(_) => None,
                _ => Some(color),
            },
            Palette::Ansi8 => match color {
                Color::Rgb(_, _, _) => None,
                Color::LightRed => Some(Color::Red),
                Color::LightGreen => Some(Color::Green),
                Color::LightYellow => Some(Color::Yellow),
                Color::LightBlue => Some(Color::Blue),
                Color::LightMagenta => Some(Color::Magenta),
                _ => Some(color),
            },
        }
    }

    /// The plain style in `color`, if the palette shows it.
    pub fn fg(&self, color: Color) -> (r: Style)
        ensures
            r == fg_style_in(self.palette, color),
    {
        if let Some(color) = self.color(color) {
            Style::plain().fg(color)
        } else {
            Style::plain()
        }
    }

    /// The style of terminated tasks: dim, unless that is toggled off.
    pub fn terminated(&self) -> (r: Style)
        ensures
            r == if colors_terminated(self.toggles) {
                adding(plain_style(), Modifier { bold: false, dim: true, reversed: false })
            } else {
                plain_style()
            },
    {
        if !self.toggles.color_terminated() {
            return Style::plain();
        }
        Style::plain().add_modifier(Modifier::dim())
    }

    /// The style of a warning sign: bold, light yellow if the palette shows it.
    pub open spec fn warning_style(self) -> Style {
        adding(
            fg_style_in(self.palette, Color::LightYellow),
            Modifier { bold: true, dim: false, reversed: false },
        )
    }

    /// A warning sign for wide columns.
    pub fn warning_wide(&self) -> (r: Span)
        ensures
            r.content@ == if self.utf8 {
                "\u{26A0} "@
            } else {
                "/!\\ "@
            },
            r.style == self.warning_style(),
    {
        Span::styled(
            self.if_utf8("\u{26A0} ", "/!\\ ").to_string(),
            self.fg(Color::LightYellow).add_modifier(Modifier::bold()),
        )
    }

    /// A warning sign for narrow columns.
    pub fn warning_narrow(&self) -> (r: Span)
        ensures
            r.content@ == if self.utf8 {
                "\u{26A0} "@
            } else {
                "! "@
            },
            r.style == self.warning_style(),
    {
        Span::styled(
            self.if_utf8("\u{26A0} ", "! ").to_string(),
            self.fg(Color::LightYellow).add_modifier(Modifier::bold()),
        )
    }

    /// The style of a selected column's header: cyan if the palette shows
    /// it, else not reversed.
    pub open spec fn selected_style(self) -> Style {
        match palette_color(self.palette, Color::Cyan) {
            Some(cyan) => with_fg(plain_style(), cyan),
            None => removing(plain_style(), Modifier { bold: false, dim: false, reversed: true }),
        }
    }

    /// `value` in the style of a selected column.
    pub fn selected(&self, value: &str) -> (r: Span)
        ensures
            r.content@ == value@,
            r.style == self.selected_style(),
    {
        let style = if let Some(cyan) = self.color(Color::Cyan) {
            Style::plain().fg(cyan)
        } else {
            Style::plain().remove_modifier(Modifier::reversed())
        };
        Span::styled(value.to_string(), style)
    }

    /// `value` followed by `suffix`, in the style of a selected column.
    fn selected_with(&self, value: &str, suffix: &str) -> (r: Span)
        ensures
            r.content@ == value@ + suffix@,
            r.style == self.selected_style(),
    {
        let mut v: Vec<char> = Vec::new();
        push_str(&mut v, value);
        push_str(&mut v, suffix);
        let s = string_from(v.as_slice());
        self.selected(s.as_str())
    }

    /// `value` marked as sorted in ascending order.
    pub fn ascending(&self, value: &str) -> (r: Span)
        ensures
            r.content@ == value@ + if self.utf8 {
                "\u{25B5}"@
            } else {
                "+"@
            },
            r.style == self.selected_style(),
    {
        self.selected_with(value, self.if_utf8("\u{25B5}", "+"))
    }

    /// `value` marked as sorted in descending order.
    pub fn descending(&self, value: &str) -> (r: Span)
        ensures
            r.content@ == value@ + if self.utf8 {
                "\u{25BF}"@
            } else {
                "-"@
            },
            r.style == self.selected_style(),
    {
        self.selected_with(value, self.if_utf8("\u{25BF}", "-"))
    }

    /// The border of blocks: rounded on every side if the terminal speaks
    /// UTF-8, else none.
    pub fn border_block(&self) -> (r: Border)
        ensures
            r == if self.utf8 {
                Border::RoundedAll
            } else {
                Border::NoBorders
            },
    {
        if self.utf8 {
            Border::RoundedAll
        } else {
            Border::NoBorders
        }
    }

    /// `dur` written out in `width` characters (at most `u16::MAX`, as is the
    /// precision `prec`, which the standard formatting requires).
    pub fn duration_text(&self, dur: Duration, width: usize, prec: usize) -> (r: FormattedDuration)
        requires
            width <= u16::MAX,
            prec <= u16::MAX,
        ensures
            (form_of(r), text_of(r)) == duration_text_of(
                dur.parts().0 as nat,
                dur.parts().1,
                width as nat,
                prec,
                self.utf8,
            ),
    {
        let secs = dur.as_secs();
        proof {
            assert(secs == dur.parts().0);
        }
        if secs >= 60 * 60 * 24 * 100 {
            let days = secs / (60 * 60 * 24);
            let mut num: Vec<char> = Vec::new();
            push_decimal(days as u128, &mut num);
            let mut text = padded_chars(num.as_slice(), width);
            text.push('d');
            FormattedDuration::Days(string_from(text.as_slice()))
        } else if secs >= 60 * 60 * 24 {
            let hours = secs / (60 * 60);
            let mut inner: Vec<char> = Vec::new();
            push_decimal((hours / 24) as u128, &mut inner);
            inner.push('d');
            push_two_digits(&mut inner, hours % 24);
            inner.push('h');
            let text = padded_chars(inner.as_slice(), width);
            FormattedDuration::DaysHours(string_from(text.as_slice()))
        } else if secs >= 60 * 60 {
            let mins = secs / 60;
            let mut inner: Vec<char> = Vec::new();
            push_decimal((mins / 60) as u128, &mut inner);
            inner.push('h');
            push_two_digits(&mut inner, mins % 60);
            inner.push('m');
            let text = padded_chars(inner.as_slice(), width);
            FormattedDuration::HoursMinutes(string_from(text.as_slice()))
        } else if secs >= 60 {
            let mut inner: Vec<char> = Vec::new();
            push_decimal((secs / 60) as u128, &mut inner);
            inner.push('m');
            push_two_digits(&mut inner, secs % 60);
            inner.push('s');
            let text = padded_chars(inner.as_slice(), width);
            FormattedDuration::MinutesSeconds(string_from(text.as_slice()))
        } else {
            let text = dur.to_debug_string_padded(width, prec);
            if !self.utf8 {
                let v = chars_of(text.as_str());
                let replaced = replace_micros(v.as_slice());
                FormattedDuration::Debug(string_from(replaced.as_slice()))
            } else {
                FormattedDuration::Debug(text)
            }
        }
    }

    /// `dur` written out (in `width` characters, if given) and colored by
    /// its unit, if durations are color-coded and the palette has colors.
    pub fn time_units(&self, dur: Duration, prec: usize, width: Option<usize>) -> (r: Span)
        requires
            prec <= u16::MAX,
            width matches Some(w) ==> w <= u16::MAX,
        ensures
            ({
                let (form, text) = duration_text_of(
                    dur.parts().0 as nat,
                    dur.parts().1,
                    match width {
                        Some(w) => w as nat,
                        None => 0,
                    },
                    prec,
                    self.utf8,
                );
                &&& r.content@ == text
                &&& r.style == if !colors_durations(self.toggles) || self.palette
                    == Palette::NoColors {
                    plain_style()
                } else {
                    duration_style(self.palette, form, text)
                }
            }),
    {
        let w = match width {
            Some(w) => w,
            None => 0,
        };
        let formatted = self.duration_text(dur, w, prec);
        if !self.toggles.color_durations() {
            return Span::raw(formatted.into_inner());
        }
        if self.palette == Palette::NoColors {
            return Span::raw(formatted.into_inner());
        }
        let form = match &formatted {
            FormattedDuration::Days(_) => DurationForm::Days,
            FormattedDuration::DaysHours(_) => DurationForm::DaysHours,
            FormattedDuration::HoursMinutes(_) => DurationForm::HoursMinutes,
            FormattedDuration::MinutesSeconds(_) => DurationForm::MinutesSeconds,
            FormattedDuration::Debug(_) => DurationForm::Debug,
        };
        let text = formatted.into_inner();
        let color = unit_color(self.palette, form, text.as_str());
        let style = match color {
            Some(c) => Style::plain().fg(c),
            None => Style::plain(),
        };
        Span::styled(text, style)
    }
}

/// The color of a duration written as `text` in the form `form`.
fn unit_color(p: Palette, form: DurationForm, text: &str) -> (r: Option<Color>)
    ensures
        r == duration_color(p, form, text@),
{
    let rich = p == Palette::Ansi256 || p == Palette::All;
    match form {
        DurationForm::Days => Some(if rich { Color::Indexed(37) } else { Color::Green }),
        DurationForm::DaysHours => Some(if rich { Color::Indexed(38) } else { Color::Blue }),
        DurationForm::HoursMinutes => Some(if rich { Color::Indexed(39) } else { Color::Gray }),
        DurationForm::MinutesSeconds => Some(if rich { Color::Indexed(45) } else { Color::Cyan }),
        DurationForm::Debug => {
            let v = chars_of(text);
            let s = v.as_slice();
            let ps = ['p', 's'];
            let ns = ['n', 's'];
            let micro = ['\u{b5}', 's'];
            let us = ['u', 's'];
            let ms = ['m', 's'];
            let secs = ['s'];
            assert(ps@ =~= seq!['p', 's']);
            assert(ns@ =~= seq!['n', 's']);
            assert(micro@ =~= seq!['\u{b5}', 's']);
            assert(us@ =~= seq!['u', 's']);
            assert(ms@ =~= seq!['m', 's']);
            assert(secs@ =~= seq!['s']);
            if slice_ends_with(s, ps.as_slice()) {
                Some(if rich { Color::Indexed(40) } else { Color::Blue })
            } else if slice_ends_with(s, ns.as_slice()) {
                Some(if rich { Color::Indexed(41) } else { Color::Green })
            } else if slice_ends_with(s, micro.as_slice()) || slice_ends_with(s, us.as_slice()) {
                Some(if rich { Color::Indexed(42) } else { Color::Yellow })
            } else if slice_ends_with(s, ms.as_slice()) {
                Some(if rich { Color::Indexed(43) } else { Color::Red })
            } else if slice_ends_with(s, secs.as_slice()) {
                Some(if rich { Color::Indexed(44) } else { Color::Magenta })
            } else {
                None
            }
        },
    }
}

} // verus!
