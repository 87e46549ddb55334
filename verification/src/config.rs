//! The console's configuration: how it shows things, which warnings it
//! raises, how long it keeps completed tasks, and how command-line options
//! and configuration files combine.
use vstd::prelude::*;
use crate::text::{
    char_is_space, chars_of, decimal, eq_ignore_ascii_case, is_space, eq_ignore_case, ends_with, slice_ends_with, string_from,
    trim, trimmed,
};
use crate::time::{duration_debug, Duration, NANOS_PER_SEC};
use crate::warnings::push_str;

verus! {

broadcast use vstd::string::group_string_axioms;

/// A color palette that the terminal supports.
#[derive(PartialEq, Eq, Structural, Clone, Copy, Debug)]
pub enum Palette {
    NoColors,
    /// Use ANSI 8 color palette only.
    Ansi8,
    /// Use ANSI 16 color palette only.
    Ansi16,
    /// Enable ANSI 256-color palette.
    Ansi256,
    /// Enable all RGB colors.
    All,
}

/// The palette that `s` names, once trimmed: `0`, `8`, `16`, `256`, or `all`
/// or `off` in any case.
pub open spec fn palette_named(s: Seq<char>) -> Option<Palette> {
    let t = trimmed(s);
    if t == "0"@ {
        Some(Palette::NoColors)
    } else if t == "8"@ {
        Some(Palette::Ansi8)
    } else if t == "16"@ {
        Some(Palette::Ansi16)
    } else if t == "256"@ {
        Some(Palette::Ansi256)
    } else if eq_ignore_case(t, "all"@) {
        Some(Palette::All)
    } else if eq_ignore_case(t, "off"@) {
        Some(Palette::NoColors)
    } else {
        None
    }
}

/// Whether `a` holds the characters of `b`.
pub fn chars_eq(a: &[char], b: &str) -> (r: bool)
    ensures
        r == (a@ == b@),
{
    let bv = chars_of(b);
    if a.len() != bv.len() {
        return false;
    }
    let n = a.len();
    for i in 0..n
        invariant
            n == a@.len(),
            n == bv@.len(),
            bv@ == b@,
            forall|j: int| 0 <= j < i ==> a@[j] == bv@[j],
    {
        if a[i] != bv[i] {
            assert(a@[i as int] != bv@[i as int]);
            return false;
        }
    }
    assert(a@ =~= bv@);
    true
}

impl Palette {
    /// The palette that `s` names (`Palette::from_str`).
    pub fn from_str(s: &str) -> (r: Result<Palette, &'static str>)
        ensures
            match r {
                Ok(p) => palette_named(s@) == Some(p),
                Err(e) => palette_named(s@) is None && e@ == "invalid color palette"@,
            },
    {
        let v = chars_of(s);
        let t = trim(v.as_slice());
        let t = t.as_slice();
        if chars_eq(t, "0") {
            Ok(Palette::NoColors)
        } else if chars_eq(t, "8") {
            Ok(Palette::Ansi8)
        } else if chars_eq(t, "16") {
            Ok(Palette::Ansi16)
        } else if chars_eq(t, "256") {
            Ok(Palette::Ansi256)
        } else if eq_ignore_ascii_case(t, chars_of("all").as_slice()) {
            Ok(Palette::All)
        } else if eq_ignore_ascii_case(t, chars_of("off").as_slice()) {
            Ok(Palette::NoColors)
        } else {
            Err("invalid color palette")
        }
    }
}

impl Default for Palette {
    fn default() -> (r: Self)
        ensures
            r == Palette::NoColors,
    {
        Palette::NoColors
    }
}

/// Whether `s`, once trimmed, is `truecolor` or `24bit` in any case: what
/// `COLORTERM` says of a terminal with 24-bit colors.
pub open spec fn true_color_named(s: Seq<char>) -> bool {
    eq_ignore_case(trimmed(s), "truecolor"@) || eq_ignore_case(trimmed(s), "24bit"@)
}

/// Whether `s` announces 24-bit RGB colors.
pub fn parse_true_color(s: &str) -> (r: bool)
    ensures
        r == true_color_named(s@),
{
    let v = chars_of(s);
    let t = trim(v.as_slice());
    eq_ignore_ascii_case(t.as_slice(), chars_of("truecolor").as_slice()) || eq_ignore_ascii_case(
        t.as_slice(),
        chars_of("24bit").as_slice(),
    )
}

/// Toggles on and off color coding for individual UI elements.
#[derive(PartialEq, Eq, Structural, Clone, Copy, Debug)]
pub struct ColorToggles {
    /// Set when color-coding of duration units is disabled.
    pub color_durations: Option<bool>,
    /// Set when color-coding of terminated tasks is disabled.
    pub color_terminated: Option<bool>,
}

impl ColorToggles {
    /// Whether durations are color-coded: unless it was disabled.
    pub fn color_durations(&self) -> (r: bool)
        ensures
            r == match self.color_durations {
                Some(disabled) => !disabled,
                None => true,
            },
    {
        match self.color_durations {
            Some(disabled) => !disabled,
            None => true,
        }
    }

    /// Whether terminated tasks are color-coded: unless it was disabled.
    pub fn color_terminated(&self) -> (r: bool)
        ensures
            r == match self.color_terminated {
                Some(disabled) => !disabled,
                None => true,
            },
    {
        match self.color_terminated {
            Some(disabled) => !disabled,
            None => true,
        }
    }
}

/// How the console shows things.
pub struct ViewOptions {
    /// The terminal's language.
    pub lang: Option<String>,
    /// Whether to use only ASCII characters.
    pub ascii_only: Option<bool>,
    /// Whether ANSI colors are disabled entirely.
    pub no_colors: bool,
    /// Whether the terminal supports 24-bit RGB colors.
    pub truecolor: Option<bool>,
    /// The color palette to use.
    pub palette: Option<Palette>,
    pub toggles: ColorToggles,
}

/// The view of an optional string.
pub open spec fn opt_chars(s: Option<String>) -> Option<Seq<char>> {
    match s {
        Some(s) => Some(s@),
        None => None,
    }
}

/// Whether the console may use UTF-8: unless only ASCII is asked for, when
/// the language ends with `UTF-8`.
pub open spec fn utf8_enabled(o: ViewOptions) -> bool {
    if o.ascii_only == Some(true) {
        false
    } else {
        match o.lang {
            Some(l) => ends_with(l@, "UTF-8"@),
            None => false,
        }
    }
}

/// The palette that the options themselves decide: none when colors are
/// disabled, the one asked for, or all colors when the terminal announces
/// 24-bit colors.
pub open spec fn explicit_palette(o: ViewOptions) -> Option<Palette> {
    if o.no_colors {
        Some(Palette::NoColors)
    } else if o.palette is Some {
        o.palette
    } else if o.truecolor == Some(true) {
        Some(Palette::All)
    } else {
        None
    }
}

/// The palette of the options, asking the terminal database (what `tput
/// colors` printed, if it ran and printed UTF-8) when the options do not
/// decide; no colors when that fails.
pub open spec fn palette_of(o: ViewOptions, tput_colors: Option<Seq<char>>) -> Palette {
    match explicit_palette(o) {
        Some(p) => p,
        None => match tput_colors {
            Some(out) => match palette_named(out) {
                Some(p) => p,
                None => Palette::NoColors,
            },
            None => Palette::NoColors,
        },
    }
}

/// `a` if it is set, else `b` (`a.or(b)`).
pub open spec fn or_else<A>(a: Option<A>, b: Option<A>) -> Option<A> {
    if a is Some {
        a
    } else {
        b
    }
}

impl ViewOptions {
    /// Whether the console may use UTF-8.
    pub fn is_utf8(&self) -> (r: bool)
        ensures
            r == utf8_enabled(*self),
    {
        if let Some(true) = self.ascii_only {
            return false;
        }
        match &self.lang {
            Some(l) => {
                let v = chars_of(l.as_str());
                slice_ends_with(v.as_slice(), chars_of("UTF-8").as_slice())
            },
            None => false,
        }
    }

    /// The palette that the options decide, if they do.
    pub fn explicit_palette(&self) -> (r: Option<Palette>)
        ensures
            r == explicit_palette(*self),
    {
        // Did the user explicitly disable colors?
        if self.no_colors {
            return Some(Palette::NoColors);
        }
        // Did the user explicitly select a palette?
        if let Some(palette) = self.palette {
            return Some(palette);
        }
        // Does the terminal advertise truecolor support via the COLORTERM env var?
        if let Some(true) = self.truecolor {
            return Some(Palette::All);
        }
        None
    }

    /// Determines the color palette to use: any palette the options decide,
    /// else what `tput colors` printed (`tput_colors`, `None` if it failed).
    pub fn determine_palette(&self, tput_colors: Option<&str>) -> (r: Palette)
        ensures
            r == palette_of(
                *self,
                match tput_colors {
                    Some(s) => Some(s@),
                    None => None,
                },
            ),
    {
        if let Some(p) = self.explicit_palette() {
            return p;
        }
        match tput_colors {
            Some(out) => match Palette::from_str(out) {
                Ok(p) => p,
                Err(_) => Palette::NoColors,
            },
            None => Palette::NoColors,
        }
    }

    pub fn toggles(&self) -> (r: ColorToggles)
        ensures
            r == self.toggles,
    {
        self.toggles
    }

    /// These options overridden by those given on the command line.
    pub fn merge_with(self, command_line: ViewOptions) -> (r: Self)
        ensures
            r.no_colors == (command_line.no_colors || self.no_colors),
            opt_chars(r.lang) == or_else(opt_chars(command_line.lang), opt_chars(self.lang)),
            r.ascii_only == or_else(command_line.ascii_only, self.ascii_only),
            r.truecolor == or_else(command_line.truecolor, self.truecolor),
            r.palette == or_else(command_line.palette, self.palette),
            r.toggles.color_durations == or_else(
                command_line.toggles.color_durations,
                self.toggles.color_durations,
            ),
            r.toggles.color_terminated == or_else(
                command_line.toggles.color_terminated,
                self.toggles.color_terminated,
            ),
    {
        ViewOptions {
            no_colors: command_line.no_colors || self.no_colors,
            lang: match command_line.lang {
                Some(l) => Some(l),
                None => self.lang,
            },
            ascii_only: match command_line.ascii_only {
                Some(a) => Some(a),
                None => self.ascii_only,
            },
            truecolor: match command_line.truecolor {
                Some(t) => Some(t),
                None => self.truecolor,
            },
            palette: match command_line.palette {
                Some(p) => Some(p),
                None => self.palette,
            },
            toggles: ColorToggles {
                color_durations: match command_line.toggles.color_durations {
                    Some(c) => Some(c),
                    None => self.toggles.color_durations,
                },
                color_terminated: match command_line.toggles.color_terminated {
                    Some(c) => Some(c),
                    None => self.toggles.color_terminated,
                },
            },
        }
    }
}

impl Default for ViewOptions {
    fn default() -> (r: Self)
        ensures
            r.no_colors == false,
            opt_chars(r.lang) == Some("en_us.UTF-8"@),
            r.ascii_only == Some(false),
            r.truecolor == Some(true),
            r.palette == Some(Palette::All),
            r.toggles.color_durations == Some(true),
            r.toggles.color_terminated == Some(true),
    {
        ViewOptions {
            no_colors: false,
            lang: Some("en_us.UTF-8".to_string()),
            ascii_only: Some(false),
            truecolor: Some(true),
            palette: Some(Palette::All),
            toggles: ColorToggles { color_durations: Some(true), color_terminated: Some(true) },
        }
    }
}


/// Known warnings that can be enabled or disabled.
#[derive(PartialEq, Eq, Structural, Clone, Copy, Debug)]
pub enum KnownWarnings {
    SelfWakes,
    LostWaker,
    NeverYielded,
    AutoBoxedFuture,
    LargeFuture,
}

/// The position of a warning in the order of the warnings.
pub open spec fn warning_rank(w: KnownWarnings) -> nat {
    match w {
        KnownWarnings::SelfWakes => 0,
        KnownWarnings::LostWaker => 1,
        KnownWarnings::NeverYielded => 2,
        KnownWarnings::AutoBoxedFuture => 3,
        KnownWarnings::LargeFuture => 4,
    }
}

/// The name of a warning, in kebab case.
pub open spec fn warning_name(w: KnownWarnings) -> Seq<char> {
    match w {
        KnownWarnings::SelfWakes => "self-wakes"@,
        KnownWarnings::LostWaker => "lost-waker"@,
        KnownWarnings::NeverYielded => "never-yielded"@,
        KnownWarnings::AutoBoxedFuture => "auto-boxed-future"@,
        KnownWarnings::LargeFuture => "large-future"@,
    }
}

/// The warning named `s`.
pub open spec fn warning_named(s: Seq<char>) -> Option<KnownWarnings> {
    if s == "self-wakes"@ {
        Some(KnownWarnings::SelfWakes)
    } else if s == "lost-waker"@ {
        Some(KnownWarnings::LostWaker)
    } else if s == "never-yielded"@ {
        Some(KnownWarnings::NeverYielded)
    } else if s == "auto-boxed-future"@ {
        Some(KnownWarnings::AutoBoxedFuture)
    } else if s == "large-future"@ {
        Some(KnownWarnings::LargeFuture)
    } else {
        None
    }
}

/// Whether `v` lists warnings in their order, each once.
pub open spec fn strictly_ordered(v: Seq<KnownWarnings>) -> bool {
    forall|i: int, j: int| 0 <= i < j < v.len() ==> warning_rank(v[i]) < warning_rank(v[j])
}

impl KnownWarnings {
    /// The warning with rank `r`.
    pub fn from_rank(r: u8) -> (w: Self)
        requires
            r < 5,
        ensures
            warning_rank(w) == r,
    {
        match r {
            0 => KnownWarnings::SelfWakes,
            1 => KnownWarnings::LostWaker,
            2 => KnownWarnings::NeverYielded,
            3 => KnownWarnings::AutoBoxedFuture,
            _ => KnownWarnings::LargeFuture,
        }
    }

    /// The position of the warning in the order of the warnings.
    pub fn rank(&self) -> (r: u8)
        ensures
            r == warning_rank(*self),
    {
        match self {
            KnownWarnings::SelfWakes => 0,
            KnownWarnings::LostWaker => 1,
            KnownWarnings::NeverYielded => 2,
            KnownWarnings::AutoBoxedFuture => 3,
            KnownWarnings::LargeFuture => 4,
        }
    }

    /// The warning named `s`, or an error that names `s`.
    pub fn from_str(s: &str) -> (r: Result<Self, String>)
        ensures
            match r {
                Ok(w) => warning_named(s@) == Some(w),
                Err(e) => warning_named(s@) is None && e@ == "unknown warning: "@ + s@,
            },
    {
        let v = chars_of(s);
        let v = v.as_slice();
        if chars_eq(v, "self-wakes") {
            Ok(KnownWarnings::SelfWakes)
        } else if chars_eq(v, "lost-waker") {
            Ok(KnownWarnings::LostWaker)
        } else if chars_eq(v, "never-yielded") {
            Ok(KnownWarnings::NeverYielded)
        } else if chars_eq(v, "auto-boxed-future") {
            Ok(KnownWarnings::AutoBoxedFuture)
        } else if chars_eq(v, "large-future") {
            Ok(KnownWarnings::LargeFuture)
        } else {
            let mut out: Vec<char> = Vec::new();
            push_str(&mut out, "unknown warning: ");
            push_str(&mut out, s);
            Err(string_from(out.as_slice()))
        }
    }

    /// The name of the warning (its display).
    pub fn to_str(&self) -> (r: &'static str)
        ensures
            r@ == warning_name(*self),
    {
        match self {
            KnownWarnings::SelfWakes => "self-wakes",
            KnownWarnings::LostWaker => "lost-waker",
            KnownWarnings::NeverYielded => "never-yielded",
            KnownWarnings::AutoBoxedFuture => "auto-boxed-future",
            KnownWarnings::LargeFuture => "large-future",
        }
    }

    /// The warnings enabled by default: all of them, in order.
    pub fn default_enabled_warnings() -> (r: Vec<Self>)
        ensures
            r@ == seq![
                KnownWarnings::SelfWakes,
                KnownWarnings::LostWaker,
                KnownWarnings::NeverYielded,
                KnownWarnings::AutoBoxedFuture,
                KnownWarnings::LargeFuture,
            ],
    {
        vec![
            KnownWarnings::SelfWakes,
            KnownWarnings::LostWaker,
            KnownWarnings::NeverYielded,
            KnownWarnings::AutoBoxedFuture,
            KnownWarnings::LargeFuture,
        ]
    }
}

/// Whether `v` holds a warning of rank `r`.
fn has_rank(v: &[KnownWarnings], r: u8) -> (b: bool)
    ensures
        b == exists|i: int| 0 <= i < v@.len() && warning_rank(#[trigger] v@[i]) == r,
{
    let n = v.len();
    for i in 0..n
        invariant
            n == v@.len(),
            forall|j: int| 0 <= j < i ==> warning_rank(#[trigger] v@[j]) != r,
    {
        if v[i].rank() == r {
            return true;
        }
    }
    false
}

/// The warnings of `a` and of `b`, in order, each once (what sorting and
/// deduplicating their concatenation gives).
pub fn union_warnings(a: &[KnownWarnings], b: &[KnownWarnings]) -> (r: Vec<KnownWarnings>)
    ensures
        strictly_ordered(r@),
        forall|w: KnownWarnings| r@.contains(w) <==> (a@.contains(w) || b@.contains(w)),
{
    let mut r: Vec<KnownWarnings> = Vec::new();
    for k in 0..5u8
        invariant
            strictly_ordered(r@),
            forall|i: int| 0 <= i < r@.len() ==> warning_rank(#[trigger] r@[i]) < k,
            forall|w: KnownWarnings| warning_rank(w) < k ==> (r@.contains(w) <==> (a@.contains(w)
                || b@.contains(w))),
            forall|w: KnownWarnings| r@.contains(w) ==> warning_rank(w) < k,
    {
        let w = KnownWarnings::from_rank(k);
        if has_rank(a, k) || has_rank(b, k) {
            let ghost prev = r@;
            r.push(w);
            proof {
                assert forall|w2: KnownWarnings| warning_rank(w2) < k + 1 implies (r@.contains(w2) <==> (
                    a@.contains(w2) || b@.contains(w2))) by {
                    if warning_rank(w2) == k {
                        assert(w2 == w);
                        assert(r@[r@.len() - 1] == w);
                        if exists|i: int| 0 <= i < a@.len() && warning_rank(#[trigger] a@[i]) == k {
                            let i = choose|i: int| 0 <= i < a@.len() && warning_rank(#[trigger] a@[i]) == k;
                            assert(a@[i] == w);
                        } else {
                            let i = choose|i: int| 0 <= i < b@.len() && warning_rank(#[trigger] b@[i]) == k;
                            assert(b@[i] == w);
                        }
                    } else {
                        if r@.contains(w2) {
                            let i = choose|i: int| 0 <= i < r@.len() && r@[i] == w2;
                            assert(prev.contains(w2)) by {
                                assert(i < prev.len());
                                assert(prev[i] == w2);
                            }
                        }
                        if prev.contains(w2) {
                            let i = choose|i: int| 0 <= i < prev.len() && prev[i] == w2;
                            assert(r@[i] == w2);
                        }
                    }
                }
                assert forall|w2: KnownWarnings| r@.contains(w2) implies warning_rank(w2) < k + 1 by {
                    let i = choose|i: int| 0 <= i < r@.len() && r@[i] == w2;
                    if i < prev.len() {
                        assert(prev[i] == w2);
                    }
                }
            }
        } else {
            proof {
                assert forall|w2: KnownWarnings| warning_rank(w2) < k + 1 implies (r@.contains(w2) <==> (
                    a@.contains(w2) || b@.contains(w2))) by {
                    if warning_rank(w2) == k {
                        assert(w2 == w);
                        if a@.contains(w2) {
                            let i = choose|i: int| 0 <= i < a@.len() && a@[i] == w2;
                            assert(warning_rank(a@[i]) == k);
                        }
                        if b@.contains(w2) {
                            let i = choose|i: int| 0 <= i < b@.len() && b@[i] == w2;
                            assert(warning_rank(b@[i]) == k);
                        }
                    }
                }
            }
        }
    }
    proof {
        assert forall|w: KnownWarnings| r@.contains(w) <==> (a@.contains(w) || b@.contains(w)) by {
            assert(warning_rank(w) < 5);
        }
    }
    r
}


/// The index of the first comma at or after `i` in `s`, or `s.len()`.
pub open spec fn first_comma(s: Seq<char>, i: int) -> int
    decreases s.len() - i,
{
    if i >= s.len() {
        s.len() as int
    } else if s[i] == ',' {
        i
    } else {
        first_comma(s, i + 1)
    }
}

/// The pieces of `s` between commas (`str::split(',')`).
pub open spec fn split_commas(s: Seq<char>) -> Seq<Seq<char>>
    decreases s.len(),
{
    let c = first_comma(s, 0);
    if c >= s.len() || c < 0 {
        seq![s]
    } else {
        seq![s.subrange(0, c)] + split_commas(s.subrange(c + 1, s.len() as int))
    }
}

/// `first_comma(s, i)` lies between `i` and the end of `s`.
proof fn lemma_first_comma_bounds(s: Seq<char>, i: int)
    requires
        0 <= i <= s.len(),
    ensures
        i <= first_comma(s, i) <= s.len(),
        first_comma(s, i) < s.len() ==> s[first_comma(s, i)] == ',',
    decreases s.len() - i,
{
    if i < s.len() && s[i] != ',' {
        lemma_first_comma_bounds(s, i + 1);
    }
}

/// The first piece of `s` ends at its first comma; the others are the
/// pieces of what follows that comma.
proof fn lemma_split_commas_unfold(s: Seq<char>)
    ensures
        split_commas(s).len() >= 1,
        first_comma(s, 0) < s.len() ==> split_commas(s)[0] == s.subrange(0, first_comma(s, 0))
            && split_commas(s).drop_first() == split_commas(
            s.subrange(first_comma(s, 0) + 1, s.len() as int),
        ),
        first_comma(s, 0) >= s.len() ==> split_commas(s) == seq![s],
{
    lemma_first_comma_bounds(s, 0);
    let c = first_comma(s, 0);
    if c < s.len() {
        let tail = split_commas(s.subrange(c + 1, s.len() as int));
        assert((seq![s.subrange(0, c)] + tail).drop_first() =~= tail);
    }
}

/// The warnings that `pieces` name, or the error for the first piece that
/// names none.
pub open spec fn warnings_named(pieces: Seq<Seq<char>>) -> Result<Set<KnownWarnings>, Seq<char>>
    decreases pieces.len(),
{
    if pieces.len() == 0 {
        Ok(Set::empty())
    } else {
        match warning_named(pieces[0]) {
            None => Err("failed to parse warning: "@ + "unknown warning: "@ + pieces[0]),
            Some(w) => match warnings_named(pieces.drop_first()) {
                Ok(rest) => Ok(rest.insert(w)),
                Err(e) => Err(e),
            },
        }
    }
}

/// The warnings that are allowed.
pub enum AllowedWarnings {
    /// All warnings are allowed.
    All,
    /// Only these warnings are allowed, in their order, each once.
    Explicit(Vec<KnownWarnings>),
}

/// The warnings allowed, or `None` when all are.
pub open spec fn allowed_set(a: AllowedWarnings) -> Option<Set<KnownWarnings>> {
    match a {
        AllowedWarnings::All => None,
        AllowedWarnings::Explicit(v) => Some(v@.to_set()),
    }
}

/// Whether the allowed warnings are listed in order, each once.
pub open spec fn allowed_wf(a: AllowedWarnings) -> bool {
    match a {
        AllowedWarnings::All => true,
        AllowedWarnings::Explicit(v) => strictly_ordered(v@),
    }
}

/// The warnings named by the pieces `v[start..]` split at commas.
fn parse_warning_list(v: &[char], start: usize) -> (r: Result<Vec<KnownWarnings>, String>)
    requires
        start <= v@.len(),
    ensures
        match (r, warnings_named(split_commas(v@.subrange(start as int, v@.len() as int)))) {
            (Ok(ws), Ok(set)) => ws@.to_set() == set,
            (Err(e), Err(msg)) => e@ == msg,
            _ => false,
        },
    decreases v@.len() - start,
{
    let n = v.len();
    let ghost rest = v@.subrange(start as int, n as int);
    let mut c = start;
    while c < n && v[c] != ','
        invariant
            start <= c <= n,
            n == v@.len(),
            rest == v@.subrange(start as int, n as int),
            first_comma(rest, 0) == first_comma(rest, c - start),
        decreases n - c,
    {
        c = c + 1;
    }
    assert(first_comma(rest, 0) == c - start);
    let mut piece: Vec<char> = Vec::new();
    crate::location::push_range(&mut piece, v, start, c);
    proof {
        lemma_split_commas_unfold(rest);
        if c < n {
            assert(piece@ =~= rest.subrange(0, c - start));
            assert(rest.subrange(c - start + 1, rest.len() as int) =~= v@.subrange(
                c + 1,
                n as int,
            ));
        } else {
            assert(piece@ =~= rest);
        }
        assert(split_commas(rest)[0] == piece@);
    }
    let word = string_from(piece.as_slice());
    let w = match KnownWarnings::from_str(word.as_str()) {
        Ok(w) => {
            assert(warning_named(split_commas(rest)[0]) == Some(w));
            w
        },
        Err(e) => {
            let mut out: Vec<char> = Vec::new();
            push_str(&mut out, "failed to parse warning: ");
            push_str(&mut out, e.as_str());
            assert(out@ =~= "failed to parse warning: "@ + "unknown warning: "@ + piece@);
            return Err(string_from(out.as_slice()));
        },
    };
    if c < n {
        let more = parse_warning_list(v, c + 1);
        match more {
            Ok(mut ws) => {
                let ghost prev = ws@;
                ws.push(w);
                proof {
                    prev.lemma_push_to_set_commute(w);
                    let tail = split_commas(v@.subrange(c + 1, n as int));
                    assert(split_commas(rest).drop_first() == tail);
                    assert(warnings_named(split_commas(rest)) == match warnings_named(tail) {
                        Ok(set) => Ok(set.insert(w)),
                        Err(e) => Err(e),
                    });
                }
                Ok(ws)
            },
            Err(e) => {
                proof {
                    let tail = split_commas(v@.subrange(c + 1, n as int));
                    assert(split_commas(rest).drop_first() == tail);
                }
                Err(e)
            },
        }
    } else {
        proof {
            assert(split_commas(rest).drop_first() =~= Seq::<Seq<char>>::empty());
            assert(warnings_named(Seq::<Seq<char>>::empty()) == Ok::<Set<KnownWarnings>, Seq<char>>(Set::empty()));
            assert(warnings_named(split_commas(rest)) == Ok::<Set<KnownWarnings>, Seq<char>>(Set::<KnownWarnings>::empty().insert(w)));
            assert(seq![w].to_set() =~= Set::<KnownWarnings>::empty().insert(w)) by {
                Seq::<KnownWarnings>::empty().lemma_push_to_set_commute(w);
                assert(seq![w] =~= Seq::<KnownWarnings>::empty().push(w));
            }
        }
        let r = vec![w];
        assert(r@ =~= seq![w]);
        Ok(r)
    }
}

impl AllowedWarnings {
    /// The allowed warnings that `s` names: `all`, or a comma-separated list
    /// of warnings (`AllowedWarnings::from_str`).
    pub fn from_str(s: &str) -> (r: Result<Self, String>)
        ensures
            s@ == "all"@ ==> r matches Ok(AllowedWarnings::All),
            s@ != "all"@ ==> match (r, warnings_named(split_commas(s@))) {
                (Ok(a), Ok(set)) => allowed_set(a) == Some(set),
                (Err(e), Err(msg)) => e@ == msg,
                _ => false,
            },
            r matches Ok(a) ==> allowed_wf(a),
    {
        let v = chars_of(s);
        if chars_eq(v.as_slice(), "all") {
            return Ok(AllowedWarnings::All);
        }
        match parse_warning_list(v.as_slice(), 0) {
            Ok(ws) => {
                assert(v@.subrange(0, v@.len() as int) =~= v@);
                let sorted = union_warnings(ws.as_slice(), ws.as_slice());
                assert(sorted@.to_set() =~= ws@.to_set());
                Ok(AllowedWarnings::Explicit(sorted))
            },
            Err(e) => {
                assert(v@.subrange(0, v@.len() as int) =~= v@);
                Err(e)
            },
        }
    }

    /// The warnings allowed by either `self` or `allowed`.
    pub fn merge(&self, allowed: &Self) -> (r: Self)
        ensures
            allowed_set(r) == match (allowed_set(*self), allowed_set(*allowed)) {
                (Some(a), Some(b)) => Some(a.union(b)),
                _ => None,
            },
            allowed_wf(r),
    {
        match (self, allowed) {
            (AllowedWarnings::All, _) => AllowedWarnings::All,
            (_, AllowedWarnings::All) => AllowedWarnings::All,
            (AllowedWarnings::Explicit(a), AllowedWarnings::Explicit(b)) => {
                let warnings = union_warnings(a.as_slice(), b.as_slice());
                assert(warnings@.to_set() =~= a@.to_set().union(b@.to_set()));
                AllowedWarnings::Explicit(warnings)
            },
        }
    }

    /// A copy of the allowed warnings.
    pub fn copy(&self) -> (r: Self)
        ensures
            allowed_set(r) == allowed_set(*self),
            allowed_wf(*self) ==> allowed_wf(r),
    {
        match self {
            AllowedWarnings::All => AllowedWarnings::All,
            AllowedWarnings::Explicit(a) => {
                let mut v: Vec<KnownWarnings> = Vec::new();
                let n = a.len();
                for i in 0..n
                    invariant
                        n == a@.len(),
                        v@ == a@.take(i as int),
                {
                    v.push(a[i]);
                    assert(a@.take(i + 1) =~= a@.take(i as int).push(a@[i as int]));
                }
                assert(a@.take(n as int) =~= a@);
                AllowedWarnings::Explicit(v)
            },
        }
    }
}


/// The error that `humantime` reports for a duration it cannot read.
#[verifier::external_type_specification]
#[verifier::external_body]
pub struct ExDurationError(humantime::DurationError);

/// The shell that completions are generated for.
#[verifier::external_type_specification]
#[verifier::external_body]
pub struct ExShell(clap_complete::Shell);

/// What `humantime` reads in `s` (`humantime::parse_duration`, which
/// `str::parse::<humantime::Duration>` calls): the whole seconds and the
/// nanoseconds of the duration, or nothing where it reports an error.
pub uninterp spec fn human_duration(s: Seq<char>) -> Option<(u64, u32)>;

/// The sum of the numbers written in `s` from `cur`, the number being read,
/// and `acc`, the sum of those read before: a run of digits is one number,
/// also where whitespace stands between its digits, and any other character
/// ends it.
pub open spec fn numbers_sum(s: Seq<char>, cur: nat, acc: nat) -> nat
    decreases s.len(),
{
    if s.len() == 0 {
        acc + cur
    } else if '0' <= s[0] <= '9' {
        numbers_sum(s.drop_first(), (cur * 10 + (s[0] as nat - '0' as nat)) as nat, acc)
    } else if is_space(s[0]) {
        numbers_sum(s.drop_first(), cur, acc)
    } else {
        numbers_sum(s.drop_first(), 0, acc + cur)
    }
}

/// The largest sum of numbers that a duration text may hold.
pub const DURATION_NUMBERS_LIMIT: u64 = 100_000_000_000;

/// Whether the numbers in the duration text `s` add up to at most
/// `DURATION_NUMBERS_LIMIT`. Such a text holds less than
/// `2 * DURATION_NUMBERS_LIMIT` years (each number counts for at most a year,
/// and each fraction for less than one more), far below the `u64::MAX`
/// seconds on which `humantime` ends in a panic when a carry of nanoseconds
/// lands on it.
pub open spec fn duration_numbers_small(s: Seq<char>) -> bool {
    numbers_sum(s, 0, 0) <= DURATION_NUMBERS_LIMIT
}

proof fn lemma_numbers_sum_grows(s: Seq<char>, cur: nat, acc: nat)
    ensures
        numbers_sum(s, cur, acc) >= cur + acc,
    decreases s.len(),
{
    if s.len() > 0 {
        if '0' <= s[0] <= '9' {
            lemma_numbers_sum_grows(s.drop_first(), (cur * 10 + (s[0] as nat - '0' as nat)) as nat, acc);
        } else if is_space(s[0]) {
            lemma_numbers_sum_grows(s.drop_first(), cur, acc);
        } else {
            lemma_numbers_sum_grows(s.drop_first(), 0, acc + cur);
        }
    }
}

/// Tests `duration_numbers_small` on `s`.
pub fn duration_numbers_small_text(s: &str) -> (r: bool)
    ensures
        r == duration_numbers_small(s@),
{
    let v = chars_of(s);
    let mut cur: u64 = 0;
    let mut acc: u64 = 0;
    let mut i: usize = 0;
    assert(v@.skip(0) =~= v@);
    while i < v.len()
        invariant
            v@ == s@,
            i <= v@.len(),
            cur + acc <= DURATION_NUMBERS_LIMIT,
            numbers_sum(s@, 0, 0) == numbers_sum(v@.skip(i as int), cur as nat, acc as nat),
        decreases v@.len() - i,
    {
        let c = v[i];
        assert(v@.skip(i as int).drop_first() =~= v@.skip(i + 1));
        if '0' <= c && c <= '9' {
            cur = cur * 10 + (c as u64 - '0' as u64);
        } else if char_is_space(c) {
        } else {
            acc = acc + cur;
            cur = 0;
        }
        i = i + 1;
        if cur + acc > DURATION_NUMBERS_LIMIT {
            proof {
                lemma_numbers_sum_grows(v@.skip(i as int), cur as nat, acc as nat);
            }
            return false;
        }
    }
    assert(v@.skip(i as int).len() == 0);
    true
}

/// Reads a duration such as `5days 2min 2s` with `humantime`
/// (`str::parse::<humantime::Duration>`). The contract ties the result to
/// `human_duration` and says that the nanoseconds are below a billion (as
/// `std::time::Duration::subsec_nanos` documents); which texts are read is
/// left to `humantime`. `humantime` panics when it reaches `u64::MAX`
/// seconds with a whole second of nanoseconds still to carry; texts whose
/// numbers stay within `duration_numbers_small` never come near that.
#[verifier::external_body]
fn parse_human_duration(s: &str) -> (r: Result<(u64, u32), humantime::DurationError>)
    requires
        duration_numbers_small(s@),
    ensures
        match r {
            Ok(d) => human_duration(s@) == Some(d) && d.1 < 1_000_000_000,
            Err(_) => human_duration(s@) is None,
        },
{
    match s.parse::<humantime::Duration>() {
        Ok(d) => {
            let d: std::time::Duration = d.into();
            Ok((d.as_secs(), d.subsec_nanos()))
        },
        Err(e) => Err(e),
    }
}

/// How long completed tasks and dropped resources stay shown: `None` for
/// ever.
#[derive(Clone, Copy, Debug)]
pub struct RetainFor(pub Option<Duration>);

impl Default for RetainFor {
    fn default() -> (r: Self)
        ensures
            r.0 matches Some(d) && d.spec_nanos() == 6 * NANOS_PER_SEC,
    {
        RetainFor(Some(Duration::from_secs(6)))
    }
}

/// The duration that `humantime` reads, in nanoseconds.
pub open spec fn human_nanos(d: (u64, u32)) -> nat {
    (d.0 as nat) * (NANOS_PER_SEC as nat) + d.1 as nat
}

impl RetainFor {
    /// The retention that `s` gives: `none` (in any case) for ever, else a
    /// duration read by `humantime`. A duration text must keep its numbers
    /// within `duration_numbers_small` (see `duration_numbers_small_text`).
    pub fn from_str(s: &str) -> (r: Result<Self, humantime::DurationError>)
        requires
            eq_ignore_case(s@, "none"@) || duration_numbers_small(s@),
        ensures
            eq_ignore_case(s@, "none"@) ==> r matches Ok(RetainFor(None)),
            !eq_ignore_case(s@, "none"@) ==> match r {
                Ok(RetainFor(Some(d))) => human_duration(s@) matches Some(h) && d.spec_nanos()
                    == human_nanos(h),
                Ok(RetainFor(None)) => false,
                Err(_) => human_duration(s@) is None,
            },
    {
        let v = chars_of(s);
        if eq_ignore_ascii_case(v.as_slice(), chars_of("none").as_slice()) {
            return Ok(RetainFor(None));
        }
        match parse_human_duration(s) {
            Ok((secs, nanos)) => {
                let total: u128 = secs as u128 * NANOS_PER_SEC + nanos as u128;
                assert(total <= crate::time::MAX_DURATION_NANOS) by (nonlinear_arith)
                    requires
                        total == secs * NANOS_PER_SEC + nanos,
                        secs <= u64::MAX,
                        nanos < 1_000_000_000,
                        NANOS_PER_SEC == 1_000_000_000,
                        crate::time::MAX_DURATION_NANOS == 18446744073709551615999999999u128,
                ;
                Ok(RetainFor(Some(Duration::from_nanos_u128(total))))
            },
            Err(e) => Err(e),
        }
    }

    /// How the retention is written: nothing for ever, else the duration's
    /// debug format.
    pub fn to_string(&self) -> (r: String)
        ensures
            r@ == match self.0 {
                None => Seq::<char>::empty(),
                Some(d) => duration_debug(d.parts().0, d.parts().1),
            },
    {
        match self.0 {
            None => String::new(),
            Some(d) => d.to_debug_string(),
        }
    }
}

/// What `tracing_subscriber` reads in a log filter `s` (`Targets::from_str`):
/// its default level and its targets with their levels, in the order in
/// which iterating `&Targets` yields them (each written with `Display`), or
/// nothing where it reports an error. That order depends on the text alone;
/// `tracing_subscriber` sorts the directives by specificity and documents the
/// order as unspecified.
pub uninterp spec fn log_targets(s: Seq<char>) -> Option<(Option<Seq<char>>, Seq<(Seq<char>, Seq<char>)>)>;

/// The texts of pairs of strings.
pub open spec fn pair_views(v: Seq<(String, String)>) -> Seq<(Seq<char>, Seq<char>)> {
    v.map_values(|p: (String, String)| (p.0@, p.1@))
}

/// Reads a log filter with `tracing_subscriber` (`Targets::from_str`), and
/// writes out its default level (`Targets::default_level`) and its targets
/// and levels (iterating `&Targets`). The contract ties the result to
/// `log_targets`; which filters are read is left to `tracing_subscriber`.
#[verifier::external_body]
fn parse_targets(s: &str) -> (r: Option<(Option<String>, Vec<(String, String)>)>)
    ensures
        match r {
            Some((d, ts)) => log_targets(s@) == Some((opt_chars(d), pair_views(ts@))),
            None => log_targets(s@) is None,
        },
{
    let targets = match s.parse::<tracing_subscriber::filter::Targets>() {
        Ok(t) => t,
        Err(_) => return None,
    };
    let default = match targets.default_level() {
        Some(l) => Some(l.to_string()),
        None => None,
    };
    let mut pairs = Vec::new();
    for (target, level) in &targets {
        pairs.push((target.to_string(), level.to_string()));
    }
    Some((default, pairs))
}

/// A filter of the console's own logs: a default level, and levels for
/// targets.
pub struct LogFilter {
    pub default_level: Option<String>,
    pub targets: Vec<(String, String)>,
}

/// The text of a log filter's targets: `target=level` for each, separated
/// by commas, with a comma before the first if `comma`.
pub open spec fn targets_text(comma: bool, ts: Seq<(Seq<char>, Seq<char>)>) -> Seq<char>
    decreases ts.len(),
{
    if ts.len() == 0 {
        Seq::empty()
    } else {
        (if comma {
            seq![',']
        } else {
            Seq::empty()
        }) + ts[0].0 + seq!['='] + ts[0].1 + targets_text(true, ts.drop_first())
    }
}

/// The text of a log filter: its default level, then its targets.
pub open spec fn log_filter_text(d: Option<Seq<char>>, ts: Seq<(Seq<char>, Seq<char>)>) -> Seq<char> {
    match d {
        Some(l) => l + targets_text(true, ts),
        None => targets_text(false, ts),
    }
}

/// The texts of a log filter.
pub open spec fn log_filter_view(f: LogFilter) -> (Option<Seq<char>>, Seq<(Seq<char>, Seq<char>)>) {
    (opt_chars(f.default_level), pair_views(f.targets@))
}

/// The texts of an optional log filter.
pub open spec fn opt_log_filter_view(f: Option<LogFilter>) -> Option<(Option<Seq<char>>, Seq<(Seq<char>, Seq<char>)>)> {
    match f {
        Some(f) => Some(log_filter_view(f)),
        None => None,
    }
}

impl LogFilter {
    /// The filter that `s` describes, if `tracing_subscriber` reads it.
    pub fn from_str(s: &str) -> (r: Option<Self>)
        ensures
            match r {
                Some(f) => log_targets(s@) == Some(log_filter_view(f)),
                None => log_targets(s@) is None,
            },
    {
        match parse_targets(s) {
            Some((default_level, targets)) => Some(LogFilter { default_level, targets }),
            None => None,
        }
    }

    /// The filter that turns all logs off.
    pub fn off() -> (r: Self)
        ensures
            log_filter_view(r) == (Some("off"@), Seq::<(Seq<char>, Seq<char>)>::empty()),
    {
        let r = LogFilter { default_level: Some("off".to_string()), targets: Vec::new() };
        assert(pair_views(r.targets@) =~= Seq::<(Seq<char>, Seq<char>)>::empty());
        r
    }

    /// A copy of the filter.
    pub fn copy(&self) -> (r: Self)
        ensures
            log_filter_view(r) == log_filter_view(*self),
    {
        let mut targets: Vec<(String, String)> = Vec::new();
        let n = self.targets.len();
        for i in 0..n
            invariant
                n == self.targets@.len(),
                pair_views(targets@) == pair_views(self.targets@.take(i as int)),
        {
            let (t, l) = &self.targets[i];
            let ghost prev = targets@;
            targets.push((t.clone(), l.clone()));
            assert(self.targets@.take(i + 1) =~= self.targets@.take(i as int).push(self.targets@[i as int]));
            assert(pair_views(targets@) =~= pair_views(prev).push((t@, l@)));
            assert(pair_views(self.targets@.take(i + 1)) =~= pair_views(self.targets@.take(i as int)).push((t@, l@)));
        }
        assert(self.targets@.take(n as int) =~= self.targets@);
        let default_level = match &self.default_level {
            Some(l) => Some(l.clone()),
            None => None,
        };
        LogFilter { default_level, targets }
    }

    /// How the filter is written: the default level, then `target=level`
    /// for each target, separated by commas.
    pub fn to_string(&self) -> (r: String)
        ensures
            r@ == log_filter_text(opt_chars(self.default_level), pair_views(self.targets@)),
    {
        let mut out: Vec<char> = Vec::new();
        let mut comma = false;
        if let Some(d) = &self.default_level {
            push_str(&mut out, d.as_str());
            comma = true;
        }
        let ghost head = out@;
        let ghost ts = pair_views(self.targets@);
        let n = self.targets.len();
        proof {
            assert(ts.skip(0) =~= ts);
            assert(out@ =~= match self.default_level {
                Some(d) => d@,
                None => Seq::<char>::empty(),
            });
        }
        for i in 0..n
            invariant
                n == self.targets@.len(),
                ts == pair_views(self.targets@),
                comma == (self.default_level is Some || i > 0),
                head == match self.default_level {
                    Some(d) => d@,
                    None => Seq::<char>::empty(),
                },
                out@ + targets_text(comma, ts.skip(i as int)) == log_filter_text(
                    opt_chars(self.default_level),
                    ts,
                ),
        {
            let ghost before = out@;
            let (t, l) = &self.targets[i];
            if comma {
                out.push(',');
            }
            push_str(&mut out, t.as_str());
            out.push('=');
            push_str(&mut out, l.as_str());
            proof {
                let rest = ts.skip(i as int);
                assert(rest.drop_first() =~= ts.skip(i + 1));
                assert(rest[0] == (t@, l@));
                assert(out@ + targets_text(true, ts.skip(i + 1)) =~= before + targets_text(comma, rest));
            }
            comma = true;
        }
        proof {
            assert(ts.skip(n as int) =~= Seq::<(Seq<char>, Seq<char>)>::empty());
            assert(out@ =~= out@ + targets_text(comma, ts.skip(n as int)));
            if n == 0 {
                assert(ts.skip(0) =~= ts);
            }
        }
        string_from(out.as_slice())
    }
}

/// What `http` (through `tonic::transport::Uri`) reads in a target address
/// `s` (`Uri::from_str`): its scheme (`Uri::scheme_str`), its host
/// (`Uri::host`), its path (`Uri::path`) and the URI written out
/// (`Display`), or nothing where it reports an error.
pub uninterp spec fn uri_parts(s: Seq<char>) -> Option<(Option<Seq<char>>, Option<Seq<char>>, Seq<char>, Seq<char>)>;

/// Reads a URI (`str::parse::<tonic::transport::Uri>`), and gives its
/// scheme, host, path and the URI written out. The contract ties the result
/// to `uri_parts`; which texts are URIs is left to `http`.
#[verifier::external_body]
pub(crate) fn parse_uri(s: &str) -> (r: Option<(Option<String>, Option<String>, String, String)>)
    ensures
        match r {
            Some((scheme, host, path, text)) => uri_parts(s@) == Some(
                (opt_chars(scheme), opt_chars(host), path@, text@),
            ),
            None => uri_parts(s@) is None,
        },
{
    match s.parse::<tonic::transport::Uri>() {
        Ok(uri) => {
            let scheme = match uri.scheme_str() {
                Some(sc) => Some(sc.to_string()),
                None => None,
            };
            let host = match uri.host() {
                Some(h) => Some(h.to_string()),
                None => None,
            };
            Some((scheme, host, uri.path().to_string(), uri.to_string()))
        },
        Err(_) => None,
    }
}

#[derive(Debug)]
pub enum ConfigError {
    /// The target address (this text) is not a URI.
    TargetAddrNotUri(String),
    /// The target address (this URI) has a scheme other than `file`, `http`
    /// or `https`.
    TargetAddrScheme(String),
    /// The log filter (this text) cannot be read.
    LogFilter(String),
}

/// Something the console does other than connecting.
pub enum OptionalCmd {
    /// Writes a configuration file with the defaults, overridden by the
    /// command-line options.
    GenConfig,
    /// Writes shell completions.
    GenCompletion { install: bool, shell: clap_complete::Shell },
}

/// The address the console connects to by default.
pub open spec fn default_target_addr_text() -> Seq<char> {
    "http://127.0.0.1:6669"@
}

/// The address the console connects to by default.
pub fn default_target_addr() -> (r: String)
    ensures
        r@ == default_target_addr_text(),
{
    "http://127.0.0.1:6669".to_string()
}

/// The directory the console writes its logs to by default.
pub fn default_log_directory() -> (r: String)
    ensures
        r@ == "/tmp/tokio-console/logs"@,
{
    "/tmp/tokio-console/logs".to_string()
}

/// Whether `s` is a scheme the console can connect with.
pub open spec fn scheme_accepted(s: Option<Seq<char>>) -> bool {
    s == Some("file"@) || s == Some("http"@) || s == Some("https"@)
}

/// Whether the string `s` holds the characters of `t`.
fn str_is(s: &String, t: &str) -> (r: bool)
    ensures
        r == (s@ == t@),
{
    let v = chars_of(s.as_str());
    chars_eq(v.as_slice(), t)
}

/// The console's configuration.
pub struct Config {
    /// The address of the process to connect to, a URI.
    pub target_addr: Option<String>,
    /// The filter of the console's own logs.
    pub log_filter: Option<LogFilter>,
    /// The warnings enabled.
    pub warnings: Vec<KnownWarnings>,
    /// The warnings allowed.
    pub allow_warnings: Option<AllowedWarnings>,
    /// The directory of the console's own logs.
    pub log_directory: Option<String>,
    pub view_options: ViewOptions,
    /// How long completed tasks and dropped resources stay.
    pub retain_for: Option<RetainFor>,
    pub subcmd: Option<OptionalCmd>,
}

/// The allowed warnings of both configurations: their union where both
/// allow some, else whichever allows some.
pub open spec fn allowed_merged(a: Option<AllowedWarnings>, b: Option<AllowedWarnings>) -> Option<Option<Set<KnownWarnings>>> {
    match (a, b) {
        (Some(a), Some(b)) => Some(
            match (allowed_set(a), allowed_set(b)) {
                (Some(x), Some(y)) => Some(x.union(y)),
                _ => None,
            },
        ),
        (Some(a), None) => Some(allowed_set(a)),
        (None, Some(b)) => Some(allowed_set(b)),
        (None, None) => None,
    }
}

/// The allowed warnings of an optional setting.
pub open spec fn opt_allowed(a: Option<AllowedWarnings>) -> Option<Option<Set<KnownWarnings>>> {
    match a {
        Some(a) => Some(allowed_set(a)),
        None => None,
    }
}

impl Config {
    /// The configuration of the defaults: connect to the local default
    /// address, no logs, every warning, logs in the default directory, the
    /// default view options, and completed tasks kept for six seconds.
    pub fn default() -> (r: Self)
        ensures
            opt_chars(r.target_addr) == Some(default_target_addr_text()),
            opt_log_filter_view(r.log_filter) == Some(
                (Some("off"@), Seq::<(Seq<char>, Seq<char>)>::empty()),
            ),
            r.warnings@ == seq![
                KnownWarnings::SelfWakes,
                KnownWarnings::LostWaker,
                KnownWarnings::NeverYielded,
                KnownWarnings::AutoBoxedFuture,
                KnownWarnings::LargeFuture,
            ],
            r.allow_warnings is None,
            opt_chars(r.log_directory) == Some("/tmp/tokio-console/logs"@),
            r.retain_for matches Some(RetainFor(Some(d))) && d.spec_nanos() == 6 * NANOS_PER_SEC,
            r.subcmd is None,
            r.view_options.no_colors == false,
            opt_chars(r.view_options.lang) == Some("en_us.UTF-8"@),
            r.view_options.ascii_only == Some(false),
            r.view_options.truecolor == Some(true),
            r.view_options.palette == Some(Palette::All),
            r.view_options.toggles.color_durations == Some(true),
            r.view_options.toggles.color_terminated == Some(true),
    {
        Config {
            target_addr: Some(default_target_addr()),
            log_filter: Some(LogFilter::off()),
            warnings: KnownWarnings::default_enabled_warnings(),
            allow_warnings: None,
            log_directory: Some(default_log_directory()),
            retain_for: Some(RetainFor::default()),
            view_options: ViewOptions::default(),
            subcmd: None,
        }
    }

    /// This configuration overridden by `other`: each setting of `other`
    /// wins where it is given; the enabled warnings are those of both, in
    /// order, each once; the allowed warnings of both are merged.
    pub fn merge_with(self, other: Self) -> (r: Self)
        ensures
            opt_chars(r.log_directory) == or_else(opt_chars(other.log_directory), opt_chars(self.log_directory)),
            opt_chars(r.target_addr) == or_else(opt_chars(other.target_addr), opt_chars(self.target_addr)),
            opt_log_filter_view(r.log_filter) == or_else(
                opt_log_filter_view(other.log_filter),
                opt_log_filter_view(self.log_filter),
            ),
            strictly_ordered(r.warnings@),
            forall|w: KnownWarnings| r.warnings@.contains(w) <==> (other.warnings@.contains(w)
                || self.warnings@.contains(w)),
            opt_allowed(r.allow_warnings) == allowed_merged(self.allow_warnings, other.allow_warnings),
            r.allow_warnings matches Some(a) ==> allowed_wf(a) || (self.allow_warnings == Some(a)
                || other.allow_warnings == Some(a)),
            r.retain_for == or_else(other.retain_for, self.retain_for),
            r.view_options.no_colors == (other.view_options.no_colors || self.view_options.no_colors),
            opt_chars(r.view_options.lang) == or_else(opt_chars(other.view_options.lang), opt_chars(self.view_options.lang)),
            r.view_options.ascii_only == or_else(other.view_options.ascii_only, self.view_options.ascii_only),
            r.view_options.truecolor == or_else(other.view_options.truecolor, self.view_options.truecolor),
            r.view_options.palette == or_else(other.view_options.palette, self.view_options.palette),
            r.view_options.toggles.color_durations == or_else(
                other.view_options.toggles.color_durations,
                self.view_options.toggles.color_durations,
            ),
            r.view_options.toggles.color_terminated == or_else(
                other.view_options.toggles.color_terminated,
                self.view_options.toggles.color_terminated,
            ),
            r.subcmd == or_else(other.subcmd, self.subcmd),
    {
        let Config {
            target_addr: t0,
            log_filter: l0,
            warnings: w0,
            allow_warnings: a0,
            log_directory: d0,
            view_options: v0,
            retain_for: r0,
            subcmd: s0,
        } = self;
        let Config {
            target_addr: t1,
            log_filter: l1,
            warnings: w1,
            allow_warnings: a1,
            log_directory: d1,
            view_options: v1,
            retain_for: r1,
            subcmd: s1,
        } = other;
        let warnings = union_warnings(w1.as_slice(), w0.as_slice());
        let allow_warnings = match (a0, a1) {
            (Some(a), Some(b)) => Some(a.merge(&b)),
            (Some(a), None) => Some(a),
            (None, b) => b,
        };
        Config {
            log_directory: match d1 {
                Some(d) => Some(d),
                None => d0,
            },
            target_addr: match t1 {
                Some(t) => Some(t),
                None => t0,
            },
            log_filter: match l1 {
                Some(l) => Some(l),
                None => l0,
            },
            warnings,
            allow_warnings,
            retain_for: match r1 {
                Some(r) => Some(r),
                None => r0,
            },
            view_options: v0.merge_with(v1),
            subcmd: match s1 {
                Some(s) => Some(s),
                None => s0,
            },
        }
    }

    /// How long completed tasks and dropped resources stay: as configured,
    /// else six seconds; `None` for ever.
    pub fn retain_for(&self) -> (r: Option<Duration>)
        ensures
            match self.retain_for {
                Some(RetainFor(d)) => r == d,
                None => r matches Some(d) && d.spec_nanos() == 6 * NANOS_PER_SEC,
            },
    {
        match self.retain_for {
            Some(RetainFor(d)) => d,
            None => RetainFor::default().0,
        }
    }

    /// The address to connect to: the one configured, else the default,
    /// as long as its scheme is `file`, `http` or `https`.
    pub fn target_addr(&self) -> (r: Result<String, ConfigError>)
        ensures
            ({
                let addr = match self.target_addr {
                    Some(a) => a@,
                    None => default_target_addr_text(),
                };
                match uri_parts(addr) {
                    None => r matches Err(ConfigError::TargetAddrNotUri(t)) && t@ == addr,
                    Some((scheme, _, _, text)) => if scheme_accepted(scheme) {
                        r matches Ok(t) && t@ == text
                    } else {
                        r matches Err(ConfigError::TargetAddrScheme(t)) && t@ == text
                    },
                }
            }),
    {
        let addr = match &self.target_addr {
            Some(a) => a.clone(),
            None => default_target_addr(),
        };
        match parse_uri(addr.as_str()) {
            None => Err(ConfigError::TargetAddrNotUri(addr)),
            Some((scheme, _, _, text)) => {
                let ok = match &scheme {
                    Some(sc) => str_is(sc, "file") || str_is(sc, "http") || str_is(sc, "https"),
                    None => false,
                };
                if ok {
                    Ok(text)
                } else {
                    Err(ConfigError::TargetAddrScheme(text))
                }
            },
        }
    }
}


/// The character set settings of a configuration file.
pub struct CharsetConfig {
    pub lang: Option<String>,
    pub ascii_only: Option<bool>,
}

/// The color settings of a configuration file.
pub struct ColorsConfig {
    pub enabled: Option<bool>,
    pub truecolor: Option<bool>,
    pub palette: Option<Palette>,
    pub enable: Option<ColorToggles>,
}

/// The settings of a configuration file.
pub struct ConfigFile {
    pub default_target_addr: Option<String>,
    pub log: Option<String>,
    pub warnings: Vec<KnownWarnings>,
    pub allow_warnings: Option<AllowedWarnings>,
    pub log_directory: Option<String>,
    pub retention: Option<RetainFor>,
    pub charset: Option<CharsetConfig>,
    pub colors: Option<ColorsConfig>,
}

/// Whether the toggles color-code durations.
pub open spec fn toggles_color_durations(t: ColorToggles) -> bool {
    match t.color_durations {
        Some(disabled) => !disabled,
        None => true,
    }
}

/// Whether the toggles color-code terminated tasks.
pub open spec fn toggles_color_terminated(t: ColorToggles) -> bool {
    match t.color_terminated {
        Some(disabled) => !disabled,
        None => true,
    }
}

/// The log filter that a configuration file's `log` setting gives: none
/// for `off` or when unset, else what `tracing_subscriber` reads (`None`
/// inside when it cannot).
pub open spec fn file_log_filter(log: Option<Seq<char>>) -> Option<Option<(Option<Seq<char>>, Seq<(Seq<char>, Seq<char>)>)>> {
    match log {
        None => Some(None),
        Some(l) => if l == "off"@ {
            Some(None)
        } else {
            match log_targets(l) {
                Some(f) => Some(Some(f)),
                None => None,
            }
        },
    }
}

/// Whether `file` is the configuration file that writes out `config`.
pub open spec fn written_as(config: Config, file: ConfigFile) -> bool {
    &&& opt_chars(file.default_target_addr) == opt_chars(config.target_addr)
    &&& file.log matches Some(l) ==> config.log_filter matches Some(f) && l@ == log_filter_text(
        opt_chars(f.default_level),
        pair_views(f.targets@),
    )
    &&& file.log is None <==> config.log_filter is None
    &&& opt_chars(file.log_directory) == opt_chars(config.log_directory)
    &&& file.warnings == config.warnings
    &&& file.allow_warnings == config.allow_warnings
    &&& file.retention == config.retain_for
    &&& file.charset matches Some(c) && opt_chars(c.lang) == opt_chars(config.view_options.lang)
        && c.ascii_only == config.view_options.ascii_only
    &&& file.colors matches Some(c) && c.enabled == Some(!config.view_options.no_colors)
        && c.truecolor == config.view_options.truecolor && c.palette
        == config.view_options.palette && c.enable == Some(config.view_options.toggles)
}

impl ConfigFile {
    /// How long completed tasks and dropped resources stay.
    pub fn retain_for(&self) -> (r: Option<RetainFor>)
        ensures
            r == self.retention,
    {
        self.retention
    }

    /// Whether colors are disabled: when they are not enabled, if that is
    /// said.
    pub fn no_colors(&self) -> (r: Option<bool>)
        ensures
            r == match self.colors {
                Some(c) => match c.enabled {
                    Some(e) => Some(!e),
                    None => None,
                },
                None => None,
            },
    {
        match &self.colors {
            Some(c) => match c.enabled {
                Some(e) => Some(!e),
                None => None,
            },
            None => None,
        }
    }

    /// Whether durations are color-coded, if the toggles are given.
    pub fn color_durations(&self) -> (r: Option<bool>)
        ensures
            r == match self.colors {
                Some(c) => match c.enable {
                    Some(t) => Some(toggles_color_durations(t)),
                    None => None,
                },
                None => None,
            },
    {
        match &self.colors {
            Some(c) => match c.enable {
                Some(t) => Some(t.color_durations()),
                None => None,
            },
            None => None,
        }
    }

    /// Whether terminated tasks are color-coded, if the toggles are given.
    pub fn color_terminated(&self) -> (r: Option<bool>)
        ensures
            r == match self.colors {
                Some(c) => match c.enable {
                    Some(t) => Some(toggles_color_terminated(t)),
                    None => None,
                },
                None => None,
            },
    {
        match &self.colors {
            Some(c) => match c.enable {
                Some(t) => Some(t.color_terminated()),
                None => None,
            },
            None => None,
        }
    }

    /// The target address, read as a URI, if one is given.
    pub fn target_addr(&self) -> (r: Result<Option<String>, ConfigError>)
        ensures
            match self.default_target_addr {
                None => r matches Ok(None),
                Some(a) => match uri_parts(a@) {
                    Some((_, _, _, text)) => r matches Ok(Some(t)) && t@ == text,
                    None => r matches Err(ConfigError::TargetAddrNotUri(t)) && t@ == a@,
                },
            },
    {
        match &self.default_target_addr {
            None => Ok(None),
            Some(a) => match parse_uri(a.as_str()) {
                Some((_, _, _, text)) => Ok(Some(text)),
                None => Err(ConfigError::TargetAddrNotUri(a.clone())),
            },
        }
    }

    /// The log filter, if one is given and it is not `off`.
    pub fn log_filter(&self) -> (r: Result<Option<LogFilter>, ConfigError>)
        ensures
            match file_log_filter(opt_chars(self.log)) {
                Some(f) => r matches Ok(lf) && opt_log_filter_view(lf) == f,
                None => r matches Err(ConfigError::LogFilter(t)) && opt_chars(self.log) == Some(t@),
            },
    {
        match &self.log {
            None => Ok(None),
            Some(l) => {
                if str_is(l, "off") {
                    return Ok(None);
                }
                match LogFilter::from_str(l.as_str()) {
                    Some(f) => Ok(Some(f)),
                    None => Err(ConfigError::LogFilter(l.clone())),
                }
            },
        }
    }

    /// The configuration file that writes out `config` (`From<Config>`).
    pub fn from_config(config: Config) -> (r: Self)
        ensures
            written_as(config, r),
    {
        let Config {
            target_addr,
            log_filter,
            warnings,
            allow_warnings,
            log_directory,
            view_options,
            retain_for,
            subcmd: _,
        } = config;
        let log = match &log_filter {
            Some(f) => Some(f.to_string()),
            None => None,
        };
        let ViewOptions { lang, ascii_only, no_colors, truecolor, palette, toggles } = view_options;
        ConfigFile {
            default_target_addr: target_addr,
            log,
            log_directory,
            warnings,
            allow_warnings,
            retention: retain_for,
            charset: Some(CharsetConfig { lang, ascii_only }),
            colors: Some(ColorsConfig { enabled: Some(!no_colors), truecolor, palette, enable: Some(toggles) }),
        }
    }
}

/// Whether `c` is the configuration that the configuration file `file`
/// gives, when it gives one.
pub open spec fn read_as(file: ConfigFile, c: Config) -> bool {
    &&& file.default_target_addr matches Some(a) ==> uri_parts(a@) matches Some(
        (_, _, _, text),
    ) && opt_chars(c.target_addr) == Some(text)
    &&& file.default_target_addr is None ==> c.target_addr is None
    &&& file_log_filter(opt_chars(file.log)) == Some(opt_log_filter_view(c.log_filter))
    &&& c.warnings == file.warnings
    &&& c.allow_warnings == file.allow_warnings
    &&& opt_chars(c.log_directory) == opt_chars(file.log_directory)
    &&& c.retain_for == file.retention
    &&& c.view_options.no_colors == match file.colors {
        Some(cc) => cc.enabled == Some(false),
        None => false,
    }
    &&& opt_chars(c.view_options.lang) == match file.charset {
        Some(cs) => opt_chars(cs.lang),
        None => None,
    }
    &&& c.view_options.ascii_only == match file.charset {
        Some(cs) => cs.ascii_only,
        None => None,
    }
    &&& c.view_options.truecolor == match file.colors {
        Some(cc) => cc.truecolor,
        None => None,
    }
    &&& c.view_options.palette == match file.colors {
        Some(cc) => cc.palette,
        None => None,
    }
    &&& c.view_options.toggles.color_durations == match file.colors {
        Some(cc) => match cc.enable {
            Some(t) => Some(toggles_color_durations(t)),
            None => None,
        },
        None => None,
    }
    &&& c.view_options.toggles.color_terminated == match file.colors {
        Some(cc) => match cc.enable {
            Some(t) => Some(toggles_color_terminated(t)),
            None => None,
        },
        None => None,
    }
    &&& c.subcmd is None
}

impl Config {
    /// The configuration that a configuration file gives (`TryFrom`): the
    /// target address must be a URI and the log filter readable.
    pub fn try_from_file(value: ConfigFile) -> (r: Result<Self, ConfigError>)
        ensures
            match r {
                Ok(c) => read_as(value, c),
                Err(ConfigError::TargetAddrNotUri(t)) => value.default_target_addr matches Some(a)
                    && uri_parts(a@) is None && t@ == a@,
                Err(ConfigError::LogFilter(t)) => (value.default_target_addr matches Some(a)
                    ==> uri_parts(a@) is Some) && file_log_filter(opt_chars(value.log)) is None
                    && opt_chars(value.log) == Some(t@),
                Err(ConfigError::TargetAddrScheme(_)) => false,
            },
    {
        let target_addr = match value.target_addr() {
            Ok(t) => t,
            Err(e) => return Err(e),
        };
        let log_filter = match value.log_filter() {
            Ok(l) => l,
            Err(e) => return Err(e),
        };
        let no_colors = match value.no_colors() {
            Some(n) => n,
            None => false,
        };
        let color_durations = value.color_durations();
        let color_terminated = value.color_terminated();
        let ConfigFile {
            default_target_addr: _,
            log: _,
            warnings,
            allow_warnings,
            log_directory,
            retention,
            charset,
            colors,
        } = value;
        let (lang, ascii_only) = match charset {
            Some(cs) => (cs.lang, cs.ascii_only),
            None => (None, None),
        };
        let (truecolor, palette) = match &colors {
            Some(cc) => (cc.truecolor, cc.palette),
            None => (None, None),
        };
        Ok(Config {
            target_addr,
            log_filter,
            warnings,
            allow_warnings,
            log_directory,
            retain_for: retention,
            view_options: ViewOptions {
                no_colors,
                lang,
                ascii_only,
                truecolor,
                palette,
                toggles: ColorToggles { color_durations, color_terminated },
            },
            subcmd: None,
        })
    }
}


impl KnownWarnings {
    /// The linter that checks tasks for this warning with its default
    /// threshold; the warnings about the futures that drive tasks have no
    /// linter in this console.
    pub fn linter(&self) -> (r: Option<crate::warnings::Linter>)
        ensures
            match *self {
                KnownWarnings::SelfWakes => r matches Some(crate::warnings::Linter::SelfWakes(w))
                    && w.min_percent == 50 && w.description@ == crate::warnings::self_wake_summary(50),
                KnownWarnings::LostWaker => r matches Some(crate::warnings::Linter::LostWaker(_)),
                KnownWarnings::NeverYielded => r matches Some(crate::warnings::Linter::NeverYielded(w))
                    && w.min_duration.spec_nanos() == NANOS_PER_SEC && w.description@
                    == crate::warnings::never_yielded_summary(1000),
                _ => r is None,
            },
    {
        match self {
            KnownWarnings::SelfWakes => Some(
                crate::warnings::Linter::SelfWakes(crate::warnings::SelfWakePercent::default()),
            ),
            KnownWarnings::LostWaker => Some(crate::warnings::Linter::LostWaker(crate::warnings::LostWaker)),
            KnownWarnings::NeverYielded => Some(
                crate::warnings::Linter::NeverYielded(crate::warnings::NeverYielded::default()),
            ),
            _ => None,
        }
    }
}

} // verus!
