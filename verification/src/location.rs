//! Source locations of spawned tasks and resources, and the shortening of
//! paths into Cargo's registry and git checkouts to `<cargo>/`.
use vstd::prelude::*;
use crate::text::{chars_of, decimal, push_decimal, replace_char, replace_chars, string_from};

verus! {

broadcast use vstd::string::group_string_axioms;

/// A location in the source code of the observed program.
pub struct Location {
    pub file: Option<String>,
    pub module: Option<String>,
    pub line: Option<u32>,
    pub column: Option<u32>,
}

/// The regular expression that finds a path into Cargo's registry sources
/// or git checkouts, together with everything before it on its line.
pub open spec fn cargo_dir_pattern() -> Seq<char> {
    r".*(/|\\)\.cargo(/|\\)(registry(/|\\)src(/|\\)[^/\\]*(/|\\)|git(/|\\)checkouts(/|\\))"@
}

/// What `regex` makes of `text` when it compiles the regular expression
/// `pattern` (`Regex::new`) and replaces its leftmost-first match in `text`
/// by `rep` (`Regex::replace`), or nothing where `pattern` does not compile.
pub uninterp spec fn regex_replaced(pattern: Seq<char>, text: Seq<char>, rep: Seq<char>) -> Option<
    Seq<char>,
>;

/// Compiles `pattern` with `regex::Regex::new` and replaces the first match
/// in `text` by `rep` with `Regex::replace`. The contract names the result
/// (`regex_replaced`); where the pattern does not compile, `regex` reports an
/// error and the result is `None`.
#[verifier::external_body]
fn regex_replace_first(pattern: &str, text: &str, rep: &str) -> (r: Option<String>)
    ensures
        match r {
            Some(t) => regex_replaced(pattern@, text@, rep@) == Some(t@),
            None => regex_replaced(pattern@, text@, rep@) is None,
        },
{
    match regex::Regex::new(pattern) {
        Ok(re) => Some(re.replace(text, rep).into_owned()),
        Err(_) => None,
    }
}

/// `s` with a path into Cargo's registry sources or git checkouts, and all
/// that comes before it on its line, replaced by `<cargo>/` (the first match
/// of `cargo_dir_pattern`), and with every backslash turned into a slash.
/// Where the pattern would not compile, only the backslashes change.
pub open spec fn truncated_path(s: Seq<char>) -> Seq<char> {
    let replaced = match regex_replaced(cargo_dir_pattern(), s, "<cargo>/"@) {
        Some(t) => t,
        None => s,
    };
    replace_char(replaced, '\\', '/')
}

/// What a location shows: the module path if there is one, else the file,
/// then `:line` and, after a line, `:column`.
pub open spec fn location_text(
    file: Option<Seq<char>>,
    module: Option<Seq<char>>,
    line: Option<u32>,
    column: Option<u32>,
) -> Seq<char> {
    if module.is_none() && file.is_none() {
        "<unknown location>"@
    } else {
        let place = if module.is_some() {
            module.unwrap()
        } else {
            file.unwrap()
        };
        match line {
            None => place,
            Some(l) => {
                let with_line = place + seq![':'] + decimal(l as nat);
                match column {
                    None => with_line,
                    Some(c) => with_line + seq![':'] + decimal(c as nat),
                }
            },
        }
    }
}

/// The view of an optional string.
pub open spec fn opt_view(s: Option<String>) -> Option<Seq<char>> {
    match s {
        Some(s) => Some(s@),
        None => None,
    }
}

/// What `format_location` shows for `loc`: the location with its file path
/// shortened, or `<unknown location>`.
pub open spec fn formatted_location(loc: Option<Location>) -> Seq<char> {
    match loc {
        None => "<unknown location>"@,
        Some(l) => location_text(
            match l.file {
                Some(f) => Some(truncated_path(f@)),
                None => None,
            },
            opt_view(l.module),
            l.line,
            l.column,
        ),
    }
}


/// Appends `s[a..b]` to `out`.
pub fn push_range(out: &mut Vec<char>, s: &[char], a: usize, b: usize)
    requires
        a <= b <= s@.len(),
    ensures
        final(out)@ == old(out)@ + s@.subrange(a as int, b as int),
{
    let mut i = a;
    while i < b
        invariant
            a <= i <= b,
            b <= s@.len(),
            out@ == old(out)@ + s@.subrange(a as int, i as int),
        decreases b - i,
    {
        out.push(s[i]);
        assert(s@.subrange(a as int, i + 1) == s@.subrange(a as int, i as int).push(s@[i as int]));
        i = i + 1;
    }
}

/// Shortens a path into Cargo's registry or git checkouts to start with
/// `<cargo>/`, and turns every backslash into a slash, so that paths read the
/// same whatever platform the observed program runs on.
pub fn truncate_registry_path(s: String) -> (r: String)
    ensures
        r@ == truncated_path(s@),
{
    let pattern = r".*(/|\\)\.cargo(/|\\)(registry(/|\\)src(/|\\)[^/\\]*(/|\\)|git(/|\\)checkouts(/|\\))";
    let marker = "<cargo>/";
    proof {
        assert(pattern@ == cargo_dir_pattern());
    }
    let replaced = match regex_replace_first(pattern, s.as_str(), marker) {
        Some(t) => t,
        None => s,
    };
    let v = chars_of(replaced.as_str());
    let fixed = replace_chars(v.as_slice(), '\\', '/');
    string_from(fixed.as_slice())
}


/// What `loc` shows, as a location's display does: the module path if there
/// is one, else the file, then `:line` and `:column`.
pub fn location_to_string(loc: &Location) -> (r: String)
    ensures
        r@ == location_text(opt_view(loc.file), opt_view(loc.module), loc.line, loc.column),
{
    let mut out: Vec<char>;
    match (&loc.module, &loc.file) {
        (Some(m), _) => {
            out = chars_of(m.as_str());
        },
        (None, Some(f)) => {
            out = chars_of(f.as_str());
        },
        (None, None) => {
            let unknown = "<unknown location>";
            return unknown.to_string();
        },
    }
    if let Some(line) = loc.line {
        out.push(':');
        push_decimal(line as u128, &mut out);
        if let Some(col) = loc.column {
            out.push(':');
            push_decimal(col as u128, &mut out);
        }
    }
    string_from(out.as_slice())
}

/// The location shown for a task or resource: its file path shortened by
/// [`truncate_registry_path`], or `<unknown location>` when there is none.
pub fn format_location(loc: Option<Location>) -> (r: String)
    ensures
        r@ == formatted_location(loc),
{
    match loc {
        Some(l) => {
            let Location { file, module, line, column } = l;
            let file = match file {
                Some(f) => Some(truncate_registry_path(f)),
                None => None,
            };
            let shortened = Location { file, module, line, column };
            location_to_string(&shortened)
        },
        None => {
            let unknown = "<unknown location>";
            unknown.to_string()
        },
    }
}

} // verus!
