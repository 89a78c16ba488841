//! Compiled search patterns, backed by the `regex` crate.
use vstd::prelude::*;

verus! {

#[verifier::external_type_specification]
#[verifier::external_body]
pub struct ExRegex(regex::Regex);

#[verifier::external_type_specification]
#[verifier::external_body]
pub struct ExRegexError(regex::Error);

/// The pattern that matches one terminal style sequence: `ESC [`, any
/// characters but a line feed, up to the first `m`.
pub const STYLE_PATTERN: &'static str = "\x1b\\[.*?m";

/// Whether `regex::Regex::new` accepts `source`.
pub uninterp spec fn compiles(source: Seq<char>) -> bool;

/// Whether the regular expression `source` matches somewhere in `text`.
pub uninterp spec fn finds_match(source: Seq<char>, text: Seq<char>) -> bool;

/// A compiled regular expression together with its source text. Only
/// `compile` builds one, so `regex` is always compiled from `source`.
pub struct Pattern {
    regex: regex::Regex,
    source: String,
}

impl Pattern {
    /// The source text this pattern was compiled from.
    pub closed spec fn source(&self) -> Seq<char> {
        self.source@
    }
}

/// Relies on `regex::Regex::new`: it accepts or refuses a pattern depending
/// on its text alone, and accepts the fixed style pattern, whose syntax is valid.
#[verifier::external_body]
pub(crate) fn compile(source: &str) -> (r: Result<Pattern, regex::Error>)
    ensures
        r is Ok <==> compiles(source@),
        r matches Ok(p) ==> p.source() == source@,
        source@ == STYLE_PATTERN@ ==> r is Ok,
{
    match regex::Regex::new(source) {
        Ok(regex) => Ok(Pattern { regex, source: source.to_string() }),
        Err(e) => Err(e),
    }
}

/// Relies on `regex::Regex::is_match`: whether the pattern matches anywhere in `text`.
#[verifier::external_body]
pub(crate) fn is_match(p: &Pattern, text: &str) -> (r: bool)
    ensures
        r == finds_match(p.source(), text@),
{
    p.regex.is_match(text)
}

/// A style sequence whose parameters begin `s` is closed: an `m` comes in
/// `s` before any line feed.
pub open spec fn closes_style(s: Seq<char>) -> bool
    decreases s.len(),
{
    if s.len() == 0 {
        false
    } else if s[0] == 'm' {
        true
    } else if s[0] == '\n' {
        false
    } else {
        closes_style(s.drop_first())
    }
}

/// `s` with its style sequences removed, scanning from the left; `inside`
/// tells that a sequence has begun and runs up to the next `m`.
pub open spec fn strip_from(s: Seq<char>, inside: bool) -> Seq<char>
    decreases s.len(),
{
    if s.len() == 0 {
        Seq::empty()
    } else if inside {
        strip_from(s.drop_first(), s[0] != 'm')
    } else if s.len() >= 2 && s[0] == '\x1b' && s[1] == '[' && closes_style(s.subrange(2, s.len() as int)) {
        strip_from(s.drop_first(), true)
    } else {
        seq![s[0]] + strip_from(s.drop_first(), false)
    }
}

/// `s` with every style sequence (leftmost first, shortest, none overlapping) removed.
pub open spec fn unstyled(s: Seq<char>) -> Seq<char> {
    strip_from(s, false)
}

/// Relies on `regex::Regex::replace_all` with an empty replacement, on the
/// style pattern: each leftmost-first, non-overlapping match is removed, and
/// the lazy `.*?` makes each match end at the first `m`.
#[verifier::external_body]
pub(crate) fn erase_matches(p: &Pattern, text: &str) -> (r: String)
    requires
        p.source() == STYLE_PATTERN@,
    ensures
        r@ == unstyled(text@),
{
    p.regex.replace_all(text, "").into_owned()
}

} // verus!
