//! Trusted bindings to the external pattern engine (the `regex` crate).
//!
//! The engine's verdicts are deterministic: which patterns compile, and
//! which occurrences a compiled pattern finds on a line, depend on the
//! pattern text, the case flag and the line alone. Those two verdicts are
//! given names here — `compiles_of` and `occurrences_of` — that the
//! bindings state and the rest of the library is verified against. What
//! the engine's documentation promises of every search — ascending,
//! non-overlapping byte spans that slice the haystack exactly — is stated
//! beside the name.

use vstd::prelude::*;
use crate::matcher::Capture;
use crate::matcher::CaptureModel;
use crate::matcher::captures_wf;

verus! {

/// Whether the engine compiles the pattern text (under its default size
/// limit), case-insensitively when the flag is set. Named only: no
/// contract says which patterns compile.
pub uninterp spec fn compiles_of(pattern: Seq<char>, case_insensitive: bool) -> bool;

/// The engine's verdict on one line: the successive non-overlapping
/// occurrences of the pattern, leftmost first. Named only: no contract
/// says where a pattern matches.
pub uninterp spec fn occurrences_of(
    pattern: Seq<char>,
    case_insensitive: bool,
    line: Seq<char>,
) -> Seq<CaptureModel>;

/// A compiled, immutable, thread-shareable pattern, together with the
/// plain text and case flag it was compiled from. The fields are private
/// and `build_regex` is the only constructor, so every `Pattern` holds the
/// engine compiled from its own text and flag.
pub struct Pattern {
    regex: regex::Regex,
    text: String,
    case_insensitive: bool,
}

/// The compiled pattern object of the `regex` crate.
#[verifier::external_type_specification]
#[verifier::external_body]
pub struct ExRegex(regex::Regex);

impl Pattern {
    /// The pattern text this engine was compiled from.
    pub closed spec fn spec_text(&self) -> Seq<char> {
        self.text@
    }

    /// Whether this engine matches case-insensitively.
    pub closed spec fn spec_case_insensitive(&self) -> bool {
        self.case_insensitive
    }

    /// The underlying compiled engine.
    pub fn as_regex(&self) -> &regex::Regex {
        &self.regex
    }
}

/// How building a pattern failed, mirroring the engine's error cases.
#[derive(Debug)]
pub enum RegexBuildError {
    /// The pattern's syntax is invalid; carries the engine's message.
    Syntax(String),
    /// The compiled pattern exceeded the engine's size limit.
    TooBig(usize),
    /// Any other failure the engine may report.
    Other,
}

/// Relies on `regex::RegexBuilder`: `new(p).case_insensitive(ci).build()`
/// compiles the pattern deterministically — success depends on the text
/// and the flag alone — failing with `regex::Error::Syntax` (a message) or
/// `regex::Error::CompiledTooBig` (the size limit that was exceeded).
#[verifier::external_body]
pub(crate) fn build_regex(pattern: &str, case_insensitive: bool) -> (r: Result<
    Pattern,
    RegexBuildError,
>)
    ensures
        r is Ok <==> compiles_of(pattern@, case_insensitive),
        r matches Ok(p) ==> p.spec_text() == pattern@ && p.spec_case_insensitive()
            == case_insensitive,
{
    match regex::RegexBuilder::new(pattern).case_insensitive(case_insensitive).build() {
        Ok(regex) => Ok(Pattern { regex, text: pattern.to_owned(), case_insensitive }),
        Err(regex::Error::Syntax(msg)) => Err(RegexBuildError::Syntax(msg)),
        Err(regex::Error::CompiledTooBig(limit)) => Err(RegexBuildError::TooBig(limit)),
        Err(_) => Err(RegexBuildError::Other),
    }
}

/// Relies on `regex::Regex::find_iter`: it yields the successive
/// non-overlapping occurrences of the pattern in the haystack, left to
/// right — a verdict depending on the pattern text, the case flag and the
/// haystack alone — and each match guarantees `start() <= end()`, both
/// byte offsets lying on character boundaries of the haystack, with
/// `as_str()` exactly the slice of the haystack between them.
#[verifier::external_body]
pub(crate) fn find_captures(pattern: &Pattern, line: &str) -> (caps: Vec<Capture>)
    ensures
        caps.deep_view() == occurrences_of(
            pattern.spec_text(),
            pattern.spec_case_insensitive(),
            line@,
        ),
        captures_wf(caps.deep_view(), line@),
{
    let mut caps = Vec::new();
    for m in pattern.regex.find_iter(line) {
        caps.push(Capture { start: m.start(), end: m.end(), value: m.as_str().to_owned() });
    }
    caps
}

} // verus!
