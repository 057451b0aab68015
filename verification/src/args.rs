//! The run's options: the compiled pattern, the queries to scan, and the
//! flags that configure scheduling, rendering and matching. Reading the
//! command line and probing the terminal happen outside; the decisions
//! that turn those raw values into a configuration are made — and
//! verified — here.

use vstd::prelude::*;
use crate::pattern::build_regex;
use crate::pattern::compiles_of;
use crate::pattern::Pattern;
use crate::pattern::RegexBuildError;

verus! {

/// Which results a run forwards when only file names are wanted.
#[derive(PartialEq, Eq, Structural, Debug)]
pub enum JustFiles {
    /// Print only the names of files containing matches.
    WithMatches,
    /// Print only the names of files containing no matches.
    WithoutMatches,
    /// Print matches in full.
    Neither,
}

impl JustFiles {
    /// True exactly in files-without-matches mode.
    #[inline]
    pub fn without_matches(&self) -> (r: bool)
        ensures
            r == (*self is WithoutMatches),
    {
        *self == JustFiles::WithoutMatches
    }

    /// True unless the mode forwards only the files without matches.
    #[inline]
    pub fn show_matches(&self) -> (r: bool)
        ensures
            r == !(*self is WithoutMatches),
    {
        *self != JustFiles::WithoutMatches
    }

    /// True when either just-files mode is selected.
    pub fn is_some(&self) -> (r: bool)
        ensures
            r == !(*self is Neither),
    {
        *self != JustFiles::Neither
    }

    /// The mode the two mutually exclusive flags select; files-with-matches
    /// wins when both are set.
    pub fn from_flags(files_with_matches: bool, files_without_matches: bool) -> (r: JustFiles)
        ensures
            files_with_matches ==> r is WithMatches,
            !files_with_matches && files_without_matches ==> r is WithoutMatches,
            !files_with_matches && !files_without_matches ==> r is Neither,
    {
        if files_with_matches {
            JustFiles::WithMatches
        } else if files_without_matches {
            JustFiles::WithoutMatches
        } else {
            JustFiles::Neither
        }
    }
}

/// How assembling the run's options failed.
#[derive(Debug)]
pub enum ArgError {
    /// The pattern did not compile; carries a human-readable message.
    InvalidRegex(String),
    /// Reserved for failures no current path produces.
    _Incomplete,
}

/// The error reported for each way the pattern engine can fail to build:
/// a syntax error keeps the engine's own message; the size-limit case and
/// any other failure get a fixed message each.
pub fn arg_error_of_build(e: RegexBuildError) -> (r: ArgError)
    ensures
        e matches RegexBuildError::Syntax(m) ==> (r matches ArgError::InvalidRegex(s) && s == m),
        e matches RegexBuildError::TooBig(_) ==> (r matches ArgError::InvalidRegex(s) && s@
            == "Regex too large"@),
        e is Other ==> (r matches ArgError::InvalidRegex(s) && s@
            == "Unknown regex parsing error"@),
{
    match e {
        RegexBuildError::Syntax(msg) => ArgError::InvalidRegex(msg),
        RegexBuildError::TooBig(_) => ArgError::InvalidRegex("Regex too large".to_owned()),
        RegexBuildError::Other => ArgError::InvalidRegex("Unknown regex parsing error".to_owned()),
    }
}

/// Compiles the pattern string, case-insensitively when asked: succeeds
/// exactly on the patterns the engine compiles, returning the pattern
/// bound to the given text and flag; every failure surfaces as an
/// `InvalidRegex` carrying the message `arg_error_of_build` assigns to it.
pub fn get_regex(regex: &str, case_insensitive: bool) -> (r: Result<Pattern, ArgError>)
    ensures
        (r is Ok) == compiles_of(regex@, case_insensitive),
        r matches Ok(p) ==> p.spec_text() == regex@ && p.spec_case_insensitive()
            == case_insensitive,
        r matches Err(e) ==> e matches ArgError::InvalidRegex(_),
{
    match build_regex(regex, case_insensitive) {
        Ok(p) => Ok(p),
        Err(e) => Err(arg_error_of_build(e)),
    }
}

/// The queries a run will scan: those that were given; or the current
/// directory, when none were given but standard input is a terminal; or
/// none at all — the input is then an incoming stream.
pub fn collect_queries(values: Option<Vec<String>>, stdin_is_tty: bool) -> (r: Option<Vec<String>>)
    ensures
        values matches Some(q) ==> r == Some(q),
        values is None && stdin_is_tty ==> (r matches Some(v) && v@.len() == 1 && v@[0]@ == "."@),
        values is None && !stdin_is_tty ==> r is None,
{
    match values {
        Some(q) => Some(q),
        None => {
            if stdin_is_tty {
                let mut v: Vec<String> = Vec::new();
                v.push(".".to_owned());
                Some(v)
            } else {
                None
            }
        },
    }
}

/// The run's configuration bundle, assembled once before any scan and then
/// passed immutably into every worker.
pub struct Opts {
    pub regex: Pattern,
    pub queries: Option<Vec<String>>,
    pub is_count_only: bool,
    pub is_concurrent: bool,
    pub is_colored: bool,
    pub is_inverted: bool,
    pub max_depth: Option<usize>,
    pub just_files: JustFiles,
}

impl Opts {
    /// Assembles the options from the recognized flags: `unthreaded`
    /// selects sequential scheduling, `nocolor` plain rendering, and the
    /// two mutually exclusive just-files flags pick that mode.
    pub fn build(
        regex: Pattern,
        queries: Option<Vec<String>>,
        count_only: bool,
        unthreaded: bool,
        nocolor: bool,
        invert_match: bool,
        files_with_matches: bool,
        files_without_matches: bool,
        max_depth: Option<usize>,
    ) -> (r: Opts)
        ensures
            r.regex == regex,
            r.queries == queries,
            r.is_count_only == count_only,
            r.is_concurrent == !unthreaded,
            r.is_colored == !nocolor,
            r.is_inverted == invert_match,
            r.max_depth == max_depth,
            files_with_matches ==> r.just_files is WithMatches,
            !files_with_matches && files_without_matches ==> r.just_files is WithoutMatches,
            !files_with_matches && !files_without_matches ==> r.just_files is Neither,
    {
        Opts {
            regex,
            queries,
            is_count_only: count_only,
            is_concurrent: !unthreaded,
            is_colored: !nocolor,
            is_inverted: invert_match,
            max_depth,
            just_files: JustFiles::from_flags(files_with_matches, files_without_matches),
        }
    }

    /// Whether scans should retain lines at all: not when only counts or
    /// only file names are wanted.
    pub fn keep_lines(&self) -> (r: bool)
        ensures
            r == !(!(self.just_files is Neither) || self.is_count_only),
    {
        !(self.just_files.is_some() || self.is_count_only)
    }
}

/// Whether the whole run failed and the process should exit non-zero:
/// nothing was matched, except that in files-without-matches mode a
/// non-empty discovered set counts as success.
pub fn run_failed(total: u64, has_files: bool, just_files: &JustFiles) -> (r: bool)
    ensures
        r == (total == 0 && !(has_files && just_files is WithoutMatches)),
{
    total == 0 && !(has_files && just_files.without_matches())
}

} // verus!
