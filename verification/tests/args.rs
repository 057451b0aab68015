use grusp::args::arg_error_of_build;
use grusp::args::collect_queries;
use grusp::args::get_regex;
use grusp::args::run_failed;
use grusp::args::ArgError;
use grusp::args::JustFiles;
use grusp::args::Opts;
use grusp::pattern::RegexBuildError;

#[test]
fn it_parses_into_a_regex() {
    let regex = get_regex("test", false).unwrap();
    assert!(regex.as_regex().is_match("test"));
    assert!(!regex.as_regex().is_match("tEst"));
}

#[test]
fn it_errors_when_parsing_bad_regex() {
    let result = get_regex("test(", false);
    assert!(result.is_err());
}

#[test]
fn it_can_be_case_insensitive() {
    let regex = get_regex("test", true).unwrap();
    assert!(regex.as_regex().is_match("TEST"));
}

#[test]
fn a_bad_regex_reports_an_invalid_regex_error() {
    let result = get_regex("test(", false);
    assert!(matches!(result, Err(ArgError::InvalidRegex(_))));
}

#[test]
fn build_errors_map_to_their_messages() {
    let syntax = arg_error_of_build(RegexBuildError::Syntax("broken".to_string()));
    assert!(matches!(syntax, ArgError::InvalidRegex(m) if m == "broken"));
    let too_big = arg_error_of_build(RegexBuildError::TooBig(10));
    assert!(matches!(too_big, ArgError::InvalidRegex(m) if m == "Regex too large"));
    let other = arg_error_of_build(RegexBuildError::Other);
    assert!(matches!(other, ArgError::InvalidRegex(m) if m == "Unknown regex parsing error"));
}

#[test]
fn given_queries_are_kept() {
    let queries = Some(vec!["./a".to_string(), "./b".to_string()]);
    let r = collect_queries(queries.clone(), false);
    assert_eq!(r, queries);
}

#[test]
fn a_terminal_with_no_queries_searches_the_current_directory() {
    let r = collect_queries(None, true);
    assert_eq!(r, Some(vec![".".to_string()]));
}

#[test]
fn a_pipe_with_no_queries_yields_none() {
    let r = collect_queries(None, false);
    assert_eq!(r, None);
}

#[test]
fn just_files_modes_answer_their_predicates() {
    assert!(JustFiles::WithoutMatches.without_matches());
    assert!(!JustFiles::WithMatches.without_matches());
    assert!(!JustFiles::Neither.without_matches());
    assert!(JustFiles::WithMatches.show_matches());
    assert!(JustFiles::Neither.show_matches());
    assert!(!JustFiles::WithoutMatches.show_matches());
    assert!(JustFiles::WithMatches.is_some());
    assert!(JustFiles::WithoutMatches.is_some());
    assert!(!JustFiles::Neither.is_some());
}

#[test]
fn just_files_comes_from_the_two_flags() {
    assert_eq!(JustFiles::from_flags(true, false), JustFiles::WithMatches);
    assert_eq!(JustFiles::from_flags(false, true), JustFiles::WithoutMatches);
    assert_eq!(JustFiles::from_flags(false, false), JustFiles::Neither);
}

#[test]
fn opts_build_derives_the_configuration() {
    let regex = get_regex("test", false).unwrap();
    let opts = Opts::build(
        regex,
        Some(vec!["./dir".to_string()]),
        true,
        true,
        true,
        true,
        false,
        true,
        Some(3),
    );
    assert!(opts.is_count_only);
    assert!(!opts.is_concurrent);
    assert!(!opts.is_colored);
    assert!(opts.is_inverted);
    assert_eq!(opts.max_depth, Some(3));
    assert_eq!(opts.just_files, JustFiles::WithoutMatches);
    assert_eq!(opts.queries, Some(vec!["./dir".to_string()]));
}

#[test]
fn lines_are_kept_only_when_fully_displayed() {
    let regex = get_regex("test", false).unwrap();
    let plain = Opts::build(regex, None, false, false, false, false, false, false, None);
    assert!(plain.keep_lines());
    let regex = get_regex("test", false).unwrap();
    let count_only = Opts::build(regex, None, true, false, false, false, false, false, None);
    assert!(!count_only.keep_lines());
    let regex = get_regex("test", false).unwrap();
    let just_files = Opts::build(regex, None, false, false, false, false, true, false, None);
    assert!(!just_files.keep_lines());
}

#[test]
fn a_run_fails_exactly_when_nothing_qualifies() {
    assert!(run_failed(0, false, &JustFiles::Neither));
    assert!(run_failed(0, true, &JustFiles::Neither));
    assert!(!run_failed(1, true, &JustFiles::Neither));
    assert!(!run_failed(0, true, &JustFiles::WithoutMatches));
    assert!(run_failed(0, false, &JustFiles::WithoutMatches));
}
