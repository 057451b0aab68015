use grusp::args::get_regex;
use grusp::matcher::Capture;
use grusp::matcher::Line;
use grusp::matcher::Matcher;
use grusp::matcher::Matches;

fn some_line_with_one_capture() -> Line {
    Line::new(
        "some line".to_string(),
        vec![Capture { start: 0, end: 1, value: "some".to_string() }],
    )
}

#[test]
fn finding_matches_on_a_line() {
    let reg = get_regex(r"test", false).unwrap();
    let m = Matcher::new(&reg).match_line("some test line with test matching").unwrap();
    assert_eq!(m.number, None);
    assert_eq!(m.captures.len(), 2);
    assert_eq!(m.value, "some test line with test matching");
}

#[test]
fn finding_matches_on_a_line_returns_none() {
    let reg = get_regex(r"asdf", false).unwrap();
    let m = Matcher::new(&reg).match_line("some test line with test matching");
    assert!(m.is_none());
}

#[test]
fn matches_knows_it_has_matches() {
    let mut matches = Matches::new();
    assert!(!matches.has_matches());
    matches.add(some_line_with_one_capture());
    assert!(matches.has_matches());
}

#[test]
fn matches_tracks_count() {
    let mut matches = Matches::new();
    assert_eq!(matches.count, 0);
    matches.add(some_line_with_one_capture());
    assert_eq!(matches.count, 1);
}

#[test]
fn matches_can_add_path() {
    let path = "./src/main.rs";
    let matches = Matches::new().add_path(path);
    assert_eq!(matches.path, Some(path.to_string()));
}

#[test]
fn find_main_rs() {
    let reg = get_regex(r"fn\s+main", false).unwrap();
    let lines = vec!["some text\n".to_string(), "fn    main() {}\n".to_string(), "hello".to_string()];
    let matches = Matcher::new(&reg).collect(&lines);
    assert_eq!(matches.path, None);
    assert_eq!(matches.count, 1);
    assert_eq!(matches.lines.len(), 1);
    assert!(reg.as_regex().is_match(&matches.lines[0].value));
    assert!(matches.has_matches());
}

#[test]
fn it_can_skip_line_numbers() {
    let reg = get_regex(r"test", false).unwrap();
    let lines = vec!["test\n".to_string(), "not\n".to_string(), "test".to_string()];
    let matches = Matcher::new(&reg).with_line_numbers(false).collect(&lines);
    assert_eq!(matches.count, 2);
    assert_eq!(matches.lines.len(), 2);
    assert_eq!(matches.lines[0].number, None);
    assert_eq!(matches.lines[1].number, None);
}

#[test]
fn it_tracks_the_line_numbers_from_one() {
    let reg = get_regex(r"test", false).unwrap();
    let lines = vec!["test\n".to_string(), "not\n".to_string(), "test".to_string()];
    let matches = Matcher::new(&reg).collect(&lines);
    assert_eq!(matches.count, 2);
    assert_eq!(matches.lines.len(), 2);
    assert_eq!(matches.lines[0].number, Some(1));
    assert_eq!(matches.lines[1].number, Some(3));
}

#[test]
fn finds_all_the_captures() {
    let reg = get_regex(r"test", false).unwrap();
    let lines = vec!["test a test b test".to_string()];
    let matches = Matcher::new(&reg).collect(&lines);
    assert!(matches.has_matches());
    assert_eq!(matches.lines[0].captures[0].value, "test".to_string());
}

#[test]
fn skips_tracking_lines_and_captures() {
    let reg = get_regex(r"test", false).unwrap();
    let lines = vec!["test a test b test".to_string()];
    let matches = Matcher::new(&reg).keep_lines(false).collect(&lines);
    assert!(matches.has_matches());
    assert_eq!(matches.lines.len(), 0)
}

#[test]
fn three_captures_on_one_matched_line() {
    let reg = get_regex(r"test", false).unwrap();
    let lines = vec!["test a test b test".to_string()];
    let matches = Matcher::new(&reg).collect(&lines);
    assert_eq!(matches.count, 1);
    assert_eq!(matches.lines.len(), 1);
    let caps = &matches.lines[0].captures;
    assert_eq!(caps.len(), 3);
    assert_eq!(caps[0].start, 0);
    assert_eq!(caps[0].end, 4);
    assert_eq!(caps[0].value, "test");
}

#[test]
fn captures_are_ordered_and_slice_the_line() {
    let reg = get_regex(r"test", false).unwrap();
    let line = "test a test b test";
    let m = Matcher::new(&reg).match_line(line).unwrap();
    for w in m.captures.windows(2) {
        assert!(w[0].start <= w[0].end);
        assert!(w[0].end <= w[1].start);
    }
    for cap in &m.captures {
        assert!(cap.end <= line.len());
        assert_eq!(cap.value, &line[cap.start..cap.end]);
    }
}

#[test]
fn offsets_are_byte_offsets() {
    let reg = get_regex("β", false).unwrap();
    let line = "αβγ";
    let m = Matcher::new(&reg).match_line(line).unwrap();
    assert_eq!(m.captures.len(), 1);
    assert_eq!(m.captures[0].start, 2);
    assert_eq!(m.captures[0].end, 4);
    assert_eq!(m.captures[0].value, "β");
    assert_eq!(m.captures[0].value, &line[2..4]);
}

#[test]
fn inverted_match_records_lines_without_captures() {
    let reg = get_regex(r"test", false).unwrap();
    let lines = vec!["test here\n".to_string(), "nothing\n".to_string(), "nope".to_string()];
    let matches = Matcher::new(&reg).invert_match(true).collect(&lines);
    assert_eq!(matches.count, 2);
    assert_eq!(matches.lines.len(), 2);
    assert_eq!(matches.lines[0].captures.len(), 0);
    assert_eq!(matches.lines[1].captures.len(), 0);
    assert_eq!(matches.lines[0].value, "nothing\n");
    assert_eq!(matches.lines[1].value, "nope");
    assert_eq!(matches.lines[0].number, Some(2));
    assert_eq!(matches.lines[1].number, Some(3));
}

#[test]
fn count_only_still_counts_the_matching_lines() {
    let reg = get_regex(r"test", false).unwrap();
    let lines = vec!["test\n".to_string(), "not\n".to_string(), "test".to_string()];
    let kept = Matcher::new(&reg).collect(&lines);
    let counted = Matcher::new(&reg).keep_lines(false).collect(&lines);
    assert_eq!(counted.lines.len(), 0);
    assert_eq!(counted.count, kept.count);
    assert_eq!(counted.count, 2);
}

#[test]
fn empty_input_yields_no_matches() {
    let reg = get_regex(r"test", false).unwrap();
    let lines: Vec<String> = Vec::new();
    let matches = Matcher::new(&reg).collect(&lines);
    assert_eq!(matches.count, 0);
    assert_eq!(matches.lines.len(), 0);
    assert!(!matches.has_matches());
}

#[test]
fn empty_pattern_counts_once_per_line() {
    let reg = get_regex(r"x*", false).unwrap();
    let lines = vec!["ab\n".to_string(), "cd".to_string()];
    let matches = Matcher::new(&reg).collect(&lines);
    assert_eq!(matches.count, 2);
}

#[test]
fn has_matches_iff_count_is_positive() {
    let mut matches = Matches::new();
    assert_eq!(matches.has_matches(), matches.count > 0);
    matches.add(some_line_with_one_capture());
    assert_eq!(matches.has_matches(), matches.count > 0);
    assert!(matches.has_matches());
}

#[test]
fn matcher_find_main_rs() {
    let reg = get_regex(r"fn\s+main", false).unwrap();
    let lines = vec!["some text\n".to_string(), "fn    main() {}\n".to_string(), "hello".to_string()];
    let matches = grusp::matcher::find_matches(&lines, &reg);
    assert_eq!(matches.path, None);
    assert_eq!(matches.count, 1);
    assert_eq!(matches.lines.len(), 1);
    assert!(reg.as_regex().is_match(&matches.lines[0].value));
    assert!(matches.has_matches());
}

#[test]
fn matcher_it_can_skip_line_numbers() {
    let reg = get_regex(r"test", false).unwrap();
    let lines = vec!["test\n".to_string(), "not\n".to_string(), "test".to_string()];
    let matches = grusp::matcher::find_matches_wo_line_numbers(&lines, &reg);
    assert_eq!(matches.count, 2);
    assert_eq!(matches.lines.len(), 2);
    assert_eq!(matches.lines[0].number, None);
    assert_eq!(matches.lines[1].number, None);
}

#[test]
fn matcher_it_tracks_the_line_numbers_from_one() {
    let reg = get_regex(r"test", false).unwrap();
    let lines = vec!["test\n".to_string(), "not\n".to_string(), "test".to_string()];
    let matches = grusp::matcher::find_matches(&lines, &reg);
    assert_eq!(matches.count, 2);
    assert_eq!(matches.lines.len(), 2);
    assert_eq!(matches.lines[0].number, Some(1));
    assert_eq!(matches.lines[1].number, Some(3));
}

#[test]
fn matcher_finds_all_the_captures() {
    let reg = get_regex(r"test", false).unwrap();
    let lines = vec!["test a test b test".to_string()];
    let matches = grusp::matcher::find_matches(&lines, &reg);
    assert!(matches.has_matches());
    assert_eq!(matches.lines[0].captures[0].value, "test".to_string());
}

#[test]
fn add_path_keeps_count_and_lines() {
    let mut matches = Matches::new();
    matches.add(some_line_with_one_capture());
    let tagged = matches.add_path("./here");
    assert_eq!(tagged.path, Some("./here".to_string()));
    assert_eq!(tagged.count, 1);
    assert_eq!(tagged.lines.len(), 1);
}
