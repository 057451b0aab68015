use grusp::matcher::Capture;
use grusp::matcher::Line;
use grusp::matcher::Matches;
use grusp::stats::Counts;
use grusp::stats::Stats;

fn line_with_two_captures() -> Line {
    Line::new(
        "some line".to_string(),
        vec![
            Capture { start: 0, end: 1, value: "some".to_string() },
            Capture { start: 0, end: 1, value: "some".to_string() },
        ],
    )
}

#[test]
fn can_safely_count_matches() {
    let count = Stats::new();
    rayon::scope(|s| {
        for _ in 0..10 {
            let count = count.clone();
            s.spawn(move |_| {
                let mut matches = Matches::new();
                matches.add(line_with_two_captures());
                matches.add(line_with_two_captures());
                count.add(&matches);
            });
        }
    });
    assert_eq!(count.total(), 10);
    assert_eq!(count.lines(), 20);
    assert_eq!(count.captures(), 40);
}

#[test]
fn concurrent_folds_are_exact_for_any_worker_count() {
    for t in [1usize, 10, 100] {
        let stats = Stats::new();
        rayon::scope(|s| {
            for _ in 0..t {
                let stats = stats.clone();
                s.spawn(move |_| {
                    let one_capture_each = vec![
                        Line::new(
                            "a line\n".to_string(),
                            vec![Capture { start: 0, end: 1, value: "a".to_string() }],
                        ),
                        Line::new(
                            "b line\n".to_string(),
                            vec![Capture { start: 0, end: 1, value: "b".to_string() }],
                        ),
                    ];
                    let matches = Matches { path: None, count: 1, lines: one_capture_each };
                    stats.add(&matches);
                });
            }
        });
        assert_eq!(stats.total(), t as u64);
        assert_eq!(stats.lines(), 2 * t as u64);
        assert_eq!(stats.captures(), 2 * t as u64);
    }
}

#[test]
fn add_ignores_a_result_without_matches() {
    let stats = Stats::new();
    let empty = Matches::new();
    stats.add(&empty);
    assert_eq!(stats.total(), 0);
    assert_eq!(stats.lines(), 0);
    assert_eq!(stats.captures(), 0);
}

#[test]
fn a_cloned_handle_shares_the_same_counters() {
    let stats = Stats::new();
    let other = stats.clone();
    let mut matches = Matches::new();
    matches.add(line_with_two_captures());
    other.add(&matches);
    assert_eq!(stats.total(), 1);
    assert_eq!(stats.lines(), 1);
    assert_eq!(stats.captures(), 2);
}

#[test]
fn totals_saturate_instead_of_overflowing() {
    let near_top = Counts { total: u64::MAX, lines: u64::MAX - 1, captures: 0 };
    let mut matches = Matches::new();
    matches.add(line_with_two_captures());
    matches.add(line_with_two_captures());
    let folded = near_top.fold(&matches);
    assert_eq!(folded.total, u64::MAX);
    assert_eq!(folded.lines, u64::MAX);
    assert_eq!(folded.captures, 4);
}
