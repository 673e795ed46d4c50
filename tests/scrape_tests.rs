use scrape::classify::{Classifier, Strategy};
use scrape::driver::{scrape, scrape_line, FieldParseError};
use scrape::fields::parse_u64;
use scrape::histogram::FrequencyTable;
use scrape::pattern::{default_pattern, Category, EventPattern, PatternError};
use scrape::stats::{percent_hundredths, Stats};

fn lines(v: &[&str]) -> Vec<Vec<u8>> {
    v.iter().map(|s| s.as_bytes().to_vec()).collect()
}

fn append_line(offset: u64, value: u64) -> String {
    format!("2017-01-01 INFO append with first offset: {} to log, value={} bytes", offset, value)
}

fn named_line(name: &str) -> String {
    format!("2017-01-01 INFO scheduled task '{}' started", name)
}

fn both(append: bool, named: bool) -> Vec<Classifier> {
    vec![
        Classifier::with_defaults(Strategy::Sequential, append, named).unwrap(),
        Classifier::with_defaults(Strategy::Combined, append, named).unwrap(),
    ]
}

#[test]
fn parse_accepts_plain_digits() {
    assert_eq!(parse_u64(b"0"), Some(0));
    assert_eq!(parse_u64(b"150"), Some(150));
    assert_eq!(parse_u64(b"007"), Some(7));
    assert_eq!(parse_u64(b"18446744073709551615"), Some(u64::MAX));
}

#[test]
fn parse_rejects_other_text() {
    assert_eq!(parse_u64(b""), None);
    assert_eq!(parse_u64(b"+1"), None);
    assert_eq!(parse_u64(b"12a"), None);
    assert_eq!(parse_u64(b"18446744073709551616"), None);
    assert_eq!(parse_u64(b"99999999999999999999999"), None);
}

#[test]
fn malformed_pattern_is_reported() {
    let r = Classifier::new(Strategy::Sequential, Some("(unclosed"), None);
    assert_eq!(r.err(), Some(PatternError { category: Some(Category::Append) }));
    let r = Classifier::new(Strategy::Combined, Some("ok"), Some("[z-a]"));
    assert_eq!(r.err(), Some(PatternError { category: Some(Category::Named) }));
    assert!(EventPattern::new(Category::Named, "(").is_err());
}

#[test]
fn event_pattern_captures_groups() {
    let p = EventPattern::new(Category::Append, default_pattern(Category::Append)).unwrap();
    let caps = p.captures(append_line(10, 100).as_bytes()).unwrap();
    assert_eq!(caps.len(), 3);
    assert_eq!(caps[1], Some(b"10".to_vec()));
    assert_eq!(caps[2], Some(b"100".to_vec()));
    assert!(p.captures(b"nothing here").is_none());
}

#[test]
fn classify_extracts_fields() {
    for c in both(true, true) {
        let f = c.classify(append_line(42, 7).as_bytes()).unwrap();
        assert_eq!(f.append, Some((42, 7)));
        assert_eq!(f.named, None);
        let f = c.classify(named_line("flush").as_bytes()).unwrap();
        assert_eq!(f.append, None);
        assert_eq!(f.named, Some(b"flush".to_vec()));
        let f = c.classify(b"an unrelated line").unwrap();
        assert_eq!(f.append, None);
        assert_eq!(f.named, None);
    }
}

#[test]
fn scenario_append_events() {
    let a = append_line(10, 100);
    let b = append_line(30, 50);
    let input = lines(&["start", &a, "noise", &b, "end"]);
    for c in both(true, false) {
        let s = scrape(&c, &input).unwrap();
        assert_eq!(s.no_lines(), 5);
        assert_eq!(s.appends(), 2);
        assert_eq!(percent_hundredths(s.appends(), s.no_lines()), 4000);
        assert_eq!(s.min_append_offset(), Some(10));
        assert_eq!(s.max_append_offset(), Some(30));
        assert_eq!(s.total_bytes_written(), 150);
        assert_eq!(s.named_events(), 0);
    }
}

#[test]
fn scenario_named_events() {
    let a1 = named_line("a");
    let b = named_line("b");
    let a2 = named_line("a");
    let input = lines(&[&a1, "other", &b, &a2]);
    for c in both(false, true) {
        let s = scrape(&c, &input).unwrap();
        assert_eq!(s.no_lines(), 4);
        assert_eq!(s.named_events(), 3);
        let top = s.named_hist().top_k(10);
        assert_eq!(top, vec![(b"a".to_vec(), 2), (b"b".to_vec(), 1)]);
        // Ranking does not consume the table.
        assert_eq!(s.named_hist().top_k(10), top);
        assert_eq!(s.named_hist().len(), 2);
    }
}

#[test]
fn empty_input() {
    for c in both(true, true) {
        let s = scrape(&c, &Vec::new()).unwrap();
        assert_eq!(s.no_lines(), 0);
        assert_eq!(s.appends(), 0);
        assert_eq!(s.named_events(), 0);
        assert_eq!(percent_hundredths(0, 0), 0);
        assert_eq!(s.min_append_offset(), None);
        assert_eq!(s.max_append_offset(), None);
        assert_eq!(s.total_bytes_written(), 0);
        assert_eq!(s.named_hist().top_k(10), vec![]);
    }
}

#[test]
fn strategies_agree_on_mixed_input() {
    let mixed = "x with first offset: 5 then scheduled task 'both' value=9".to_string();
    let input = lines(&[
        &append_line(3, 4),
        &named_line("n1"),
        &mixed,
        "plain",
        &named_line("n1"),
        &append_line(1, 2),
    ]);
    let cs = both(true, true);
    let s1 = scrape(&cs[0], &input).unwrap();
    let s2 = scrape(&cs[1], &input).unwrap();
    for s in [&s1, &s2] {
        assert_eq!(s.no_lines(), 6);
        assert_eq!(s.appends(), 3);
        assert_eq!(s.named_events(), 3);
        assert_eq!(s.min_append_offset(), Some(1));
        assert_eq!(s.max_append_offset(), Some(5));
        assert_eq!(s.total_bytes_written(), 15);
    }
    assert_eq!(s1.named_hist().top_k(10), s2.named_hist().top_k(10));
    assert_eq!(s1.named_hist().top_k(10), vec![(b"n1".to_vec(), 2), (b"both".to_vec(), 1)]);
}

#[test]
fn overflowing_field_is_a_parse_error() {
    let bad = "x with first offset: 99999999999999999999999 value=1".to_string();
    let input = lines(&["fine", &bad, "never reached"]);
    for c in both(true, true) {
        let r = scrape(&c, &input);
        assert_eq!(r.err(), Some(FieldParseError { line: 2, category: Category::Append }));
    }
}

#[test]
fn failed_line_leaves_stats_untouched() {
    let c = Classifier::with_defaults(Strategy::Sequential, true, false).unwrap();
    let mut s = Stats::new();
    assert!(scrape_line(&c, &mut s, append_line(8, 2).as_bytes()).is_ok());
    let bad = "x with first offset: 1 value=99999999999999999999";
    let r = scrape_line(&c, &mut s, bad.as_bytes());
    assert_eq!(r, Err(FieldParseError { line: 2, category: Category::Append }));
    assert_eq!(s.no_lines(), 1);
    assert_eq!(s.appends(), 1);
    assert_eq!(s.total_bytes_written(), 2);
}

#[test]
fn untracked_categories_stay_empty() {
    let input = lines(&[&append_line(1, 1), &named_line("q")]);
    let c = Classifier::with_defaults(Strategy::Combined, false, true).unwrap();
    let s = scrape(&c, &input).unwrap();
    assert_eq!(s.appends(), 0);
    assert_eq!(s.named_events(), 1);
    assert!(s.appends() <= s.no_lines() && s.named_events() <= s.no_lines());
}

#[test]
fn min_max_sum_over_many() {
    let vals = [(7u64, 1u64), (3, 2), (9, 3), (3, 4)];
    let owned: Vec<String> = vals.iter().map(|&(o, v)| append_line(o, v)).collect();
    let refs: Vec<&str> = owned.iter().map(|s| s.as_str()).collect();
    let s = scrape(&both(true, false)[0], &lines(&refs)).unwrap();
    assert_eq!(s.min_append_offset(), Some(3));
    assert_eq!(s.max_append_offset(), Some(9));
    assert_eq!(s.total_bytes_written(), 10);
}

#[test]
fn sum_exceeding_u64_is_exact() {
    let mut s = Stats::new();
    s.record_line();
    s.record_append(0, u64::MAX);
    s.record_line();
    s.record_append(1, u64::MAX);
    assert_eq!(s.total_bytes_written(), 2 * (u64::MAX as u128));
}

#[test]
fn percentage_rounds_to_hundredths() {
    assert_eq!(percent_hundredths(2, 5), 4000);
    assert_eq!(percent_hundredths(1, 3), 3333);
    assert_eq!(percent_hundredths(2, 3), 6667);
    assert_eq!(percent_hundredths(7, 7), 10000);
    assert_eq!(percent_hundredths(0, 9), 0);
}

#[test]
fn frequency_table_counts_and_ranks() {
    let mut t = FrequencyTable::new();
    for k in ["x", "y", "z", "y", "z", "w", "z"] {
        t.increment(k.as_bytes().to_vec());
    }
    assert_eq!(t.len(), 4);
    assert_eq!(t.get(b"z"), 3);
    assert_eq!(t.get(b"y"), 2);
    assert_eq!(t.get(b"absent"), 0);
    assert_eq!(t.key(0), b"x");
    assert_eq!(t.count(0), 1);
    // Equal counts keep first-occurrence order; the list is cut at k.
    assert_eq!(
        t.top_k(3),
        vec![(b"z".to_vec(), 3), (b"y".to_vec(), 2), (b"x".to_vec(), 1)]
    );
    assert_eq!(t.top_k_positions(10), vec![2, 1, 0, 3]);
    assert_eq!(t.top_k(0), vec![]);
}

#[test]
fn classifier_reports_strategy_and_sources() {
    let c = Classifier::new(Strategy::Combined, Some("a(b)"), None).unwrap();
    assert_eq!(c.strategy(), Strategy::Combined);
    let f = c.classify(b"a-b").unwrap();
    assert_eq!(f.append, None);
    // Group 2 is missing from this pattern, so an append match cannot convert.
    let r = c.classify(b"xabx");
    assert_eq!(r.err(), Some(Category::Append));
}

#[test]
fn scraper_feeds_lines_in_order() {
    let c = Classifier::with_defaults(Strategy::Combined, true, true).unwrap();
    let mut pass = scrape::driver::Scraper::new(c);
    assert_eq!(pass.lines_seen(), 0);
    pass.feed(append_line(4, 40).as_bytes()).unwrap();
    pass.feed(b"noise").unwrap();
    pass.feed(named_line("job").as_bytes()).unwrap();
    let bad = "x with first offset: 1 value=99999999999999999999";
    assert_eq!(
        pass.feed(bad.as_bytes()),
        Err(FieldParseError { line: 4, category: Category::Append })
    );
    assert_eq!(pass.lines_seen(), 3);
    let s = pass.finish();
    assert_eq!(s.no_lines(), 3);
    assert_eq!(s.appends(), 1);
    assert_eq!(s.named_events(), 1);
    assert_eq!(s.total_bytes_written(), 40);
}

#[test]
fn defaults_build_under_both_strategies() {
    for strategy in [Strategy::Sequential, Strategy::Combined] {
        for (a, n) in [(true, true), (true, false), (false, true), (false, false)] {
            let c = Classifier::with_defaults(strategy, a, n).unwrap();
            assert_eq!(c.strategy(), strategy);
        }
    }
    assert_eq!(
        default_pattern(Category::Append),
        r"^.* with first offset: ([0-9]+).*value=([0-9]+).*$"
    );
    assert_eq!(default_pattern(Category::Named), r".* scheduled task '(.+?)'.*");
}
