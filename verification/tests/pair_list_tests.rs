use zone_sniper::pair_list::{build_pair_intervals, parse_pair_list, trim_text};

#[test]
fn pair_list_is_trimmed_upper_cased_and_without_blank_lines() {
    let names = parse_pair_list("btcusdt\n  ethusdt \r\n\n solusdt", 20);
    assert_eq!(names, vec!["BTCUSDT", "ETHUSDT", "SOLUSDT"]);
}

#[test]
fn pair_list_keeps_at_most_max_pairs() {
    assert_eq!(parse_pair_list("a\nb\nc\n", 2), vec!["A", "B"]);
    assert_eq!(parse_pair_list("a\nb\nc\n", 0), Vec::<String>::new());
    assert_eq!(parse_pair_list("", 5), Vec::<String>::new());
    assert_eq!(parse_pair_list("\n \n\t\n", 5), Vec::<String>::new());
}

#[test]
fn trim_removes_unicode_white_space() {
    assert_eq!(trim_text("\t x y \u{3000}"), "x y");
    assert_eq!(trim_text("   "), "");
    assert_eq!(trim_text("ab"), "ab");
}

#[test]
fn pair_intervals_cross_pairs_with_intervals() {
    let pairs = vec!["A".to_string(), "B".to_string()];
    let r = build_pair_intervals(&pairs, &vec![1, 2], 3);
    let keys: Vec<(String, i64)> = r.iter().map(|p| (p.name.clone(), p.interval_ms)).collect();
    assert_eq!(keys, vec![("A".to_string(), 1), ("A".to_string(), 2), ("B".to_string(), 1)]);
    assert_eq!(build_pair_intervals(&pairs, &vec![1, 2], 100).len(), 4);
    assert!(build_pair_intervals(&pairs, &vec![], 100).is_empty());
}
