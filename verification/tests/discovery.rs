use mbo_statistical_profiler::discovery::{
    bytes_lt, date_parts, date_string, day_key, in_date_range, select_day_files, slot_overlaps,
    sort_day_files, split_pattern, PatternError,
};

#[test]
fn split_pattern_around_date_placeholder() {
    let (prefix, suffix) = split_pattern(b"xnas-itch-{date}.mbo.dbn.zst").unwrap();
    assert_eq!(prefix, b"xnas-itch-".to_vec());
    assert_eq!(suffix, b".mbo.dbn.zst".to_vec());
    let (p, s) = split_pattern(b"{date}").unwrap();
    assert!(p.is_empty() && s.is_empty());
}

#[test]
fn split_pattern_takes_first_placeholder() {
    let (prefix, suffix) = split_pattern(b"a{date}b{date}").unwrap();
    assert_eq!(prefix, b"a".to_vec());
    assert_eq!(suffix, b"b{date}".to_vec());
}

#[test]
fn split_pattern_without_placeholder_is_refused() {
    assert_eq!(split_pattern(b"xnas-itch.mbo.dbn"), Err(PatternError::MissingDatePlaceholder));
    assert_eq!(split_pattern(b"{dat}"), Err(PatternError::MissingDatePlaceholder));
}

#[test]
fn day_key_reads_eight_digits() {
    assert_eq!(day_key(b"xnas-itch-20250203.mbo.dbn", b"xnas-itch-", b".mbo.dbn"), Some(20250203));
    assert_eq!(day_key(b"xnas-itch-2025020.mbo.dbn", b"xnas-itch-", b".mbo.dbn"), None);
    assert_eq!(day_key(b"xnas-itch-2025x203.mbo.dbn", b"xnas-itch-", b".mbo.dbn"), None);
    assert_eq!(day_key(b"other-20250203.mbo.dbn", b"xnas-itch-", b".mbo.dbn"), None);
    assert_eq!(day_key(b"xnas-itch-20250203.mbo.dbn.zst", b"xnas-itch-", b".mbo.dbn"), None);
}

#[test]
fn date_string_and_parts() {
    assert_eq!(date_string(20250203), b"2025-02-03".to_vec());
    assert_eq!(date_string(19991231), b"1999-12-31".to_vec());
    assert_eq!(date_parts(20250701), (2025, 7, 1));
}

#[test]
fn byte_order_and_date_range() {
    assert!(bytes_lt(b"2025-02-03", b"2025-02-04"));
    assert!(bytes_lt(b"2025", b"2025-01-01"));
    assert!(!bytes_lt(b"2025-02-03", b"2025-02-03"));
    let d = b"2025-02-03";
    assert!(in_date_range(d, None, None));
    assert!(in_date_range(d, Some(b"2025-02-03"), Some(b"2025-02-03")));
    assert!(!in_date_range(d, Some(b"2025-02-04"), None));
    assert!(!in_date_range(d, None, Some(b"2025-02-02")));
}

#[test]
fn sort_day_files_orders_by_date() {
    let sorted = sort_day_files(vec![(20250203, 0), (20250101, 1), (20250202, 2), (20250101, 3)]);
    let keys: Vec<u32> = sorted.iter().map(|p| p.0).collect();
    assert_eq!(keys, vec![20250101, 20250101, 20250202, 20250203]);
    assert_eq!(sorted.len(), 4);
}

#[test]
fn select_day_files_filters_and_sorts() {
    let names: Vec<Vec<u8>> = vec![
        b"xnas-itch-20250205.mbo.dbn".to_vec(),
        b"README.md".to_vec(),
        b"xnas-itch-20250203.mbo.dbn".to_vec(),
        b"xnas-itch-20250110.mbo.dbn".to_vec(),
        b"xnas-itch-2025020x.mbo.dbn".to_vec(),
        b"xnas-itch-20250204.mbo.dbn".to_vec(),
    ];
    let picked = select_day_files(
        b"xnas-itch-",
        b".mbo.dbn",
        &names,
        Some(b"2025-02-01".as_slice()),
        Some(b"2025-02-04".as_slice()),
    );
    assert_eq!(picked, vec![(20250203, 2), (20250204, 5)]);
    let all = select_day_files(b"xnas-itch-", b".mbo.dbn", &names, None, None);
    assert_eq!(all.len(), 4);
    assert_eq!(all[0], (20250110, 3));
}

#[test]
fn slot_overlap_detects_short_names() {
    // "ab" both starts with "ab" and ends with "b", but is too short for both.
    assert!(slot_overlaps(b"ab", b"ab", b"b"));
    assert!(!slot_overlaps(b"abb", b"ab", b"b"));
    assert!(!slot_overlaps(b"xy", b"ab", b"b"));
}
