use lyricsync::interval::find_in_interval;

fn table(lines: &[(u64, u64, &str)]) -> Vec<(u64, u64, String)> {
    lines.iter().map(|(s, e, t)| (*s, *e, t.to_string())).collect()
}

#[test]
fn lookup_finds_the_covering_line() {
    let t = table(&[(0, 1000, "a"), (1000, 2000, "b")]);
    assert_eq!(find_in_interval(&t, 999), Some(0));
    assert_eq!(find_in_interval(&t, 1000), Some(1));
    assert_eq!(find_in_interval(&t, 2000), None);
    assert_eq!(find_in_interval(&t, 1999), Some(1));
    assert_eq!(find_in_interval(&t, 0), Some(0));
}

#[test]
fn lookup_on_empty_table_finds_nothing() {
    let t = table(&[]);
    assert_eq!(find_in_interval(&t, 0), None);
    assert_eq!(find_in_interval(&t, 12_345), None);
    assert_eq!(find_in_interval(&t, u64::MAX), None);
}

#[test]
fn lookup_in_a_gap_finds_nothing() {
    let t = table(&[(0, 500, "a"), (700, 1000, "b")]);
    assert_eq!(find_in_interval(&t, 600), None);
    assert_eq!(find_in_interval(&t, 500), None);
    assert_eq!(find_in_interval(&t, 700), Some(1));
}

#[test]
fn lookup_before_the_first_line_finds_nothing() {
    let t = table(&[(100, 200, "a"), (200, 300, "b"), (300, 400, "c")]);
    assert_eq!(find_in_interval(&t, 99), None);
    assert_eq!(find_in_interval(&t, 399), Some(2));
    assert_eq!(find_in_interval(&t, 400), None);
}
