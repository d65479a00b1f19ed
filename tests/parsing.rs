use lyricsync::lyrics::interval_lyrics;
use lyricsync::timecode::time_in_microseconds;

fn line(start: u64, end: u64, text: &str) -> (u64, u64, String) {
    (start, end, text.to_string())
}

#[test]
fn lead_in_from_bare_first_line() {
    let table = interval_lyrics("[00:01.50]\n[00:01.50] Hello\n[00:03.00] World\n[00:05.00]");
    assert_eq!(
        table,
        vec![
            line(0, 1_500_000, ""),
            line(1_500_000, 3_000_000, "Hello"),
            line(3_000_000, 5_000_000, "World"),
        ]
    );
}

#[test]
fn timecode_conversion_is_exact() {
    assert_eq!(time_in_microseconds(1, 2, 50), Some(62_500_000));
    assert_eq!(time_in_microseconds(0, 0, 1), Some(10_000));
    assert_eq!(time_in_microseconds(u64::MAX, 0, 0), None);
    let table = interval_lyrics("[01:02.50] line\n[01:03.00]");
    assert_eq!(table, vec![line(62_500_000, 63_000_000, "line")]);
}

#[test]
fn well_formed_text_round_trips() {
    let text = "[00:00.10] one\n[00:02.00] two\n[00:04.25] three\n[00:06.00]\n";
    let table = interval_lyrics(text);
    assert_eq!(table.len(), 3);
    assert_eq!(
        table,
        vec![
            line(100_000, 2_000_000, "one"),
            line(2_000_000, 4_250_000, "two"),
            line(4_250_000, 6_000_000, "three"),
        ]
    );
    for i in 0..table.len() {
        for j in i + 1..table.len() {
            assert!(table[i].0 <= table[j].0);
            assert!(table[i].1 <= table[j].0);
        }
    }
    assert_eq!(table[2].1, 6_000_000);
}

#[test]
fn last_line_without_closing_tag_stays_open() {
    let table = interval_lyrics("[00:01.00] first\n[00:02.00] last");
    assert_eq!(table, vec![line(1_000_000, 2_000_000, "first"), line(2_000_000, u64::MAX, "last")]);
}

#[test]
fn empty_and_malformed_input_give_no_lines() {
    assert!(interval_lyrics("").is_empty());
    assert!(interval_lyrics("no tags here\n[ar:Someone]\n[1:2.3] short").is_empty());
}

#[test]
fn other_lines_are_skipped_and_crlf_is_tolerated() {
    let text = "[ar:Someone]\r\n[00:01.00]  spaced  text\r\n[00:02.00]tight\r\n[00:03.00] end\r\n[00:04.00]\r\n";
    let table = interval_lyrics(text);
    assert_eq!(
        table,
        vec![line(1_000_000, 3_000_000, "spaced  text\r"), line(3_000_000, 4_000_000, "end\r")]
    );
}

#[test]
fn unicode_text_is_kept() {
    let table = interval_lyrics("[00:00.50] café ♪\n[00:01.00]");
    assert_eq!(table, vec![line(500_000, 1_000_000, "café ♪")]);
}

#[test]
fn every_tag_of_a_bare_first_line_gives_a_lead_in() {
    let text = "[00:01.00][00:02.00]\n[00:02.00] sung\n[00:04.00] more\n[00:05.00]";
    let table = interval_lyrics(text);
    assert_eq!(
        table,
        vec![
            line(0, 1_000_000, ""),
            line(0, 2_000_000, ""),
            line(2_000_000, 4_000_000, "sung"),
            line(4_000_000, 5_000_000, "more"),
        ]
    );
    let spaced = interval_lyrics("[00:01.00] [00:03.00] \n[00:03.00] x\n[00:04.00]");
    // The first line is also a timed line whose text is the second tag.
    assert_eq!(
        spaced,
        vec![
            line(0, 1_000_000, ""),
            line(0, 3_000_000, ""),
            line(1_000_000, 3_000_000, "[00:03.00] "),
            line(3_000_000, 4_000_000, "x"),
        ]
    );
}

#[test]
fn timed_first_line_gives_no_lead_in() {
    let table = interval_lyrics("[00:01.00] first\n[00:02.00]");
    assert_eq!(table, vec![line(1_000_000, 2_000_000, "first")]);
    let mixed = interval_lyrics("[00:01.00]x[00:02.00]\n[00:02.00] a\n[00:03.00]");
    assert_eq!(mixed, vec![line(2_000_000, 3_000_000, "a")]);
}
