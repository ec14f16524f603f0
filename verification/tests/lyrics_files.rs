use subtearium::lrc::{join_lines, line_is_synced, lines_are_synced, timestamp_tag};
use subtearium::text::{blank, contains_str, str_equal};
use subtearium::engine::format_log_line;

#[test]
fn synced_line_with_minutes_and_seconds() {
    assert!(line_is_synced("[01:23.45] Hello"));
}

#[test]
fn synced_line_colon_positions() {
    assert!(line_is_synced("[1:2"));
    assert!(line_is_synced("[12:34]"));
    assert!(line_is_synced("[123:4"));
    assert!(!line_is_synced("[1234:5"));
}

#[test]
fn unsynced_lines() {
    assert!(!line_is_synced("Just words"));
    assert!(!line_is_synced(""));
    assert!(!line_is_synced("[ar:Artist]"));
    assert!(!line_is_synced("[:12]"));
    assert!(!line_is_synced("["));
    assert!(!line_is_synced("[1"));
}

#[test]
fn synced_line_ignores_surrounding_white_space() {
    assert!(line_is_synced("   [00:01.00] x   "));
    assert!(line_is_synced("\t\u{3000}[00:01.00]"));
    assert!(line_is_synced("[00:01]\u{2003}\r"));
}

#[test]
fn synced_check_reads_bytes() {
    // After `[0`, a two-byte character puts the `:` at byte 4.
    assert!(line_is_synced("[0\u{e9}:"));
    // A three-byte character pushes it to byte 5.
    assert!(!line_is_synced("[0\u{20ac}:"));
}

#[test]
fn lyrics_synced_if_any_line_is() {
    let plain = vec!["Hello".to_string(), "World".to_string()];
    assert!(!lines_are_synced(&plain));
    let synced = vec!["[ti:Song]".to_string(), "[00:12.00]Hello".to_string()];
    assert!(lines_are_synced(&synced));
    assert!(!lines_are_synced(&Vec::new()));
}

#[test]
fn timestamp_tag_found() {
    let t = timestamp_tag("[01:23.45]abc").unwrap();
    assert_eq!(t.colon, 3);
    assert_eq!(t.close, 9);
    let line = "[01:23.45]abc";
    assert_eq!(&line[1..t.colon], "01");
    assert_eq!(&line[t.colon + 1..t.close], "23.45");
    assert_eq!(&line[t.close + 1..], "abc");
}

#[test]
fn timestamp_tag_absent() {
    assert!(timestamp_tag("[01:02:03]x").is_none());
    assert!(timestamp_tag("[0123]x").is_none());
    assert!(timestamp_tag("[01:23").is_none());
    assert!(timestamp_tag("x[01:23]").is_none());
    assert!(timestamp_tag("").is_none());
    assert!(timestamp_tag("[]").is_none());
}

#[test]
fn timestamp_tag_first_close_bracket() {
    let t = timestamp_tag("[1:2]]x").unwrap();
    assert_eq!((t.colon, t.close), (2, 4));
    // A colon after the first `]` does not count.
    let t = timestamp_tag("[1:2]:x").unwrap();
    assert_eq!((t.colon, t.close), (2, 4));
    let t = timestamp_tag("[:]").unwrap();
    assert_eq!((t.colon, t.close), (1, 2));
}

#[test]
fn join_lines_ends_each_line() {
    let lines = vec!["a".to_string(), "".to_string(), "b c".to_string()];
    assert_eq!(join_lines(&lines), "a\n\nb c\n");
    assert_eq!(join_lines(&Vec::new()), "");
}

#[test]
fn blank_strings() {
    assert!(blank(""));
    assert!(blank(" \t\n"));
    assert!(blank("\u{a0}\u{2003}"));
    assert!(!blank(" a "));
}

#[test]
fn substring_search() {
    assert!(contains_str("/music/abba/song.mp3", "abba"));
    assert!(contains_str("abc", ""));
    assert!(!contains_str("abc", "abcd"));
    assert!(!contains_str("abc", "ac"));
    assert!(contains_str("abc", "c"));
}

#[test]
fn string_equality() {
    assert!(str_equal("flac", "flac"));
    assert!(!str_equal("flac", "fla"));
    assert!(!str_equal("Flac", "flac"));
}

#[test]
fn log_line_format() {
    assert_eq!(format_log_line(9, 5, 0, "hello"), "09:05:00 UTC | hello");
    assert_eq!(format_log_line(23, 59, 59, ""), "23:59:59 UTC | ");
    assert_eq!(format_log_line(100, 10, 7, "x"), "100:10:07 UTC | x");
}
