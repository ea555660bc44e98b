use gesture_binding::decimal::{parse_finger_count, push_decimal};
use gesture_binding::text::{chars_of, segment_end, spells};

#[test]
fn chars_of_gives_each_character() {
    assert_eq!(chars_of(""), Vec::<char>::new());
    assert_eq!(chars_of("3+Up"), vec!['3', '+', 'U', 'p']);
    assert_eq!(chars_of("\u{e9}+\u{1f600}"), vec!['\u{e9}', '+', '\u{1f600}']);
}

#[test]
fn segment_end_stops_at_the_first_plus() {
    let text = chars_of("12+Left+x");
    assert_eq!(segment_end(&text, 0), 2);
    assert_eq!(segment_end(&text, 2), 2);
    assert_eq!(segment_end(&text, 3), 7);
    assert_eq!(segment_end(&text, 8), 9);
    assert_eq!(segment_end(&text, 9), 9);
    assert_eq!(segment_end(&chars_of(""), 0), 0);
    assert_eq!(segment_end(&chars_of("abc"), 0), 3);
}

#[test]
fn spells_compares_a_range_with_a_word() {
    let text = chars_of("3+Left");
    assert!(spells(&text, 2, 6, "Left"));
    assert!(!spells(&text, 2, 5, "Left"));
    assert!(!spells(&text, 2, 6, "Lift"));
    assert!(!spells(&text, 2, 6, "Leftt"));
    assert!(spells(&text, 1, 1, ""));
    assert!(spells(&text, 0, 6, "3+Left"));
}

#[test]
fn push_decimal_writes_the_shortest_notation() {
    for (n, expected) in [
        (0u32, "0"),
        (7, "7"),
        (9, "9"),
        (10, "10"),
        (42, "42"),
        (100, "100"),
        (1009, "1009"),
        (4294967295, "4294967295"),
    ] {
        let mut out = String::new();
        push_decimal(&mut out, n);
        assert_eq!(out, expected);
    }
    let mut out = String::from("n=");
    push_decimal(&mut out, 305);
    assert_eq!(out, "n=305");
}

#[test]
fn parse_finger_count_reads_digits_only() {
    let text = chars_of("a120+");
    assert_eq!(parse_finger_count(&text, 1, 4), Some(120));
    assert_eq!(parse_finger_count(&text, 1, 2), Some(1));
    assert_eq!(parse_finger_count(&text, 3, 4), Some(0));
    assert_eq!(parse_finger_count(&text, 0, 4), None);
    assert_eq!(parse_finger_count(&text, 1, 5), None);
    assert_eq!(parse_finger_count(&text, 2, 2), None);
}

#[test]
fn parse_finger_count_stops_at_the_largest_count() {
    let most = chars_of("4294967295");
    assert_eq!(parse_finger_count(&most, 0, most.len()), Some(u32::MAX));
    let more = chars_of("4294967296");
    assert_eq!(parse_finger_count(&more, 0, more.len()), None);
    let ten_times = chars_of("42949672950");
    assert_eq!(parse_finger_count(&ten_times, 0, ten_times.len()), None);
    let padded = chars_of("0000000000004294967295");
    assert_eq!(parse_finger_count(&padded, 0, padded.len()), Some(u32::MAX));
}

#[test]
fn parse_finger_count_agrees_with_push_decimal() {
    for n in [0u32, 1, 9, 10, 19, 99, 100, 12345, 4294967294, 4294967295] {
        let mut out = String::new();
        push_decimal(&mut out, n);
        let text = chars_of(&out);
        assert_eq!(parse_finger_count(&text, 0, text.len()), Some(n));
    }
}
