use london_pi_tube::string_utilities::{
    contains, first_two_words, insert_linebreaks_inplace, split_iso8601_timestamp,
};
use london_pi_tube::text::{Text, TEXT_CAPACITY};

fn text(s: &str) -> Text {
    Text::from_str(s).expect("the text fits")
}

fn wrap(s: &str, width: usize) -> String {
    let mut t = text(s);
    insert_linebreaks_inplace(&mut t, width);
    t.as_str().to_string()
}

#[test]
fn text_new_is_empty() {
    let t = Text::new();
    assert_eq!(t.as_str(), "");
    assert_eq!(t.len(), 0);
}

#[test]
fn text_from_str_keeps_the_bytes() {
    let t = text("Oxford Circus");
    assert_eq!(t.as_str(), "Oxford Circus");
    assert_eq!(t.len(), 13);
}

#[test]
fn text_from_str_takes_a_full_buffer() {
    let s = "x".repeat(TEXT_CAPACITY);
    let t = Text::from_str(&s).expect("exactly the capacity fits");
    assert_eq!(t.len(), TEXT_CAPACITY);
}

#[test]
fn text_from_str_refuses_what_is_too_long() {
    let s = "x".repeat(TEXT_CAPACITY + 1);
    assert!(Text::from_str(&s).is_none());
}

#[test]
fn text_push_str_appends() {
    let mut t = text("foo");
    assert!(t.push_str("bar"));
    assert_eq!(t.as_str(), "foobar");
}

#[test]
fn text_push_str_leaves_the_text_when_it_does_not_fit() {
    let mut t = text(&"a".repeat(126));
    assert!(!t.push_str("bcd"));
    assert_eq!(t.len(), 126);
    assert!(t.push_str("bc"));
    assert_eq!(t.len(), 128);
    assert!(!t.push_str("d"));
    assert!(t.push_str(""));
}

#[test]
fn text_len_counts_bytes() {
    let t = text("Zürich");
    assert_eq!(t.len(), 7);
}

#[test]
fn first_two_words_cuts_at_the_second_space() {
    assert_eq!(first_two_words("Cockfosters via Drayton Park"), "Cockfosters via");
}

#[test]
fn first_two_words_keeps_a_single_word() {
    assert_eq!(first_two_words("Edgware"), "Edgware");
}

#[test]
fn first_two_words_keeps_two_words() {
    assert_eq!(first_two_words("High Barnet"), "High Barnet");
}

#[test]
fn first_two_words_of_nothing() {
    assert_eq!(first_two_words(""), "");
}

#[test]
fn first_two_words_counts_every_space() {
    assert_eq!(first_two_words("a  b"), "a ");
    assert_eq!(first_two_words(" a b"), " a");
    assert_eq!(first_two_words("  "), " ");
}

#[test]
fn first_two_words_with_wide_characters() {
    assert_eq!(first_two_words("Köln Süd über Bonn"), "Köln Süd");
}

#[test]
fn split_timestamp_gives_date_and_time() {
    assert_eq!(
        split_iso8601_timestamp("2024-05-01T14:32:07.123Z"),
        ("2024-05-01", "14:32:07")
    );
}

#[test]
fn split_timestamp_without_fraction() {
    assert_eq!(split_iso8601_timestamp("2024-05-01T14:32:07"), ("2024-05-01", "14:32:07"));
}

#[test]
fn split_timestamp_without_time() {
    assert_eq!(split_iso8601_timestamp("2024-05-01"), ("2024-05-01", ""));
}

#[test]
fn split_timestamp_of_nothing() {
    assert_eq!(split_iso8601_timestamp(""), ("", ""));
}

#[test]
fn split_timestamp_with_the_point_first() {
    assert_eq!(split_iso8601_timestamp("1.5T7"), ("1.5", ""));
    assert_eq!(split_iso8601_timestamp(".T"), ("." , ""));
}

#[test]
fn split_timestamp_with_nothing_between() {
    assert_eq!(split_iso8601_timestamp("2024T.5"), ("2024", ""));
}

#[test]
fn contains_finds_a_part() {
    assert!(contains("Northbound - Platform 3", "Platform 3"));
    assert!(contains("Northbound - Platform 3", "Northbound"));
    assert!(contains("abc", "abc"));
    assert!(contains("abc", ""));
    assert!(contains("", ""));
}

#[test]
fn contains_misses_what_is_not_there() {
    assert!(!contains("Northbound - Platform 3", "Platform 4"));
    assert!(!contains("abc", "abcd"));
    assert!(!contains("", "a"));
    assert!(!contains("aab", "aba"));
}

#[test]
fn wrap_breaks_at_the_last_space_within_the_width() {
    assert_eq!(
        wrap("Current Location: Between Oxford Circus and Bond Street", 20),
        "Current Location:\nBetween Oxford\nCircus and Bond\nStreet"
    );
}

#[test]
fn wrap_never_breaks_inside_a_word_when_there_is_a_space() {
    let out = wrap("Current Location: Between Oxford Circus and Bond Street", 20);
    for line in out.split('\n') {
        assert!(line.len() <= 20);
        for word in line.split(' ') {
            assert!("Current Location: Between Oxford Circus and Bond Street"
                .split(' ')
                .any(|w| w == word));
        }
    }
    assert!(out.len() <= TEXT_CAPACITY);
}

#[test]
fn wrap_leaves_short_lines_alone() {
    assert_eq!(wrap("At Platform", 20), "At Platform");
    assert_eq!(wrap("", 20), "");
    assert_eq!(wrap("one\ntwo\nthree", 5), "one\ntwo\nthree");
    assert_eq!(wrap("exactly twenty bytes", 20), "exactly twenty bytes");
}

#[test]
fn wrap_forces_a_break_where_there_is_no_space() {
    assert_eq!(wrap("abcdefghij", 4), "abcd\nefgh\nij");
    assert_eq!(wrap("abcdefgh", 4), "abcd\nefgh");
}

#[test]
fn wrap_looks_for_spaces_before_the_width_only() {
    assert_eq!(wrap("abcd efgh", 4), "abcd\n\nefgh");
    assert_eq!(wrap("abc defgh", 4), "abc\ndefg\nh");
}

#[test]
fn wrap_respects_existing_breaks() {
    assert_eq!(wrap("ab\ncdefgh ij", 4), "ab\ncdef\ngh\nij");
}

#[test]
fn wrap_twice_changes_nothing_more() {
    for (input, width) in [
        ("Current Location: Between Oxford Circus and Bond Street", 20usize),
        ("abcdefghij", 4),
        ("abcd efgh", 4),
        ("a b c d e f g", 1),
        ("a b c d e f g", 0),
        ("word", 0),
        ("", 3),
    ] {
        let mut t = text(input);
        insert_linebreaks_inplace(&mut t, width);
        let once = t.as_str().to_string();
        insert_linebreaks_inplace(&mut t, width);
        assert_eq!(t.as_str(), once);
    }
}

#[test]
fn wrap_stops_when_the_buffer_is_full() {
    let input = "a".repeat(126);
    let out = wrap(&input, 10);
    let expected = format!("{}\n{}\n{}", "a".repeat(10), "a".repeat(10), "a".repeat(106));
    assert_eq!(out, expected);
    assert_eq!(out.len(), TEXT_CAPACITY);
}

#[test]
fn wrap_of_a_full_buffer_still_turns_spaces_into_breaks() {
    let input = format!("{} {}", "a".repeat(60), "b".repeat(67));
    assert_eq!(input.len(), TEXT_CAPACITY);
    let out = wrap(&input, 64);
    assert_eq!(out, format!("{}\n{}", "a".repeat(60), "b".repeat(67)));
}

#[test]
fn wrap_of_a_full_buffer_without_spaces_changes_nothing() {
    let input = "a".repeat(TEXT_CAPACITY);
    assert_eq!(wrap(&input, 10), input);
}

#[test]
fn wrap_with_width_zero_fills_the_buffer_with_breaks() {
    let out = wrap("ab", 0);
    assert_eq!(out.len(), TEXT_CAPACITY);
    assert_eq!(out, format!("{}ab", "\n".repeat(126)));
}

#[test]
fn wrap_does_not_cut_a_character_in_two() {
    assert_eq!(wrap("aéé", 2), "aéé");
    assert_eq!(wrap("éééé", 2), "é\né\né\né");
    assert_eq!(wrap("é é", 2), "é\n\né");
}
