use relativity::char_indexing::CharIndexing;

#[test]
fn ascii_char_indices_match_byte_indices() {
    let text = "hello";
    assert_eq!(text.char_to_byte_index(0), Some(0));
    assert_eq!(text.char_to_byte_index(4), Some(4));
    assert_eq!(text.char_to_byte_index(5), None);
}

#[test]
fn open_end_accepts_the_position_past_the_last_char() {
    let text = "hello";
    assert_eq!(text.char_to_byte_index_open_end(5), Some(5));
    assert_eq!(text.char_to_byte_index_open_end(6), None);
}

#[test]
fn multibyte_chars_advance_byte_positions() {
    // 1-, 2-, 3- and 4-byte characters in a row.
    let text = "a\u{e9}\u{20ac}\u{1f642}";
    assert_eq!(text.char_to_byte_index(0), Some(0));
    assert_eq!(text.char_to_byte_index(1), Some(1));
    assert_eq!(text.char_to_byte_index(2), Some(3));
    assert_eq!(text.char_to_byte_index(3), Some(6));
    assert_eq!(text.char_to_byte_index(4), None);
    assert_eq!(text.char_to_byte_index_open_end(4), Some(10));
}

#[test]
fn empty_text_has_only_the_open_end() {
    let text = "";
    assert_eq!(text.char_to_byte_index(0), None);
    assert_eq!(text.char_to_byte_index_open_end(0), Some(0));
}

#[test]
fn clamped_range_on_empty_text_is_empty() {
    let text = "";
    assert_eq!(text.char_to_byte_range_clamped(0..0), 0..0);
    assert_eq!(text.char_to_byte_range_clamped(3..7), 0..0);
}

#[test]
fn ranges_translate_both_endpoints() {
    let text = "a\u{e9}\u{20ac}\u{1f642}";
    assert_eq!(text.char_to_byte_range(1..3), Some(1..6));
    assert_eq!(text.char_to_byte_range(0..4), None);
}

#[test]
fn clamped_ranges_fall_back_to_the_text_bounds() {
    let text = "a\u{e9}\u{20ac}\u{1f642}";
    assert_eq!(text.char_to_byte_range_clamped(1..3), 1..6);
    assert_eq!(text.char_to_byte_range_clamped(2..9), 3..10);
    assert_eq!(text.char_to_byte_range_clamped(9..9), 0..10);
    assert_eq!(text.char_to_byte_range_clamped(0..4), 0..10);
}
