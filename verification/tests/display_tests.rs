use yapper::display::{
    byte_index_for_char, char_count, char_index_for_width, truncate_width, width,
    width_prefix_chars,
};

#[test]
fn test_char_indices_and_widths_handle_wide_text() {
    let text = "a界é";

    assert_eq!(char_count(text), 3);
    assert_eq!(byte_index_for_char(text, 2), "a界".len());
    assert_eq!(width_prefix_chars(text, 2), 3);
    assert_eq!(char_index_for_width(text, 2), 1);
    assert_eq!(char_index_for_width(text, 3), 2);
}

#[test]
fn test_truncate_width_preserves_boundaries() {
    assert_eq!(truncate_width("abcdef", 4), "abc…");
    assert_eq!(truncate_width("a界bc", 4), "a界…");
    assert_eq!(truncate_width("界abc", 2), "…");
    assert_eq!(truncate_width("abc", 0), "");
}

#[test]
fn byte_index_past_the_end_is_the_length() {
    assert_eq!(byte_index_for_char("a界", 5), "a界".len());
    assert_eq!(byte_index_for_char("", 0), 0);
}

#[test]
fn widths_of_plain_and_wide_text() {
    assert_eq!(width("hello"), 5);
    assert_eq!(width("界界"), 4);
    assert_eq!(truncate_width("abc", 3), "abc");
}
