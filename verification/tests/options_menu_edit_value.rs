use rtop::overlay::options::render::render_edit_value;
use rtop::term;


fn visible_char_count(s: &str) -> usize {
    // Strip ANSI underline markers; count remaining chars.
    s.replace(term::UNDERLINE, "")
        .replace(term::UNDERLINE_OFF, "")
        .chars()
        .count()
}

#[test]
fn options_menu_render_edit_value_pads_short_buffer_to_full_width() {
    let out = render_edit_value("ab", 2, 25);
    assert_eq!(visible_char_count(&out), 25);
}

#[test]
fn options_menu_render_edit_value_marks_cursor_with_underline() {
    let out = render_edit_value("ab", 1, 25);
    // Cursor on 'b' → underline wraps it.
    let expected = format!("{}b{}", term::UNDERLINE, term::UNDERLINE_OFF);
    assert!(out.contains(&expected));
}

#[test]
fn options_menu_render_edit_value_underlines_blank_when_cursor_at_end() {
    let out = render_edit_value("ab", 2, 25);
    let expected = format!("{} {}", term::UNDERLINE, term::UNDERLINE_OFF);
    assert!(out.contains(&expected));
}

#[test]
fn options_menu_render_edit_value_handles_empty_buffer() {
    let out = render_edit_value("", 0, 25);
    // Cursor at column 0 wraps a space.
    let expected = format!("{} {}", term::UNDERLINE, term::UNDERLINE_OFF);
    assert!(out.contains(&expected));
    assert_eq!(visible_char_count(&out), 25);
}

#[test]
fn options_menu_render_edit_value_scrolls_when_buffer_exceeds_width() {
    let buffer: String = "0123456789012345678901234567890".to_string(); // 31 chars
    let out = render_edit_value(&buffer, 31, 25);
    // Cursor at end (pos 31). With width=25, scroll = 31+1-25 = 7.
    // Visible window starts at char 7, so the rendered prefix is
    // "78901234..." and the underline marks the trailing space
    // (cursor sits past the last char).
    assert!(out.contains("78901"));
    assert_eq!(visible_char_count(&out), 25);
}

#[test]
fn options_menu_render_edit_value_supports_multibyte_chars() {
    // Crab is 1 char, 4 bytes. The renderer is char-indexed.
    let out = render_edit_value("a🦀b", 2, 25);
    // Cursor on 'b' → underline wraps 'b'.
    let expected = format!("{}b{}", term::UNDERLINE, term::UNDERLINE_OFF);
    assert!(out.contains(&expected));
    // Crab is preserved verbatim.
    assert!(out.contains('🦀'));
    assert_eq!(visible_char_count(&out), 25);
}

#[test]
fn edit_window_is_width_cells_plus_one_marker() {
    let out = render_edit_value("hello", 3, 8);
    assert_eq!(out.chars().count(), 8 + term::UNDERLINE.len() + term::UNDERLINE_OFF.len());
    assert_eq!(out, format!("hel{}l{}o   ", term::UNDERLINE, term::UNDERLINE_OFF));
}

#[test]
fn edit_window_hides_cursor_just_past_a_full_window() {
    let out = render_edit_value("ab", 2, 2);
    assert_eq!(out, "ab");
}
