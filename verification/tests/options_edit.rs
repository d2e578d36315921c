use rtop::config::{ConfigKey, IntKey, StringKey};
use rtop::overlay::options::edit::{EditKind, OptionEditState};

fn state(buffer: &str) -> OptionEditState {
    OptionEditState::new(
        ConfigKey::String(StringKey::ClockFormat),
        EditKind::Text,
        buffer.to_string(),
    )
}

fn int_state(buffer: &str) -> OptionEditState {
    OptionEditState::new(
        ConfigKey::Int(IntKey::UpdateMs),
        EditKind::Integer,
        buffer.to_string(),
    )
}

#[test]
fn edit_new_places_cursor_at_end() {
    let s = state("hello");
    assert_eq!(s.cursor(), 5);
}

#[test]
fn edit_insert_char_at_end_appends() {
    let mut s = state("ab");
    s.insert_char('c');
    assert_eq!(s.buffer(), "abc");
    assert_eq!(s.cursor(), 3);
}

#[test]
fn edit_insert_char_at_middle_keeps_cursor_after_insertion() {
    let mut s = state("ac");
    s.set_cursor_for_test(1);
    s.insert_char('b');
    assert_eq!(s.buffer(), "abc");
    assert_eq!(s.cursor(), 2);
}

#[test]
fn edit_insert_char_supports_multibyte_utf8() {
    // Cursor is a char index; a 4-byte char inserted at char 1
    // must land at byte 1 (after 'a') without splitting bytes.
    let mut s = state("ac");
    s.set_cursor_for_test(1);
    s.insert_char('🦀');
    assert_eq!(s.buffer(), "a🦀c");
    assert_eq!(s.cursor(), 2);
}

#[test]
fn edit_backspace_removes_char_before_cursor() {
    let mut s = state("abc");
    s.backspace();
    assert_eq!(s.buffer(), "ab");
    assert_eq!(s.cursor(), 2);
}

#[test]
fn edit_backspace_at_start_is_noop() {
    let mut s = state("abc");
    s.set_cursor_for_test(0);
    s.backspace();
    assert_eq!(s.buffer(), "abc");
    assert_eq!(s.cursor(), 0);
}

#[test]
fn edit_backspace_after_multibyte_char_removes_full_codepoint() {
    let mut s = state("a🦀c");
    s.set_cursor_for_test(2); // after the crab
    s.backspace();
    assert_eq!(s.buffer(), "ac");
    assert_eq!(s.cursor(), 1);
}

#[test]
fn edit_delete_removes_char_at_cursor() {
    let mut s = state("abc");
    s.set_cursor_for_test(1);
    s.delete();
    assert_eq!(s.buffer(), "ac");
    assert_eq!(s.cursor(), 1);
}

#[test]
fn edit_delete_at_end_is_noop() {
    let mut s = state("abc");
    s.delete();
    assert_eq!(s.buffer(), "abc");
    assert_eq!(s.cursor(), 3);
}

#[test]
fn edit_delete_removes_full_multibyte_char() {
    let mut s = state("a🦀c");
    s.set_cursor_for_test(1); // on the crab
    s.delete();
    assert_eq!(s.buffer(), "ac");
    assert_eq!(s.cursor(), 1);
}

#[test]
fn edit_move_left_clamps_at_zero() {
    let mut s = state("ab");
    s.set_cursor_for_test(0);
    s.move_left();
    assert_eq!(s.cursor(), 0);
}

#[test]
fn edit_move_right_clamps_at_end() {
    let mut s = state("ab");
    s.move_right();
    assert_eq!(s.cursor(), 2);
}

#[test]
fn edit_move_home_and_end() {
    let mut s = state("hello");
    s.move_home();
    assert_eq!(s.cursor(), 0);
    s.move_end();
    assert_eq!(s.cursor(), 5);
}

#[test]
fn edit_editing_clears_error() {
    let mut s = state("a");
    s.set_error(Some("bad"));
    s.insert_char('b');
    assert!(s.error().is_none());
     let mut s = state("ab");
    s.set_error(Some("bad"));
    s.backspace();
    assert!(s.error().is_none());
     let mut s = state("ab");
    s.set_cursor_for_test(0);
    s.set_error(Some("bad"));
    s.delete();
    assert!(s.error().is_none());
}

#[test]
fn edit_integer_kind_rejects_non_digits_and_minus() {
    let s = int_state("");
    assert!(s.accepts_char('0'));
    assert!(s.accepts_char('9'));
    assert!(!s.accepts_char('-'));
    assert!(!s.accepts_char('a'));
    assert!(!s.accepts_char(' '));
}

#[test]
fn edit_text_kind_accepts_anything() {
    let s = state("");
    assert!(s.accepts_char('a'));
    assert!(s.accepts_char(' '));
    assert!(s.accepts_char('!'));
    assert!(s.accepts_char('🦀'));
}

#[test]
fn edit_buffer_preserves_spaces_for_widget_lists() {
    // Regression: Key::Space is its own enum variant (not
    // Key::Char(' ')); the handler dispatch must route both
    // through insert_char so widget lists ("cpu mem") and
    // disk filters ("C: !D:") can be typed.
    let mut s = state("");
    s.insert_char('c');
    s.insert_char('p');
    s.insert_char('u');
    s.insert_char(' ');
    s.insert_char('m');
    s.insert_char('e');
    s.insert_char('m');
    assert_eq!(s.buffer(), "cpu mem");
    assert_eq!(s.cursor(), 7);
}
