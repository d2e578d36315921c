use rtop::draw::text_edit::TextEdit;

#[test]
fn command_left_moves_cursor() {
    let mut te = TextEdit::new("hello".into(), false);
    te.command("left");
    assert_eq!(te.upos(), 4);
}

#[test]
fn command_right_at_end_stays() {
    let mut te = TextEdit::new("hi".into(), false);
    te.command("right");
    assert_eq!(te.upos(), 2); // Already at end
}

#[test]
fn command_home_goes_to_start() {
    let mut te = TextEdit::new("hello".into(), false);
    te.command("home");
    assert_eq!(te.upos(), 0);
}

#[test]
fn command_end_goes_to_end() {
    let mut te = TextEdit::new("hello".into(), false);
    te.command("home");
    te.command("end");
    assert_eq!(te.upos(), 5);
}

#[test]
fn command_backspace_deletes() {
    let mut te = TextEdit::new("hello".into(), false);
    assert!(te.command("backspace"));
    assert_eq!(te.text, "hell");
}

#[test]
fn command_delete_removes_at_cursor() {
    let mut te = TextEdit::new("hello".into(), false);
    te.command("home");
    assert!(te.command("delete"));
    assert_eq!(te.text, "ello");
}

#[test]
fn command_char_inserts() {
    let mut te = TextEdit::new("hllo".into(), false);
    te.command("home");
    te.command("right");
    assert!(te.command("e"));
    assert_eq!(te.text, "hello");
}

#[test]
fn command_numeric_rejects_non_digits() {
    let mut te = TextEdit::new("123".into(), true);
    assert!(!te.command("a"));
    assert_eq!(te.text, "123");
    assert!(te.command("4"));
    assert_eq!(te.text, "1234");
}

#[test]
fn render_shows_cursor_underline() {
    let te = TextEdit::new("hi".into(), false);
    let result = te.render(0);
    assert!(result.contains("\x1b[4m"));
}

#[test]
fn render_truncates_to_limit() {
    let te = TextEdit::new("hello world this is long".into(), false);
    let result = te.render(5);
    // Should contain at most 5 visible chars
    let visible: String = result
        .replace("\x1b[4m", "")
        .replace("\x1b[24m", "");
    assert!(visible.chars().count() <= 6); // 5 + maybe cursor space
}

#[test]
fn clear_resets() {
    let mut te = TextEdit::new("hello".into(), false);
    te.clear();
    assert_eq!(te.text, "");
    assert_eq!(te.upos(), 0);
}
