use rtop::draw::buffer::AnsiBuffer;

#[test]
fn buffer_builds_positioned_colored_text() {
    let mut buf = AnsiBuffer::new();
    buf.mv(5, 10).color("\x1b[32m").text("hello");
    let s = buf.as_str();
    assert!(s.contains("\x1b[10;5H"));
    assert!(s.contains("\x1b[32m"));
    assert!(s.contains("hello"));
}

#[test]
fn finish_appends_reset() {
    let buf = AnsiBuffer::new();
    let s = buf.finish();
    assert!(s.ends_with("\x1b[0m"));
}

#[test]
fn default_creates_empty() {
    let buf = AnsiBuffer::default();
    assert!(buf.as_str().is_empty());
}
