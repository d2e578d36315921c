use rtop::overlay::options::render::{categories, highlight_hotkey, render_edit_value};
use rtop::term;


#[test]
fn every_category_has_unique_hotkey() {
    let mut seen: Vec<char> = Vec::new();
    for cat in categories() {
        assert!(
            !seen.contains(&cat.hotkey),
            "duplicate hotkey {:?} on category {:?}",
            cat.hotkey,
            cat.name,
        );
        seen.push(cat.hotkey);
    }
}

#[test]
fn every_category_hotkey_is_substring_of_name() {
    // Pin the mnemonic contract: a future rename that breaks
    // the visual highlight (no letter to colour) fails here.
    for cat in categories() {
        let lowered = cat.hotkey.to_ascii_lowercase();
        let found = cat.name.chars().any(|c| c.eq_ignore_ascii_case(&lowered));
        assert!(
            found,
            "hotkey {:?} is not a substring of name {:?}",
            cat.hotkey, cat.name,
        );
    }
}


#[test]
fn highlight_hotkey_emits_letter_in_hi_color() {
    // Pin the visual contract: the hotkey letter is wrapped
    // in `hi`, the surrounding name segments are wrapped in
    // `base`. Use distinguishable sentinel escapes so the
    // assertion is unambiguous.
    let out = highlight_hotkey("statusbar", 's', "<base>", "<hi>");
    assert_eq!(out, "<base><hi>s<base>tatusbar");
     // Letter mid-word.
    let out = highlight_hotkey("general", 'r', "<base>", "<hi>");
    assert_eq!(out, "<base>gene<hi>r<base>al");
     // Case-insensitive match.
    let out = highlight_hotkey("Status", 'S', "<base>", "<hi>");
    assert_eq!(out, "<base><hi>S<base>tatus");
}

#[test]
fn highlight_hotkey_falls_back_to_uncoloured_when_letter_missing() {
    // The substring invariant pins this never happens for
    // CATEGORIES, but the helper must still produce something
    // sane if invoked with an inconsistent (name, hotkey) pair.
    let out = highlight_hotkey("xyz", 'q', "<base>", "<hi>");
    assert_eq!(out, "<base>xyz");
}







fn count_visible_chars(s: &str) -> usize {
    // Strip ANSI underline markers; count remaining chars.
    s.replace(term::UNDERLINE, "")
        .replace(term::UNDERLINE_OFF, "")
        .chars()
        .count()
}

#[test]
fn render_render_edit_value_pads_short_buffer_to_full_width() {
    let out = render_edit_value("ab", 2, 25);
    assert_eq!(count_visible_chars(&out), 25);
}

#[test]
fn render_edit_value_marks_cursor_with_underline() {
    let out = render_edit_value("ab", 1, 25);
    let expected = format!("{}b{}", term::UNDERLINE, term::UNDERLINE_OFF);
    assert!(out.contains(&expected));
}

#[test]
fn render_edit_value_underlines_blank_when_cursor_at_end() {
    let out = render_edit_value("ab", 2, 25);
    let expected = format!("{} {}", term::UNDERLINE, term::UNDERLINE_OFF);
    assert!(out.contains(&expected));
}

#[test]
fn render_edit_value_handles_empty_buffer() {
    let out = render_edit_value("", 0, 25);
    let expected = format!("{} {}", term::UNDERLINE, term::UNDERLINE_OFF);
    assert!(out.contains(&expected));
    assert_eq!(count_visible_chars(&out), 25);
}

#[test]
fn render_edit_value_scrolls_when_buffer_exceeds_width() {
    let buffer: String = "0123456789012345678901234567890".to_string();
    let out = render_edit_value(&buffer, 31, 25);
    assert!(out.contains("78901"));
    assert_eq!(count_visible_chars(&out), 25);
}

#[test]
fn render_edit_value_supports_multibyte_chars() {
    let out = render_edit_value("a🦀b", 2, 25);
    let expected = format!("{}b{}", term::UNDERLINE, term::UNDERLINE_OFF);
    assert!(out.contains(&expected));
    assert!(out.contains('🦀'));
    assert_eq!(count_visible_chars(&out), 25);
}
