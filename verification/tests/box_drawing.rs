use rtop::draw::box_drawing::{create_box, keybind_inset, section_divider, symbols, title_inset, title_syms, BoxConfig};

fn cfg(x: usize, y: usize, w: usize, h: usize) -> BoxConfig<'static> {
    BoxConfig {
        x,
        y,
        width: w,
        height: h,
        line_color: "",
        fill: false,
        title: "",
        title2: "",
        num: 0,
        rounded: false,
        hi_color: "",
        title_color: "",
    }
}

#[test]
fn create_box_minimal() {
    let b = create_box(&cfg(0, 0, 4, 3));
    assert!(b.contains(symbols::LEFT_UP));
    assert!(b.contains(symbols::RIGHT_DOWN));
    assert!(b.contains(symbols::H_LINE));
    assert!(b.contains(symbols::V_LINE));
}

#[test]
fn create_box_with_title() {
    let b = create_box(&BoxConfig {
        title: "cpu",
        ..cfg(0, 0, 20, 5)
    });
    assert!(b.contains("cpu"));
}

#[test]
fn create_box_rounded_corners() {
    let b = create_box(&BoxConfig {
        rounded: true,
        ..cfg(0, 0, 10, 5)
    });
    assert!(b.contains(symbols::ROUND_LEFT_UP));
    assert!(b.contains(symbols::ROUND_RIGHT_DOWN));
}

#[test]
fn create_box_with_number() {
    let b = create_box(&BoxConfig {
        title: "test",
        num: 1,
        ..cfg(0, 0, 20, 3)
    });
    assert!(b.contains("¹"));
    assert!(b.contains("test"));
}

#[test]
fn create_box_fill() {
    let b = create_box(&BoxConfig {
        fill: true,
        ..cfg(0, 0, 6, 4)
    });
    // Fill should contain spaces between vertical lines
    assert!(b.contains("    ")); // 4 spaces (width-2)
}

#[test]
fn create_box_too_small_returns_empty() {
    assert_eq!(create_box(&cfg(0, 0, 1, 1)), "");
}

#[test]
fn title_inset_top_format() {
    let s = title_inset("cpu", "\x1b[32m", "\x1b[37m", false);
    assert!(s.contains("cpu"));
    assert!(s.contains(title_syms::TITLE_LEFT));
    assert!(s.contains(title_syms::TITLE_RIGHT));
}

#[test]
fn title_inset_bottom_format() {
    let s = title_inset("mem", "\x1b[32m", "\x1b[37m", true);
    assert!(s.contains("mem"));
    assert!(s.contains(title_syms::TITLE_LEFT_DOWN));
    assert!(s.contains(title_syms::TITLE_RIGHT_DOWN));
}

#[test]
fn keybind_inset_splits_first_char() {
    let s = keybind_inset("menu", "\x1b[32m", "\x1b[31m", "\x1b[37m", true);
    assert!(s.contains("m"));
    assert!(s.contains("enu"));
    assert!(s.contains(title_syms::TITLE_LEFT_DOWN));
    assert!(s.contains(title_syms::TITLE_RIGHT_DOWN));
}

#[test]
fn keybind_inset_empty_text() {
    let s = keybind_inset("", "\x1b[32m", "\x1b[31m", "\x1b[37m", false);
    assert!(s.contains(title_syms::TITLE_LEFT));
    assert!(s.contains(title_syms::TITLE_RIGHT));
}

#[test]
fn section_divider_format() {
    let s = section_divider("Global", 56, "\x1b[34m", "\x1b[37m");
    assert!(s.contains("Global"));
    assert!(s.contains(symbols::DIV_LEFT));
    assert!(s.contains(symbols::DIV_RIGHT));
}

#[test]
fn section_divider_has_dashes() {
    let s = section_divider("Net", 40, "\x1b[34m", "\x1b[37m");
    assert!(s.contains(symbols::H_LINE));
    assert!(s.contains(title_syms::TITLE_LEFT));
    assert!(s.contains(title_syms::TITLE_RIGHT));
}
