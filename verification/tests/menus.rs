use rtop::draw::box_drawing::{create_box, BoxConfig};
use rtop::menu::msg_box::{self, MsgBoxStyle};
use rtop::menu::priority_menu;

fn frame(x: usize, y: usize, width: usize, height: usize, title: &str) -> String {
    create_box(&BoxConfig {
        x,
        y,
        width,
        height,
        line_color: "",
        fill: true,
        title,
        title2: "",
        num: 0,
        rounded: true,
        hi_color: "",
        title_color: "",
    })
}

#[test]
fn message_box_is_centred_with_ok_button() {
    let out = msg_box::draw(80, 24, "note", "saved", MsgBoxStyle::OkOnly);
    let expected = format!("{}\x1b[11;17Hsaved\x1b[14;38H[OK]", frame(15, 8, 50, 8, "note"));
    assert_eq!(out, expected);
}

#[test]
fn message_box_yes_no_and_long_message() {
    let long = "x".repeat(60);
    let out = msg_box::draw(80, 24, "quit?", &long, MsgBoxStyle::YesNo);
    let expected = format!(
        "{}\x1b[11;17H{}\x1b[14;32H[Y] Yes  [N] No",
        frame(15, 8, 50, 8, "quit?"),
        "x".repeat(46)
    );
    assert_eq!(out, expected);
}

#[test]
fn message_box_shrinks_to_small_terminals() {
    let out = msg_box::draw(20, 5, "t", "hello world, long", MsgBoxStyle::OkOnly);
    let expected = format!("{}\x1b[3;2Hhello world, lon\x1b[3;8H[OK]", frame(0, 0, 20, 5, "t"));
    assert_eq!(out, expected);
}

#[test]
fn priority_menu_marks_selected_class() {
    let out = priority_menu::draw(80, 24, 1);
    let expected = format!(
        "{}\x1b[9;27H  Idle\x1b[10;27H> Below Normal\x1b[11;27H  Normal\x1b[12;27H  Above Normal\x1b[13;27H  High\x1b[14;27H  Realtime",
        frame(25, 7, 30, 10, "priority")
    );
    assert_eq!(out, expected);
}

#[test]
fn priority_menu_out_of_range_selection_marks_nothing() {
    let out = priority_menu::draw(80, 24, 9);
    assert!(!out.contains("> "));
    assert!(out.contains("\x1b[14;27H  Realtime"));
}
