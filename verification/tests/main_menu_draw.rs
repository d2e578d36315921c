use rtop::menu::main_menu::{banner_origin, draw_with_selection};

fn colors(tag: &str) -> Vec<String> {
    (0..3).map(|i| format!("<{tag}{i}>")).collect()
}

#[test]
fn main_menu_draws_banner_then_items_with_selection() {
    let out = draw_with_selection(80, 24, 1, "BANNER", &colors("s"), &colors("n"));
    assert!(out.starts_with("BANNER"));
    assert!(out.ends_with("\x1b[0m"));
    // Options (thin) at rows 9..11, help (thick, selected) at 12..14, quit at 15..17.
    assert!(out.contains("\x1b[9;31H<n0>┌─┐┌─┐┌┬┐┬┌─┐┌┐┌┌─┐"));
    assert!(out.contains("\x1b[12;35H<s0>╦ ╦╔═╗╦  ╔═╗"));
    assert!(out.contains("\x1b[14;35H<s2>╩ ╩╚═╝╩═╝╩  "));
    assert!(out.contains("\x1b[15;35H<n0>┌─┐ ┬ ┬ ┬┌┬┐"));
    assert_eq!(out.matches("<s").count(), 3);
    assert_eq!(out.matches("<n").count(), 6);
}

#[test]
fn main_menu_banner_stays_below_row_one() {
    assert_eq!(banner_origin(80, 24), (22, 2));
    assert_eq!(banner_origin(20, 10), (0, 1));
    let out = draw_with_selection(20, 10, 0, "", &colors("s"), &colors("n"));
    assert!(out.starts_with("\x1b[8;1H<s0>╔═╗╔═╗╔╦╗╦╔═╗╔╗╔╔═╗"));
}
