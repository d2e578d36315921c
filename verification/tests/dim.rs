use rtop::draw::dim::{dim_bg_escape, dim_truecolor, scale_channel};

fn dim(c: u8) -> u8 {
    scale_channel(c)
}

#[test]
fn scales_truecolor_foreground() {
    let input = "\x1b[38;2;200;100;50m";
    let expected = format!("\x1b[38;2;{};{};{}m", dim(200), dim(100), dim(50));
    assert_eq!(dim_truecolor(input), expected);
}

#[test]
fn scales_truecolor_background() {
    let input = "\x1b[48;2;255;255;255m";
    let expected = format!("\x1b[48;2;{};{};{}m", dim(255), dim(255), dim(255));
    assert_eq!(dim_truecolor(input), expected);
}

#[test]
fn leaves_cursor_move_unchanged() {
    let input = "\x1b[10;5H";
    assert_eq!(dim_truecolor(input), input);
}

#[test]
fn leaves_clear_screen_unchanged() {
    let input = "\x1b[2J";
    assert_eq!(dim_truecolor(input), input);
}

#[test]
fn leaves_bare_reset_unchanged() {
    // `\x1b[0m` parses as SGR with one parameter `0`. No 38/48
    // subsequence, so the rewrite is a no-op (output is
    // re-serialised but byte-identical).
    let input = "\x1b[0m";
    assert_eq!(dim_truecolor(input), input);
}

#[test]
fn leaves_bold_and_default_bg_unchanged() {
    assert_eq!(dim_truecolor("\x1b[1m"), "\x1b[1m");
    assert_eq!(dim_truecolor("\x1b[49m"), "\x1b[49m");
}

#[test]
fn empty_input_passes_through() {
    assert_eq!(dim_truecolor(""), "");
}

#[test]
fn no_escape_text_passes_through_verbatim() {
    let input = "hello world — ┌─┐ unicode";
    assert_eq!(dim_truecolor(input), input);
}

#[test]
fn back_to_back_escapes_with_no_text_between() {
    let input = "\x1b[38;2;100;100;100m\x1b[0m";
    let expected = format!("\x1b[38;2;{};{};{}m\x1b[0m", dim(100), dim(100), dim(100),);
    assert_eq!(dim_truecolor(input), expected);
}

#[test]
fn chained_sgr_scales_both_fg_and_bg_in_one_pass() {
    // A single SGR with both fg and bg — both triples must be
    // scaled in one rewrite.
    let input = "\x1b[38;2;100;100;100;48;2;200;200;200m";
    let expected = format!(
        "\x1b[38;2;{};{};{};48;2;{};{};{}m",
        dim(100),
        dim(100),
        dim(100),
        dim(200),
        dim(200),
        dim(200),
    );
    assert_eq!(dim_truecolor(input), expected);
}

#[test]
fn text_around_escape_is_preserved_with_utf8() {
    // Box-drawing characters are 3-byte UTF-8 sequences; the
    // text-flush path must not split them.
    let input = "┌\x1b[38;2;100;100;100m─\x1b[0m┐";
    let expected = format!(
        "┌\x1b[38;2;{};{};{}m─\x1b[0m┐",
        dim(100),
        dim(100),
        dim(100),
    );
    assert_eq!(dim_truecolor(input), expected);
}

#[test]
fn scale_channel_known_values() {
    assert_eq!(scale_channel(0), 0);
    assert_eq!(scale_channel(100), 35);
    // 255 * 35 / 100 = 8925 / 100 = 89.
    assert_eq!(scale_channel(255), 89);
}

#[test]
fn malformed_csi_does_not_panic() {
    // Truncated CSI at end of input: the ESC is emitted and the
    // truncated bytes pass through.
    let input = "text\x1b[38;2;1";
    let out = dim_truecolor(input);
    // Must contain the original text and not panic. The exact
    // shape of the trailing bytes is the defensive fallback.
    assert!(out.starts_with("text"));
}

#[test]
fn empty_sgr_passes_through() {
    // `\x1b[m` is shorthand for reset. No params, no subsequence
    // to scale; survives the rewrite as-is.
    let input = "\x1b[m";
    assert_eq!(dim_truecolor(input), input);
}

#[test]
fn indexed_color_passes_through() {
    // 256-color indexed (`38;5;<n>`) is not truecolor; must not
    // be rewritten.
    let input = "\x1b[38;5;200m";
    assert_eq!(dim_truecolor(input), input);
}

#[test]
fn dim_bg_escape_matches_dim_truecolor_for_main_bg() {
    // The "blends with dim" contract: emitting `dim_bg_escape(rgb)`
    // produces the same RGB triple the dim transform would
    // produce when rewriting a freshly-painted `48;2;R;G;B`
    // cell. This invariant is what lets overlays paint cells
    // whose bg is visually indistinguishable from the dimmed
    // surround.
    let rgb = [200u8, 100, 50];
    let raw_bg = format!("\x1b[48;2;{};{};{}m", rgb[0], rgb[1], rgb[2]);
    assert_eq!(dim_bg_escape(rgb), dim_truecolor(&raw_bg));
}

#[test]
fn dim_bg_escape_uses_scaled_channels() {
    let escape = dim_bg_escape([100, 200, 255]);
    let expected = format!(
        "\x1b[48;2;{};{};{}m",
        scale_channel(100),
        scale_channel(200),
        scale_channel(255),
    );
    assert_eq!(escape, expected);
}
