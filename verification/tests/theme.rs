use rtop::theme::{generate_gradient, gradient_color, Theme};
use rtop::theme_keys as tc;
use rtop::themes::{rgb_to_fg_escape, GradientDef, PaletteColors, PaletteGradients, Rgb, ThemePalette};

fn palette_theme() -> Theme {
    let c = Rgb(0x44, 0x47, 0x5a);
    let g = GradientDef { start: Rgb(0xbd, 0x93, 0xf9), mid: Rgb(0x8b, 0xe9, 0xfd), end: Rgb(0x50, 0xfa, 0x7b) };
    let colors = PaletteColors {
        main_bg: Rgb(0x28, 0x2a, 0x36), main_fg: Rgb(0xf8, 0xf8, 0xf2), title: Rgb(0xf8, 0xf8, 0xf2),
        hi_fg: Rgb(0x62, 0x72, 0xa4), selected_bg: c, selected_fg: c, graph_text: c, meter_bg: c,
        proc_tree_fg: c, cpu_widget: c, mem_widget: c, net_widget: c, proc_widget: c, gpu_widget: c,
        disk_widget: c, help_box: c, options_box: c, followed_bg: c, followed_fg: c, dead_proc_fg: c,
        statusbar_bg: c, statusbar_fg: c, statusbar_hi: c, statusbar_sep: c, data_label_fg: c,
    };
    let gradients = PaletteGradients {
        cpu_upper: g, cpu_lower: g, temp: g, free: g, cached: g, available: g, used: g, download: g,
        upload: g, process: g, gpu: g, gpu_clock: g, gpu_power: g, gpu_vram: g, disk_read: g,
        disk_write: g, disk_busy: g,
    };
    Theme::from_palette(&ThemePalette { colors, gradients })
}

#[test]
fn gradient_start_only_fills_all_101() {
    let grad = generate_gradient(Rgb(255, 0, 0), None, None);
    assert_eq!(grad.len(), 101);
    assert_eq!(grad[0], grad[50]);
    assert_eq!(grad[0], grad[100]);
}

#[test]
fn gradient_start_end_linear_interpolation() {
    let grad = generate_gradient(Rgb(0, 0, 0), None, Some(Rgb(255, 255, 255)));
    assert_eq!(grad.len(), 101);
    assert_eq!(grad[0], rgb_to_fg_escape(0, 0, 0));
    assert_eq!(grad[100], rgb_to_fg_escape(255, 255, 255));
}

#[test]
fn gradient_start_mid_end_two_segment() {
    let grad = generate_gradient(Rgb(0, 0, 0), Some(Rgb(128, 128, 128)), Some(Rgb(255, 255, 255)));
    assert_eq!(grad.len(), 101);
    assert_eq!(grad[0], rgb_to_fg_escape(0, 0, 0));
    assert_eq!(grad[50], rgb_to_fg_escape(128, 128, 128));
    assert_eq!(grad[100], rgb_to_fg_escape(255, 255, 255));
}

#[test]
fn gradient_101_elements_always() {
    let g1 = generate_gradient(Rgb(100, 100, 100), None, None);
    let g2 = generate_gradient(Rgb(0, 0, 0), None, Some(Rgb(255, 255, 255)));
    let g3 = generate_gradient(Rgb(0, 0, 0), Some(Rgb(128, 0, 0)), Some(Rgb(255, 0, 0)));
    assert_eq!(g1.len(), 101);
    assert_eq!(g2.len(), 101);
    assert_eq!(g3.len(), 101);
}

#[test]
fn gradient_values_at_boundaries() {
    let grad = generate_gradient(Rgb(0, 0, 0), None, Some(Rgb(200, 100, 50)));
    assert_eq!(grad[0], rgb_to_fg_escape(0, 0, 0));
    assert_eq!(grad[100], rgb_to_fg_escape(200, 100, 50));
    assert_eq!(grad[50], rgb_to_fg_escape(100, 50, 25));
}

#[test]
fn palette_theme_has_all_gradients() {
    let theme = palette_theme();
    assert!(theme.color(tc::MAIN_FG).starts_with("\x1b[38;2;"));
    assert_eq!(theme.gradient(tc::GRAD_CPU_UPPER).len(), 101);
    assert_eq!(theme.gradient(tc::GRAD_TEMP).len(), 101);
    assert_eq!(theme.gradient(tc::GRAD_DISK_BUSY).len(), 101);
}

#[test]
fn palette_base_style_honors_theme_background() {
    let theme = palette_theme();
    assert!(theme.base_style(true).contains("\x1b[48;2;"));
    assert!(theme.base_style(false).contains("\x1b[49m"));
}

#[test]
fn palette_theme_background_off_emits_terminal_default_bg_escape() {
    let theme = palette_theme();
    assert!(theme.base_style(false).contains("\x1b[49m"));
    assert!(!theme.base_style(true).contains("\x1b[49m"));
}

#[test]
fn palette_style_output_reapplies_base_after_reset() {
    let theme = palette_theme();
    let base = theme.base_style(true);
    let styled = theme.style_output("left\x1b[0mright", true);
    assert!(styled.starts_with(&base));
    assert!(styled.contains(&format!("\x1b[0m{base}right")));
}

#[test]
fn palette_gradient_color_returns_indexed_escape() {
    let theme = palette_theme();
    let grad = theme.gradient(tc::GRAD_CPU_UPPER);
    assert_eq!(gradient_color(grad, 0), grad[0].as_str());
    assert_eq!(gradient_color(grad, 50), grad[50].as_str());
    assert_eq!(gradient_color(grad, 100), grad[100].as_str());
}

#[test]
fn palette_gradient_color_clamps_out_of_range_pct() {
    let theme = palette_theme();
    let grad = theme.gradient(tc::GRAD_CPU_UPPER);
    assert_eq!(gradient_color(grad, -1), grad[0].as_str());
    assert_eq!(gradient_color(grad, -1000), grad[0].as_str());
    assert_eq!(gradient_color(grad, 101), grad[100].as_str());
    assert_eq!(gradient_color(grad, i32::MAX), grad[100].as_str());
}

#[test]
fn palette_rgb_accessor_returns_values() {
    let theme = palette_theme();
    assert_eq!(theme.rgb(tc::MAIN_FG), [0xf8, 0xf8, 0xf2]);
    assert_eq!(theme.rgb(tc::MAIN_BG), [0x28, 0x2a, 0x36]);
}

#[test]
fn rgb_parse_hex_valid() {
    assert_eq!(Rgb::parse_hex("#ff0000"), Some(Rgb(255, 0, 0)));
    assert_eq!(Rgb::parse_hex("#00ff00"), Some(Rgb(0, 255, 0)));
    assert_eq!(Rgb::parse_hex("#282a36"), Some(Rgb(0x28, 0x2a, 0x36)));
}

#[test]
fn rgb_parse_hex_rejects_short() {
    assert_eq!(Rgb::parse_hex("#cc"), None);
    assert_eq!(Rgb::parse_hex("#abc"), None);
}

#[test]
fn rgb_parse_hex_rejects_invalid() {
    assert_eq!(Rgb::parse_hex(""), None);
    assert_eq!(Rgb::parse_hex("#xyz123"), None);
    assert_eq!(Rgb::parse_hex("ff0000"), None);
}

#[test]
fn rgb_to_fg_escape_format() {
    assert_eq!(Rgb(255, 0, 0).to_fg_escape(), "\x1b[38;2;255;0;0m");
}

#[test]
fn rgb_display() {
    assert_eq!(Rgb(0x28, 0x2a, 0x36).to_string(), "#282a36");
}

#[test]
fn rgb_parse_hex_takes_exactly_six_hex_digits() {
    assert_eq!(Rgb::parse_hex("#+f+f+f"), None);
    assert_eq!(Rgb::parse_hex("#aé123"), None);
    assert_eq!(Rgb::parse_hex("#ABCDEF"), Some(Rgb(0xab, 0xcd, 0xef)));
    assert_eq!(Rgb::parse_hex("#abcdef0"), None);
}

#[test]
fn rgb_text_round_trips() {
    for c in [Rgb(0, 0, 0), Rgb(0x28, 0x2a, 0x36), Rgb(255, 128, 7)] {
        assert_eq!(Rgb::parse_hex(&c.to_string()), Some(c));
    }
}

#[test]
fn theme_index_matches_names_regardless_of_ascii_case() {
    let names = ["default", "Nord", "gruvbox_dark", "nord"];
    assert_eq!(rtop::theme::theme_index(&names, "nord"), 1, "first match wins");
    assert_eq!(rtop::theme::theme_index(&names, "DEFAULT"), 0);
    assert_eq!(rtop::theme::theme_index(&names, "Gruvbox_Dark"), 2);
}

#[test]
fn theme_index_falls_back_to_first_theme() {
    let names = ["default", "nord"];
    assert_eq!(rtop::theme::theme_index(&names, "missing"), 0);
    assert_eq!(rtop::theme::theme_index(&names, "nor"), 0, "a prefix is no match");
    assert_eq!(rtop::theme::theme_index(&names, ""), 0);
}

#[test]
fn theme_index_folds_ascii_letters_only() {
    let names = ["default", "Ärger"];
    assert_eq!(rtop::theme::theme_index(&names, "Ärger"), 1);
    assert_eq!(rtop::theme::theme_index(&names, "ärger"), 0);
}
