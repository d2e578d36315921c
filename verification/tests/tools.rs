use rtop::tools::{celsius_to, cjust, ljust, luresize, rjust, sec_to_dhms, strf_time, strip_ansi, ulen, uresize, ClockTime};

const NOON: ClockTime = ClockTime { hour: 12, minute: 0, second: 0 };


// --- ulen tests ---

#[test]
fn ulen_ascii_string() {
    assert_eq!(ulen("hello", false), 5);
}

#[test]
fn ulen_empty_string() {
    assert_eq!(ulen("", false), 0);
}

#[test]
fn ulen_ansi_escape_codes_ignored() {
    assert_eq!(ulen("\x1b[31mhello\x1b[0m", false), 5);
}

#[test]
fn ulen_cjk_characters_count_double() {
    // CJK characters take 2 columns
    assert_eq!(ulen("中文", true), 4);
}

#[test]
fn ulen_mixed_ascii_cjk() {
    assert_eq!(ulen("hi中", true), 4); // 2 + 2
}

// --- uresize tests ---

#[test]
fn uresize_truncates_at_width() {
    assert_eq!(uresize("hello world", 5, false), "hello");
}

#[test]
fn uresize_preserves_ansi_codes() {
    let s = "\x1b[31mhello\x1b[0m world";
    let result = uresize(s, 5, false);
    assert!(result.contains("\x1b[31m"));
    assert_eq!(ulen(&result, false), 5);
}

#[test]
fn uresize_no_truncation_when_fits() {
    assert_eq!(uresize("hi", 10, false), "hi");
}

// --- luresize tests ---

#[test]
fn luresize_removes_from_left() {
    assert_eq!(luresize("hello world", 5, false), "world");
}

#[test]
fn luresize_no_change_when_fits() {
    assert_eq!(luresize("hi", 10, false), "hi");
}

// --- ljust tests ---

#[test]
fn ljust_pads_right() {
    assert_eq!(ljust("hi", 5, false), "hi   ");
}

#[test]
fn ljust_truncates_if_over() {
    assert_eq!(ljust("hello world", 5, false), "hello");
}

#[test]
fn ljust_exact_width() {
    assert_eq!(ljust("hello", 5, false), "hello");
}

// --- rjust tests ---

#[test]
fn rjust_pads_left() {
    assert_eq!(rjust("hi", 5, false), "   hi");
}

#[test]
fn rjust_truncates_if_over() {
    assert_eq!(rjust("hello world", 5, false), "hello");
}

// --- cjust tests ---

#[test]
fn cjust_centers() {
    assert_eq!(cjust("hi", 6, false), "  hi  ");
}

#[test]
fn cjust_odd_padding() {
    assert_eq!(cjust("hi", 5, false), " hi  ");
}

#[test]
fn sec_to_dhms_zero() {
    assert_eq!(sec_to_dhms(0, false, false), "00:00:00");
}

#[test]
fn sec_to_dhms_seconds_only() {
    assert_eq!(sec_to_dhms(45, false, false), "00:00:45");
}

#[test]
fn sec_to_dhms_minutes_seconds() {
    assert_eq!(sec_to_dhms(125, false, false), "00:02:05");
}

#[test]
fn sec_to_dhms_hours_minutes_seconds() {
    assert_eq!(sec_to_dhms(3661, false, false), "01:01:01");
}

#[test]
fn sec_to_dhms_days() {
    assert_eq!(sec_to_dhms(90061, false, false), "1d01:01:01");
}

#[test]
fn sec_to_dhms_no_days_flag() {
    assert_eq!(sec_to_dhms(90061, true, false), "25:01:01");
}

#[test]
fn sec_to_dhms_no_seconds_flag() {
    assert_eq!(sec_to_dhms(3661, false, true), "01:01");
}

// --- celsius_to tests ---

#[test]
fn celsius_to_celsius_identity() {
    assert_eq!(celsius_to(100, "celsius"), (100, "°C".to_string()));
}

#[test]
fn celsius_to_fahrenheit() {
    assert_eq!(celsius_to(100, "fahrenheit"), (212, "°F".to_string()));
}

#[test]
fn celsius_to_kelvin() {
    assert_eq!(celsius_to(0, "kelvin"), (273, "°K".to_string()));
}

#[test]
fn celsius_to_rankine() {
    assert_eq!(celsius_to(0, "rankine"), (492, "°R".to_string()));
}

// --- strf_time tests ---

#[test]
fn strf_time_host_replacement() {
    let result = strf_time("/host", NOON, 0, "myhost", "me");
    assert!(!result.contains("/host"));
    assert!(!result.is_empty());
}

#[test]
fn strf_time_user_replacement() {
    let result = strf_time("/user", NOON, 0, "myhost", "me");
    assert!(!result.contains("/user"));
}

#[test]
fn strf_time_uptime_replacement() {
    let result = strf_time("/uptime", NOON, 3661, "myhost", "me");
    assert!(result.contains("01:01"), "got: {result}");
}

// --- strip_ansi tests ---

#[test]
fn strip_ansi_removes_codes() {
    assert_eq!(strip_ansi("\x1b[31mhello\x1b[0m"), "hello");
}

#[test]
fn strip_ansi_no_codes() {
    assert_eq!(strip_ansi("hello"), "hello");
}

#[test]
fn strf_time_replaces_all_markers_in_order() {
    assert_eq!(strf_time("/user@/host up /uptime", NOON, 90061, "box", "ann"), "ann@box up 1d01:01");
}

#[test]
fn strf_time_keeps_text_without_markers() {
    assert_eq!(strf_time("%H:%M", NOON, 5, "box", "ann"), "%H:%M");
}

#[test]
fn ljust_utf_pads_by_display_columns() {
    assert_eq!(ljust("\x1b[1mab\x1b[0m", 4, true), "\x1b[1mab\x1b[0m  ");
    assert_eq!(ljust("中文", 6, true), "中文  ");
}

#[test]
fn ljust_utf_cuts_by_display_columns() {
    assert_eq!(ljust("中文字", 4, true), "中文");
}

#[test]
fn ljust_bytes_cut_on_char_boundary() {
    assert_eq!(ljust("é1234", 3, false), "é1");
}

#[test]
fn rjust_zero_width_is_empty() {
    assert_eq!(rjust("abc", 0, false), "");
}

#[test]
fn uresize_stops_at_wide_char_that_does_not_fit() {
    assert_eq!(uresize("a中b", 2, false), "a");
}

#[test]
fn luresize_keeps_escapes() {
    assert_eq!(luresize("\x1b[31mhello\x1b[0m", 2, false), "\x1b[31mlo\x1b[0m");
}

#[test]
fn sec_to_dhms_no_days_no_seconds() {
    assert_eq!(sec_to_dhms(90061, true, true), "25:01");
}

#[test]
fn celsius_to_negative_rounds_toward_zero() {
    assert_eq!(celsius_to(-7, "fahrenheit"), (20, "°F".to_string()));
    assert_eq!(celsius_to(-40, "fahrenheit"), (-40, "°F".to_string()));
}

#[test]
fn celsius_to_unknown_scale_is_celsius() {
    assert_eq!(celsius_to(21, "Kelvin"), (21, "°C".to_string()));
}

#[test]
fn strip_ansi_drops_unterminated_escape() {
    assert_eq!(strip_ansi("ab\x1b[31"), "ab");
}

#[test]
fn ulen_counts_printable_ascii_by_length() {
    assert_eq!(ulen("hello world!", false), 12);
}

#[test]
fn cjust_truncates_if_over() {
    assert_eq!(cjust("hello world", 5, false), "hello");
}

fn at(hour: u8, minute: u8, second: u8) -> ClockTime {
    ClockTime { hour, minute, second }
}

#[test]
fn strf_time_expands_clock_specifiers() {
    assert_eq!(strf_time("%T", at(13, 24, 5), 0, "h", "u"), "13:24:05");
    assert_eq!(strf_time("%I:%M %p", at(13, 24, 5), 0, "h", "u"), "01:24 PM");
    assert_eq!(strf_time("%R", at(13, 24, 5), 0, "h", "u"), "13:24");
    assert_eq!(strf_time("%H:%M", at(7, 3, 0), 0, "h", "u"), "07:03");
    assert_eq!(strf_time("%I %p", at(0, 0, 0), 0, "h", "u"), "12 AM");
    assert_eq!(strf_time("%S", at(0, 0, 9), 0, "h", "u"), "09");
}

#[test]
fn strf_time_keeps_unknown_specifiers_and_empty_format() {
    assert_eq!(strf_time("%Y-%q %", at(1, 2, 3), 0, "h", "u"), "%Y-%q %");
    assert_eq!(strf_time("", at(1, 2, 3), 0, "h", "u"), "");
    assert_eq!(strf_time("%H /host", at(9, 0, 0), 0, "box", "u"), "09 box");
}
