use hub_tui::render::{pad_left, truncate_width};
use hub_tui::view::{format_hms, handle_tag, spinner_char, status_icon, format_elapsed_at, preview_tail};

#[test]
fn test_spinner_char_cycles() {
    let c0 = spinner_char(0);
    let c1 = spinner_char(1);
    assert_ne!(c0, c1);
    assert_eq!(spinner_char(10), c0);
}

#[test]
fn test_truncate_width_ascii() {
    assert_eq!(truncate_width("hello", 10), "hello");
    assert_eq!(truncate_width("hello", 3), "he…");
    assert_eq!(truncate_width("hello", 0), "");
}

#[test]
fn test_pad_left_ascii() {
    assert_eq!(pad_left("ab", 5), "ab   ");
    assert_eq!(pad_left("abcdef", 3), "ab…");
}

#[test]
fn truncate_width_counts_wide_characters() {
    // each CJK character takes two columns
    assert_eq!(truncate_width("你好世界", 5), "你好…");
    assert_eq!(truncate_width("你好", 4), "你好");
}

#[test]
fn format_hms_cases() {
    assert_eq!(format_hms(0), "00:00:00");
    assert_eq!(format_hms(3_723_000), "01:02:03");
    assert_eq!(format_hms(86_400_000 + 59_000), "00:00:59");
    assert_eq!(format_hms(-5), "00:00:00");
}

#[test]
fn handle_tag_cases() {
    assert_eq!(handle_tag("term_fca57171-1234"), "fca57171");
    assert_eq!(handle_tag("abc"), "abc");
    assert_eq!(handle_tag("term_ab"), "ab");
}

#[test]
fn status_icon_cases() {
    assert_eq!(status_icon("Running"), "\u{23f3}");
    assert_eq!(status_icon("DONE"), "\u{2713}");
    assert_eq!(status_icon("blocked"), "\u{23f4}");
    assert_eq!(status_icon("failed"), "\u{2717}");
    assert_eq!(status_icon("queued"), "\u{00b7}");
}

#[test]
fn format_elapsed_units() {
    assert_eq!(format_elapsed_at(None, 1_000_000), "");
    assert_eq!(format_elapsed_at(Some(0), 1_000_000), "");
    assert_eq!(format_elapsed_at(Some(995_000), 1_000_000), "5s");
    assert_eq!(format_elapsed_at(Some(1_000), 1_000 + 120_000), "2m");
    assert_eq!(format_elapsed_at(Some(1_000), 1_000 + 7_200_000), "2h");
    assert_eq!(format_elapsed_at(Some(1_000), 1_000 + 3 * 86_400_000), "3d");
    assert_eq!(format_elapsed_at(Some(2_000_000), 1_000_000), "0s");
}

#[test]
fn preview_tail_skips_decoration_and_blanks() {
    assert_eq!(preview_tail(None), "");
    assert_eq!(preview_tail(Some("first\n  second  \n────\n\n")), "second");
    assert_eq!(preview_tail(Some("╭ box\n│ side")), "");
}
