use keyviz::label::{display_label, is_spacer, parse_u16, width_hint, DEFAULT_WIDTH};

#[test]
fn width_hint_reads_number_after_separator() {
    assert_eq!(width_hint("Tab:7"), 7);
    assert_eq!(width_hint("Space:27"), 27);
    assert_eq!(width_hint(":8"), 8);
}

#[test]
fn width_hint_defaults_without_separator() {
    assert_eq!(width_hint("Esc"), DEFAULT_WIDTH);
    assert_eq!(width_hint("Q"), 5);
    assert_eq!(width_hint(""), 5);
}

#[test]
fn width_hint_defaults_on_bad_number() {
    assert_eq!(width_hint("Tab:"), 5);
    assert_eq!(width_hint("Tab:x"), 5);
    assert_eq!(width_hint("a:b:7"), 5);
    assert_eq!(width_hint("a:1:2"), 5);
    assert_eq!(width_hint("Tab:70000"), 5);
    assert_eq!(width_hint("Tab:-3"), 5);
}

#[test]
fn width_hint_largest_and_plus_sign() {
    assert_eq!(width_hint("W:65535"), 65535);
    assert_eq!(width_hint("W:65536"), 5);
    assert_eq!(width_hint("W:+12"), 12);
    assert_eq!(width_hint("W:+"), 5);
}

#[test]
fn parse_u16_matches_std() {
    for t in ["", "+", "0", "007", "+9", "-1", "12a", "65535", "65536", "999999", " 1", "١"] {
        assert_eq!(parse_u16(t), t.parse::<u16>().ok(), "text {:?}", t);
    }
}

#[test]
fn display_label_strips_width_suffix() {
    assert_eq!(display_label("Tab:7"), "Tab");
    assert_eq!(display_label("Shift:11"), "Shift");
    assert_eq!(display_label(":8"), "");
}

#[test]
fn display_label_keeps_label_without_separator() {
    assert_eq!(display_label("Esc"), "Esc");
    assert_eq!(display_label("W"), "W");
    assert_eq!(display_label(""), "");
}

#[test]
fn display_label_keeps_non_numeric_suffix() {
    assert_eq!(display_label("Tab:"), "Tab:");
    assert_eq!(display_label("a:b"), "a:b");
    assert_eq!(display_label(":"), ":");
    assert_eq!(display_label("a:b:7"), "a:b");
}

#[test]
fn spacer_labels() {
    assert!(is_spacer(":8"));
    assert!(is_spacer(":"));
    assert!(is_spacer(":123"));
    assert!(!is_spacer("Tab:7"));
    assert!(!is_spacer(":x"));
    assert!(!is_spacer(""));
}
