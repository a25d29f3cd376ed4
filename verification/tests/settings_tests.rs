use penplotter::settings::{
    check_svg_data, flip_y_or_default, parse_bool, parse_usize, pen_down_or_default, pen_up_or_default,
    reference_or_default, samples_or_default, text_equals, translation_anchor, Anchor, ReferenceKind,
};

#[test]
fn usize_parsing_matches_std() {
    for s in ["0", "10", "+7", "007", "", "+", "-1", "1.5", " 3", "3 ", "abc", "18446744073709551615", "18446744073709551616", "99999999999999999999999", "++1", "１"] {
        assert_eq!(parse_usize(s), s.parse::<usize>().ok(), "input {:?}", s);
    }
}

#[test]
fn bool_parsing_matches_std() {
    for s in ["true", "false", "True", "", "1", "yes", "true "] {
        assert_eq!(parse_bool(s), s.parse::<bool>().ok(), "input {:?}", s);
    }
}

#[test]
fn samples_default_is_ten() {
    assert_eq!(samples_or_default(None), 10);
    assert_eq!(samples_or_default(Some("x")), 10);
    assert_eq!(samples_or_default(Some("25")), 25);
    assert_eq!(samples_or_default(Some("0")), 0);
}

#[test]
fn flip_default_is_true() {
    assert!(flip_y_or_default(None));
    assert!(flip_y_or_default(Some("maybe")));
    assert!(!flip_y_or_default(Some("false")));
    assert!(flip_y_or_default(Some("true")));
}

#[test]
fn pen_commands_default_when_missing_or_empty() {
    assert_eq!(pen_down_or_default(None), "M3 S1000");
    assert_eq!(pen_down_or_default(Some("")), "M3 S1000");
    assert_eq!(pen_down_or_default(Some("G1 Z0")), "G1 Z0");
    assert_eq!(pen_up_or_default(None), "M5");
    assert_eq!(pen_up_or_default(Some("")), "M5");
    assert_eq!(pen_up_or_default(Some("G1 Z5")), "G1 Z5");
}

#[test]
fn reference_names() {
    assert_eq!(reference_or_default(None), ReferenceKind::BottomLeft);
    assert_eq!(reference_or_default(Some("bottom_left")), ReferenceKind::BottomLeft);
    assert_eq!(reference_or_default(Some("top_left")), ReferenceKind::TopLeft);
    assert_eq!(reference_or_default(Some("center")), ReferenceKind::Center);
    assert_eq!(reference_or_default(Some("middle")), ReferenceKind::BottomLeft);
}

#[test]
fn anchors() {
    assert_eq!(translation_anchor(None), (Anchor::BottomLeft, true));
    assert_eq!(translation_anchor(Some("bottom_left")), (Anchor::BottomLeft, true));
    assert_eq!(translation_anchor(Some("center")), (Anchor::Center, true));
    assert_eq!(translation_anchor(Some("top_right")), (Anchor::TopRight, true));
    assert_eq!(translation_anchor(Some("bottom_right")), (Anchor::BottomRight, true));
    // unknown names fall back to the bottom left corner, flagged as unknown
    assert_eq!(translation_anchor(Some("top_left")), (Anchor::BottomLeft, false));
    assert_eq!(translation_anchor(Some("")), (Anchor::BottomLeft, false));
}

#[test]
fn text_equality() {
    assert!(text_equals("abc", "abc"));
    assert!(!text_equals("abc", "abd"));
    assert!(!text_equals("ab", "abc"));
    assert!(text_equals("", ""));
    assert!(text_equals("é", "é"));
}

#[test]
fn empty_svg_data_refused() {
    assert_eq!(check_svg_data(&[]), Err("SVG data is empty".to_string()));
    assert_eq!(check_svg_data(b"<svg/>"), Ok(()));
}
