use console::Style;
use turborepo::ui::{parse_force_color, rainbow_cell, UI};

#[test]
fn test_ui_strips_ansi() {
    let ui = UI::new(true);
    let grey_str = Style::new().dim().apply_to("gray");
    assert_eq!(format!("{}", ui.apply(grey_str)), "gray");
}

#[test]
fn test_ui_resets_term() {
    let ui = UI::new(false);
    let grey_str = Style::new().dim().apply_to("gray");
    assert_eq!(format!("{}", ui.apply(grey_str)), "\u{1b}[2mgray\u{1b}[0m");
}

#[test]
fn ui_new_keeps_the_choice() {
    assert!(UI::new(true).should_strip_ansi());
    assert!(!UI::new(true).forces_styling());
    assert!(!UI::new(false).should_strip_ansi());
    assert!(UI::new(false).forces_styling());
}

#[test]
fn force_color_values_are_read() {
    assert_eq!(parse_force_color("false"), Some(true));
    assert_eq!(parse_force_color("0"), Some(true));
    assert_eq!(parse_force_color("true"), Some(false));
    assert_eq!(parse_force_color("1"), Some(false));
    assert_eq!(parse_force_color("2"), Some(false));
    assert_eq!(parse_force_color("3"), Some(false));
    assert_eq!(parse_force_color(""), None);
    assert_eq!(parse_force_color("4"), None);
    assert_eq!(parse_force_color("TRUE"), None);
    assert_eq!(parse_force_color("yes"), None);
}

#[test]
fn ui_is_inferred_from_variable_then_terminal() {
    assert_eq!(UI::infer_from(Some("false"), true), UI::new(true));
    assert_eq!(UI::infer_from(Some("0"), true), UI::new(true));
    assert_eq!(UI::infer_from(Some("true"), false), UI::new(false));
    assert_eq!(UI::infer_from(Some("3"), false), UI::new(false));
    assert_eq!(UI::infer_from(Some("maybe"), true), UI::new(false));
    assert_eq!(UI::infer_from(Some("maybe"), false), UI::new(true));
    assert_eq!(UI::infer_from(None, true), UI::new(false));
    assert_eq!(UI::infer_from(None, false), UI::new(true));
}

#[test]
fn rainbow_cell_formats_color_and_character() {
    assert_eq!(
        rainbow_cell(18, 45, 128, 'h'),
        format!("\x1b[1m\x1b[38;2;{};{};{}m{}\x1b[0m\x1b[0;1m", 18, 45, 128, 'h')
    );
    assert_eq!(rainbow_cell(0, 9, 10, 'é'), "\x1b[1m\x1b[38;2;0;9;10mé\x1b[0m\x1b[0;1m");
    assert_eq!(rainbow_cell(99, 100, 255, ' '), "\x1b[1m\x1b[38;2;99;100;255m \x1b[0m\x1b[0;1m");
    for n in 0..=255u8 {
        assert_eq!(
            rainbow_cell(n, n, n, 'x'),
            format!("\x1b[1m\x1b[38;2;{};{};{}m{}\x1b[0m\x1b[0;1m", n, n, n, 'x')
        );
    }
}
