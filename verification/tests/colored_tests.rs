use crabfetch::color::{replace_color_placeholders, CrabFetchColor};
use crabfetch::fetch::color_row;

#[test]
fn colored_output_when_colors_are_forced() {
    colored::control::set_override(true);
    assert_eq!(color_row("x", 1, false, false),
        "\u{1b}[30mx\u{1b}[0m \u{1b}[31mx\u{1b}[0m \u{1b}[32mx\u{1b}[0m \u{1b}[33mx\u{1b}[0m \u{1b}[34mx\u{1b}[0m \u{1b}[35mx\u{1b}[0m \u{1b}[36mx\u{1b}[0m \u{1b}[37mx\u{1b}[0m");
    assert_eq!(color_row(" ", 0, true, true),
        "\u{1b}[100m \u{1b}[0m\u{1b}[101m \u{1b}[0m\u{1b}[102m \u{1b}[0m\u{1b}[103m \u{1b}[0m\u{1b}[104m \u{1b}[0m\u{1b}[105m \u{1b}[0m\u{1b}[106m \u{1b}[0m\u{1b}[107m \u{1b}[0m");
    assert_eq!(replace_color_placeholders("a{color-red}b"), "a\u{1b}[31mb\u{1b}[0m");
    assert_eq!(CrabFetchColor::Blue.color_string("t", true, false), "\u{1b}[1;34mt\u{1b}[0m");
    assert_eq!(CrabFetchColor::Clear.color_string("t", false, false), "t");
}

#[test]
fn color_names_match_without_case_and_unknown_ones_drop_text() {
    colored::control::set_override(true);
    assert_eq!(replace_color_placeholders("x{color-CLEAR}abc"), "xabc");
    assert_eq!(replace_color_placeholders("a{color-bright_red}b"), "a");
    assert_eq!(replace_color_placeholders("a{color-RED}b"), "a\u{1b}[31mb\u{1b}[0m");
}
