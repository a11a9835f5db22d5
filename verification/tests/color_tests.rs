use crabfetch::color::{replace_color_placeholders, CrabFetchColor};

#[test]
fn color_names_ignore_case() {
    assert_eq!(CrabFetchColor::from_str("BrightRed"), Ok(CrabFetchColor::BrightRed));
    assert_eq!(CrabFetchColor::from_str("clear"), Ok(CrabFetchColor::Clear));
    assert_eq!(CrabFetchColor::from_str("bright_red"), Err(()));
}

#[test]
fn text_without_placeholders_is_kept() {
    assert_eq!(replace_color_placeholders("plain text"), "plain text");
}
