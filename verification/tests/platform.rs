use feather::platform::{to_wide, TOOLBAR_HEIGHT};

#[test]
fn to_wide_appends_nul() {
    assert_eq!(to_wide(""), vec![0]);
    assert_eq!(to_wide("Feather"), vec![70, 101, 97, 116, 104, 101, 114, 0]);
}

#[test]
fn to_wide_matches_std_utf16() {
    for s in ["FeatherToolbar", "héllo", "日本", "a😀b", "\u{10ffff}"] {
        let mut expected: Vec<u16> = s.encode_utf16().collect();
        expected.push(0);
        assert_eq!(to_wide(s), expected);
    }
    assert_eq!(to_wide("😀"), vec![0xD83D, 0xDE00, 0]);
}

#[test]
fn toolbar_height() {
    assert_eq!(TOOLBAR_HEIGHT, 48);
}
