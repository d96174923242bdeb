use desktop_ui_core::format::{
    standard_format_id, str_eq, str_nul_free, text_format_name, ClipboardFormat, CF_UNICODETEXT,
};

#[test]
fn str_eq_equal() {
    assert!(str_eq("CF_TEXT", "CF_TEXT"));
    assert!(str_eq("", ""));
}

#[test]
fn str_eq_differs() {
    assert!(!str_eq("CF_TEXT", "CF_TIFF"));
    assert!(!str_eq("CF_TEXT", "CF_TEXTX"));
}

#[test]
fn nul_free_holds() {
    assert!(str_nul_free("a plain name"));
}

#[test]
fn nul_free_fails() {
    assert!(!str_nul_free("bad\0name"));
}

#[test]
fn standard_ids_match_table() {
    assert_eq!(standard_format_id("CF_TEXT"), Some(1));
    assert_eq!(standard_format_id("CF_WAVE"), Some(12));
    assert_eq!(standard_format_id("CF_UNICODETEXT"), Some(CF_UNICODETEXT));
    assert_eq!(standard_format_id("CF_DIBV5"), Some(17));
    assert_eq!(standard_format_id("CF_OWNERDISPLAY"), Some(0x0080));
    assert_eq!(standard_format_id("CF_GDIOBJLAST"), Some(0x03FF));
}

#[test]
fn unknown_name_has_no_standard_id() {
    assert_eq!(standard_format_id("my.custom.format"), None);
    assert_eq!(standard_format_id(text_format_name()), None);
}

#[test]
fn text_format_carries_utf8() {
    let f = ClipboardFormat::text("Hi\u{1F600}");
    assert_eq!(f.identifier, String::from(text_format_name()));
    assert_eq!(f.data, "Hi\u{1F600}".as_bytes().to_vec());
}
