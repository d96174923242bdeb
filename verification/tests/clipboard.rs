use desktop_ui_core::clipboard::{
    find_nul, plan_put_format, plan_write_text, read_clipboard_text, ClipboardPayload, PutStep,
};
use desktop_ui_core::format::{text_format_name, ClipboardFormat, CF_UNICODETEXT};

#[test]
fn write_text_plans_nul_terminated_utf16() {
    match plan_write_text("Hi") {
        PutStep::Store { format_id, payload } => {
            assert_eq!(format_id, CF_UNICODETEXT);
            match payload {
                ClipboardPayload::Text(units) => {
                    assert_eq!(units, vec![72u16, 105u16, 0u16]);
                }
                ClipboardPayload::Bytes(_) => panic!("text write must carry UTF-16 units"),
            }
        }
        _ => panic!("text write must store under the text identifier"),
    }
}

#[test]
fn well_known_format_uses_table_id() {
    let f = ClipboardFormat::new(String::from("CF_WAVE"), vec![1u8, 2u8, 3u8]);
    match plan_put_format(&f) {
        PutStep::Store { format_id, payload } => {
            assert_eq!(format_id, 12);
            match payload {
                ClipboardPayload::Bytes(bytes) => assert_eq!(bytes, vec![1u8, 2u8, 3u8]),
                ClipboardPayload::Text(_) => panic!("raw format must carry its bytes"),
            }
        }
        _ => panic!("well-known format needs no registration"),
    }
}

#[test]
fn custom_format_is_registered_first() {
    let f = ClipboardFormat::new(String::from("my.custom.format"), vec![7u8]);
    match plan_put_format(&f) {
        PutStep::RegisterThenStore { name, payload } => {
            assert_eq!(name, String::from("my.custom.format"));
            match payload {
                ClipboardPayload::Bytes(bytes) => assert_eq!(bytes, vec![7u8]),
                ClipboardPayload::Text(_) => panic!("raw format must carry its bytes"),
            }
        }
        _ => panic!("unknown format must be registered"),
    }
}

#[test]
fn identifier_with_nul_is_skipped() {
    let f = ClipboardFormat::new(String::from("bad\0name"), vec![7u8]);
    match plan_put_format(&f) {
        PutStep::SkipInvalidIdentifier { name } => {
            assert_eq!(name, String::from("bad\0name"));
        }
        _ => panic!("identifier with a nul byte cannot be registered"),
    }
}

#[test]
fn text_format_with_invalid_utf8_is_skipped() {
    let f = ClipboardFormat::new(String::from(text_format_name()), vec![0xFFu8]);
    assert!(matches!(plan_put_format(&f), PutStep::SkipInvalidText));
}

#[test]
fn text_format_value_plans_like_write_text() {
    let f = ClipboardFormat::text("Hi");
    match plan_put_format(&f) {
        PutStep::Store { format_id, payload } => {
            assert_eq!(format_id, CF_UNICODETEXT);
            match payload {
                ClipboardPayload::Text(units) => {
                    assert_eq!(units, vec![72u16, 105u16, 0u16]);
                }
                ClipboardPayload::Bytes(_) => panic!("text write must carry UTF-16 units"),
            }
        }
        _ => panic!("text write must store under the text identifier"),
    }
}

#[test]
fn find_nul_stops_at_first_nul() {
    assert_eq!(find_nul(&[1u16, 2u16, 0u16, 3u16]), 2);
}

#[test]
fn find_nul_without_nul_is_length() {
    assert_eq!(find_nul(&[1u16, 2u16]), 2);
    assert_eq!(find_nul(&[]), 0);
}

#[test]
fn read_stops_at_terminator() {
    let r = read_clipboard_text(&[72u16, 105u16, 0u16, 99u16]);
    assert_eq!(r, Some(String::from("Hi")));
}

#[test]
fn read_without_terminator_takes_all() {
    let r = read_clipboard_text(&[72u16, 105u16]);
    assert_eq!(r, Some(String::from("Hi")));
}

#[test]
fn read_rejects_ill_formed_units() {
    assert_eq!(read_clipboard_text(&[0xD83Du16, 0u16]), None);
}

#[test]
fn planned_write_reads_back() {
    let s = "hello \u{4E16}\u{1F600}";
    match plan_write_text(s) {
        PutStep::Store { format_id: _, payload: ClipboardPayload::Text(units) } => {
            assert_eq!(read_clipboard_text(&units), Some(String::from(s)));
        }
        _ => panic!("text write must carry UTF-16 units"),
    }
}
