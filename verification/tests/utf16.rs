use desktop_ui_core::utf16::{decode_utf16_units, encode_utf16_units};

#[test]
fn encode_empty() {
    let units = encode_utf16_units("");
    assert!(units.is_empty());
}

#[test]
fn encode_ascii() {
    let units = encode_utf16_units("Hi");
    assert_eq!(units, vec![72u16, 105u16]);
}

#[test]
fn encode_bmp() {
    let units = encode_utf16_units("\u{E9}\u{4E16}");
    assert_eq!(units, vec![0x00E9u16, 0x4E16u16]);
}

#[test]
fn encode_supplementary() {
    let units = encode_utf16_units("\u{1F600}");
    assert_eq!(units, vec![0xD83Du16, 0xDE00u16]);
}

#[test]
fn decode_ascii() {
    let r = decode_utf16_units(&[72u16, 105u16]);
    assert_eq!(r, Some(String::from("Hi")));
}

#[test]
fn decode_empty() {
    let r = decode_utf16_units(&[]);
    assert_eq!(r, Some(String::new()));
}

#[test]
fn decode_surrogate_pair() {
    let r = decode_utf16_units(&[0xD83Du16, 0xDE00u16]);
    assert_eq!(r, Some(String::from("\u{1F600}")));
}

#[test]
fn decode_lone_high_surrogate() {
    assert_eq!(decode_utf16_units(&[0xD83Du16]), None);
}

#[test]
fn decode_lone_low_surrogate() {
    assert_eq!(decode_utf16_units(&[0xDE00u16, 0x0041u16]), None);
}

#[test]
fn decode_swapped_surrogates() {
    assert_eq!(decode_utf16_units(&[0xDE00u16, 0xD83Du16]), None);
}

#[test]
fn encode_decode_round_trip() {
    let s = "mixed \u{E9}\u{4E16}\u{1F600} text";
    let units = encode_utf16_units(s);
    assert_eq!(decode_utf16_units(&units), Some(String::from(s)));
}
