use thespian_trace::hex::{decode_hex, hex_digit_value};

#[test]
fn digit_values() {
    assert_eq!(hex_digit_value(b'0'), Some(0));
    assert_eq!(hex_digit_value(b'9'), Some(9));
    assert_eq!(hex_digit_value(b'a'), Some(10));
    assert_eq!(hex_digit_value(b'f'), Some(15));
    assert_eq!(hex_digit_value(b'F'), None);
    assert_eq!(hex_digit_value(b'g'), None);
}

#[test]
fn decode_hex_pairs() {
    assert_eq!(decode_hex(b"xx00ff7a", 2, 3), Some(vec![0x00, 0xff, 0x7a]));
    assert_eq!(decode_hex(b"0g", 0, 1), None);
    assert_eq!(decode_hex(b"", 0, 0), Some(vec![]));
}
