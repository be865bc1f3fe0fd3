use xray_sub::codec::{decode_base64_text, lossy_or_plain};

#[test]
fn decoded_bytes_are_read_as_text() {
    assert_eq!(lossy_or_plain(Some(b"hello".to_vec()), "plain".to_string()), "hello");
    assert_eq!(lossy_or_plain(Some(vec![]), "plain".to_string()), "");
    assert_eq!(lossy_or_plain(Some("é€".as_bytes().to_vec()), String::new()), "é€");
}

#[test]
fn bytes_that_are_no_utf8_are_replaced() {
    assert_eq!(lossy_or_plain(Some(vec![0x61, 0xff, 0x62]), String::new()), "a\u{fffd}b");
    assert_eq!(lossy_or_plain(Some(vec![0xe2, 0x82]), String::new()), "\u{fffd}");
}

#[test]
fn without_decoded_bytes_the_plain_text_stays() {
    assert_eq!(lossy_or_plain(None, "plain".to_string()), "plain");
}

#[test]
fn base64_input_is_decoded() {
    assert_eq!(decode_base64_text("aGVsbG8=".to_string()), "hello");
    assert_eq!(decode_base64_text("".to_string()), "");
    assert_eq!(decode_base64_text("/+8=".to_string()), "\u{fffd}\u{fffd}");
}

#[test]
fn input_that_is_no_base64_stays() {
    for s in ["hello", "aGVsbG8", "aGVsbG8=\n", "aGVs bG8=", "a-_b", "{\"a\":1}"] {
        assert_eq!(decode_base64_text(s.to_string()), s);
    }
}
