use base64::Engine;
use xray_sub::subscription::{split_lines, subscription_lines};

#[test]
fn plain_body_is_split_at_line_feeds() {
    assert_eq!(subscription_lines("vmess://a\nvless://b\n"), vec!["vmess://a", "vless://b", ""]);
}

#[test]
fn carriage_returns_stay_in_the_lines() {
    assert_eq!(subscription_lines("a!\r\nb!"), vec!["a!\r", "b!"]);
}

#[test]
fn empty_body_gives_one_empty_line() {
    assert_eq!(subscription_lines(""), vec![""]);
}

#[test]
fn encoded_body_is_decoded_first() {
    let body = base64::engine::general_purpose::STANDARD.encode("vmess://a\n\nvless://b");
    assert_eq!(subscription_lines(&body), vec!["vmess://a", "", "vless://b"]);
    assert_eq!(subscription_lines("YQpi"), vec!["a", "b"]);
}

#[test]
fn encoded_body_with_bad_bytes_gets_replacement_characters() {
    let body = base64::engine::general_purpose::STANDARD.encode([0xffu8, 0x0a, 0x61]);
    assert_eq!(subscription_lines(&body), vec!["\u{fffd}", "a"]);
}

#[test]
fn body_that_is_not_quite_base64_is_taken_as_it_stands() {
    assert_eq!(subscription_lines("YQpi\n"), vec!["YQpi", ""]);
    assert_eq!(subscription_lines("YQp"), vec!["YQp"]);
}

#[test]
fn text_is_split_at_every_line_feed() {
    assert_eq!(split_lines(""), vec![""]);
    assert_eq!(split_lines("\n"), vec!["", ""]);
    assert_eq!(split_lines("a\n\nb"), vec!["a", "", "b"]);
    assert_eq!(split_lines("YQpi"), vec!["YQpi"]);
}
