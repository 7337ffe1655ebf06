use pubnub_core::decimal::{format_u64, parse_u64};
use pubnub_core::encoded_channels_list::{percent_encode, EncodedChannelsList};
use pubnub_core::registry::Registry;

#[test]
fn letters_and_digits_stand_for_themselves() {
    assert_eq!(percent_encode("abcXYZ019"), "abcXYZ019");
    assert_eq!(percent_encode(""), "");
}

#[test]
fn other_ascii_is_escaped_in_upper_case_hex() {
    assert_eq!(percent_encode("a b"), "a%20b");
    assert_eq!(percent_encode("my-channel"), "my%2Dchannel");
    assert_eq!(percent_encode("a,b"), "a%2Cb");
    assert_eq!(percent_encode("/?&=%"), "%2F%3F%26%3D%25");
    assert_eq!(percent_encode("_.~"), "%5F%2E%7E");
    assert_eq!(percent_encode("\n"), "%0A");
    assert_eq!(percent_encode("@[`{"), "%40%5B%60%7B");
}

#[test]
fn other_scripts_are_escaped_byte_by_byte() {
    assert_eq!(percent_encode("é"), "%C3%A9");
    assert_eq!(percent_encode("日本"), "%E6%97%A5%E6%9C%AC");
    assert_eq!(percent_encode("😀"), "%F0%9F%98%80");
}

#[test]
fn names_are_joined_by_commas_in_their_order() {
    let none: Vec<String> = Vec::new();
    assert_eq!(EncodedChannelsList::from_names(&none).as_str(), "");
    let one = vec!["a".to_string()];
    assert_eq!(EncodedChannelsList::from_names(&one).as_str(), "a");
    let three = vec!["b".to_string(), "a c".to_string(), "d".to_string()];
    assert_eq!(EncodedChannelsList::from_names(&three).as_str(), "b,a%20c,d");
}

#[test]
fn list_of_a_registry_holds_every_key_once() {
    let mut registry = Registry::new();
    assert_eq!(EncodedChannelsList::from_registry(&registry).as_str(), "");
    registry.register("a".to_string(), 1);
    registry.register("a".to_string(), 2);
    assert_eq!(EncodedChannelsList::from_registry(&registry).as_str(), "a");
    registry.register("b c".to_string(), 3);
    let list = EncodedChannelsList::from_registry(&registry);
    assert!(list.as_str() == "a,b%20c" || list.as_str() == "b%20c,a");
}

#[test]
fn decimal_numbers_are_read() {
    assert_eq!(parse_u64("0"), Some(0));
    assert_eq!(parse_u64("7"), Some(7));
    assert_eq!(parse_u64("007"), Some(7));
    assert_eq!(parse_u64("15851350137251819"), Some(15851350137251819));
    assert_eq!(parse_u64("18446744073709551615"), Some(u64::MAX));
}

#[test]
fn what_is_not_a_decimal_number_is_refused() {
    assert_eq!(parse_u64(""), None);
    assert_eq!(parse_u64("+5"), None);
    assert_eq!(parse_u64("-5"), None);
    assert_eq!(parse_u64("12a"), None);
    assert_eq!(parse_u64(" 12"), None);
    assert_eq!(parse_u64("1.5"), None);
    assert_eq!(parse_u64("٣"), None);
}

#[test]
fn numbers_beyond_64_bits_are_refused() {
    assert_eq!(parse_u64("18446744073709551616"), None);
    assert_eq!(parse_u64("18446744073709551620"), None);
    assert_eq!(parse_u64("99999999999999999999"), None);
    assert_eq!(parse_u64("100000000000000000000000"), None);
}

#[test]
fn numbers_are_written_without_leading_zeros() {
    assert_eq!(format_u64(0), "0");
    assert_eq!(format_u64(9), "9");
    assert_eq!(format_u64(10), "10");
    assert_eq!(format_u64(15851350137251819), "15851350137251819");
    assert_eq!(format_u64(u64::MAX), "18446744073709551615");
}

#[test]
fn written_numbers_read_back() {
    let samples: [u64; 6] = [0, 1, 99, 100, 4294967296, u64::MAX];
    for value in samples {
        assert_eq!(parse_u64(&format_u64(value)), Some(value));
    }
}
