use pubnub_core::message::{Message, Timetoken, Type};
use pubnub_core::transport::{
    decode_message, decode_publish_response, decode_subscribe_response, decode_timetoken,
    publish_url, DecodingError, WireMessage,
};

fn wire(channel: &str, timetoken: &str) -> WireMessage {
    WireMessage {
        type_code: None,
        route: None,
        channel: Some(channel.to_string()),
        payload: "\"hello\"".to_string(),
        metadata: "null".to_string(),
        timetoken: Some(timetoken.to_string()),
        region: None,
        client: None,
        subscribe_key: Some("demo".to_string()),
        flags: None,
    }
}

#[test]
fn publish_url_has_the_payload_escaped() {
    assert_eq!(
        publish_url("https://ps.pndsn.com", "pub", "sub", "chan", "{\"a\":1}"),
        "https://ps.pndsn.com/publish/pub/sub/0/chan/0/%7B%22a%22%3A1%7D"
    );
}

#[test]
fn publish_url_of_empty_parts() {
    assert_eq!(publish_url("", "", "", "", ""), "/publish///0//0/");
}

#[test]
fn default_timetoken_is_zero() {
    assert_eq!(Timetoken::default(), Timetoken { t: 0, r: 0 });
}

#[test]
fn timetokens_are_ordered_by_t_then_r() {
    let low = Timetoken { t: 5, r: 9 };
    let high = Timetoken { t: 6, r: 0 };
    assert!(low.not_after(&high));
    assert!(!high.not_after(&low));
    assert!(low.not_after(&low));
    assert!(Timetoken { t: 5, r: 1 }.not_after(&Timetoken { t: 5, r: 2 }));
    assert!(!Timetoken { t: 5, r: 2 }.not_after(&Timetoken { t: 5, r: 1 }));
}

#[test]
fn type_codes_are_mapped() {
    assert_eq!(Type::from_code(None), Type::Published);
    assert_eq!(Type::from_code(Some(0)), Type::Published);
    assert_eq!(Type::from_code(Some(1)), Type::Signal);
    assert_eq!(Type::from_code(Some(2)), Type::Objects);
    assert_eq!(Type::from_code(Some(3)), Type::Action);
    assert_eq!(Type::from_code(Some(4)), Type::Unknown(4));
    assert_eq!(Type::from_code(Some(u32::MAX)), Type::Unknown(u32::MAX));
}

#[test]
fn timetoken_fields_are_read() {
    assert_eq!(
        decode_timetoken(Some("15851350137251819"), Some(12)),
        Ok(Timetoken { t: 15851350137251819, r: 12 })
    );
    assert_eq!(decode_timetoken(Some("0"), None), Ok(Timetoken { t: 0, r: 0 }));
}

#[test]
fn timetoken_without_its_text_is_a_missing_field() {
    assert_eq!(decode_timetoken(None, Some(1)), Err(DecodingError::MissingField));
}

#[test]
fn timetoken_that_is_not_decimal_is_invalid() {
    assert_eq!(decode_timetoken(Some("abc"), None), Err(DecodingError::InvalidTimetoken));
    assert_eq!(decode_timetoken(Some(""), None), Err(DecodingError::InvalidTimetoken));
    assert_eq!(
        decode_timetoken(Some("18446744073709551616"), None),
        Err(DecodingError::InvalidTimetoken)
    );
}

#[test]
fn publish_response_gives_region_zero() {
    assert_eq!(
        decode_publish_response(Some("15851350137251819")),
        Ok(Timetoken { t: 15851350137251819, r: 0 })
    );
    assert_eq!(decode_publish_response(None), Err(DecodingError::MissingField));
    assert_eq!(decode_publish_response(Some("x")), Err(DecodingError::InvalidTimetoken));
}

#[test]
fn message_with_every_field() {
    let full = WireMessage {
        type_code: Some(1),
        route: Some("group".to_string()),
        channel: Some("chan".to_string()),
        payload: "{\"a\":1}".to_string(),
        metadata: "{\"m\":2}".to_string(),
        timetoken: Some("42".to_string()),
        region: Some(3),
        client: Some("me".to_string()),
        subscribe_key: Some("demo".to_string()),
        flags: Some(514),
    };
    assert_eq!(
        decode_message(&full),
        Ok(Message {
            message_type: Type::Signal,
            route: Some("group".to_string()),
            channel: "chan".to_string(),
            json: "{\"a\":1}".to_string(),
            metadata: "{\"m\":2}".to_string(),
            timetoken: Timetoken { t: 42, r: 3 },
            client: Some("me".to_string()),
            subscribe_key: "demo".to_string(),
            flags: 514,
        })
    );
}

#[test]
fn message_with_defaults() {
    assert_eq!(
        decode_message(&wire("chan", "42")),
        Ok(Message {
            message_type: Type::Published,
            route: None,
            channel: "chan".to_string(),
            json: "\"hello\"".to_string(),
            metadata: "null".to_string(),
            timetoken: Timetoken { t: 42, r: 0 },
            client: None,
            subscribe_key: "demo".to_string(),
            flags: 0,
        })
    );
}

#[test]
fn message_without_a_required_field() {
    let mut no_channel = wire("chan", "42");
    no_channel.channel = None;
    assert_eq!(decode_message(&no_channel), Err(DecodingError::MissingField));
    let mut no_key = wire("chan", "42");
    no_key.subscribe_key = None;
    assert_eq!(decode_message(&no_key), Err(DecodingError::MissingField));
    let mut no_timetoken = wire("chan", "42");
    no_timetoken.timetoken = None;
    assert_eq!(decode_message(&no_timetoken), Err(DecodingError::MissingField));
}

#[test]
fn message_with_a_bad_timetoken() {
    assert_eq!(decode_message(&wire("chan", "4x2")), Err(DecodingError::InvalidTimetoken));
    let mut both = wire("chan", "4x2");
    both.channel = None;
    assert_eq!(decode_message(&both), Err(DecodingError::MissingField));
}

#[test]
fn subscribe_response_keeps_the_order_of_its_messages() {
    let wires = vec![wire("a", "1"), wire("b", "2"), wire("a", "3")];
    let (messages, timetoken) =
        decode_subscribe_response(Some("100"), Some(7), &wires).unwrap();
    assert_eq!(timetoken, Timetoken { t: 100, r: 7 });
    let channels: Vec<&str> = messages.iter().map(|m| m.channel.as_str()).collect();
    assert_eq!(channels, vec!["a", "b", "a"]);
    let stamps: Vec<u64> = messages.iter().map(|m| m.timetoken.t).collect();
    assert_eq!(stamps, vec![1, 2, 3]);
}

#[test]
fn subscribe_response_without_messages() {
    let wires: Vec<WireMessage> = Vec::new();
    assert_eq!(
        decode_subscribe_response(Some("100"), None, &wires),
        Ok((Vec::new(), Timetoken { t: 100, r: 0 }))
    );
}

#[test]
fn subscribe_response_fails_on_its_own_timetoken_first() {
    let mut bad = wire("a", "1");
    bad.channel = None;
    let wires = vec![bad];
    assert_eq!(
        decode_subscribe_response(Some("x"), None, &wires),
        Err(DecodingError::InvalidTimetoken)
    );
    assert_eq!(
        decode_subscribe_response(None, None, &wires),
        Err(DecodingError::MissingField)
    );
}

#[test]
fn subscribe_response_fails_on_the_first_bad_message() {
    let mut missing = wire("b", "2");
    missing.subscribe_key = None;
    let wires = vec![wire("a", "1"), wire("b", "x"), missing];
    assert_eq!(
        decode_subscribe_response(Some("100"), None, &wires),
        Err(DecodingError::InvalidTimetoken)
    );
    let mut missing = wire("b", "2");
    missing.subscribe_key = None;
    let wires = vec![wire("a", "1"), missing, wire("b", "x")];
    assert_eq!(
        decode_subscribe_response(Some("100"), None, &wires),
        Err(DecodingError::MissingField)
    );
}

#[test]
fn dispatch_name_prefers_the_route() {
    let mut message = decode_message(&wire("chan", "1")).unwrap();
    assert_eq!(message.dispatch_name(), "chan");
    message.route = Some("group".to_string());
    assert_eq!(message.dispatch_name(), "group");
}
