//! What goes to the transport and what comes back from it: the URL of a
//! publish request, and the fields of the two responses once the JSON text
//! has been taken apart.

use crate::decimal::{decimal_value, is_decimal, parse_u64};
use crate::encoded_channels_list::{encoded_name, percent_encode};
use crate::message::{Message, Timetoken, Type};
use vstd::prelude::*;
use vstd::string::*;

verus! {

/// Why a response could not be read.
#[derive(Debug, Clone, Copy, PartialEq, Eq, Structural)]
pub enum DecodingError {
    /// The body is not JSON.
    MalformedJson,
    /// A field that every response carries is not there.
    MissingField,
    /// A timetoken is not a decimal number that fits 64 bits.
    InvalidTimetoken,
}

/// The text of a publish request.
pub open spec fn publish_url_text(
    origin: Seq<char>,
    publish_key: Seq<char>,
    subscribe_key: Seq<char>,
    channel: Seq<char>,
    payload: Seq<char>,
) -> Seq<char> {
    origin + "/publish/"@ + publish_key + "/"@ + subscribe_key + "/0/"@ + channel + "/0/"@
        + encoded_name(payload)
}

/// Builds the URL that publishes `payload`, a JSON text, on `channel`. The
/// payload is percent-encoded; the keys and the channel stand as given.
pub fn publish_url(
    origin: &str,
    publish_key: &str,
    subscribe_key: &str,
    channel: &str,
    payload: &str,
) -> (out: String)
    ensures
        out@ == publish_url_text(origin@, publish_key@, subscribe_key@, channel@, payload@),
{
    let mut url = String::new();
    url.append(origin);
    url.append("/publish/");
    url.append(publish_key);
    url.append("/");
    url.append(subscribe_key);
    url.append("/0/");
    url.append(channel);
    url.append("/0/");
    let encoded = percent_encode(payload);
    url.append(encoded.as_str());
    proof {
        assert(url@ =~= publish_url_text(
            origin@,
            publish_key@,
            subscribe_key@,
            channel@,
            payload@,
        ));
    }
    url
}

/// The timetoken that the fields `t` and `r` of the wire stand for: `t` has
/// to be there and to be decimal, a missing `r` is region 0.
pub open spec fn timetoken_of(t: Option<Seq<char>>, r: Option<u32>) -> Result<
    Timetoken,
    DecodingError,
> {
    match t {
        None => Err(DecodingError::MissingField),
        Some(text) => if is_decimal(text) && decimal_value(text) <= u64::MAX {
            Ok(
                Timetoken {
                    t: decimal_value(text) as u64,
                    r: match r {
                        Some(r) => r,
                        None => 0,
                    },
                },
            )
        } else {
            Err(DecodingError::InvalidTimetoken)
        },
    }
}

/// The view of an optional text.
pub open spec fn text_of(text: Option<&str>) -> Option<Seq<char>> {
    match text {
        Some(text) => Some(text@),
        None => None,
    }
}

/// Reads a timetoken from its two fields.
pub fn decode_timetoken(t: Option<&str>, r: Option<u32>) -> (out: Result<Timetoken, DecodingError>)
    ensures
        out == timetoken_of(text_of(t), r),
{
    let text = match t {
        Some(text) => text,
        None => {
            return Err(DecodingError::MissingField);
        },
    };
    match parse_u64(text) {
        None => Err(DecodingError::InvalidTimetoken),
        Some(value) => Ok(
            Timetoken {
                t: value,
                r: match r {
                    Some(r) => r,
                    None => 0,
                },
            },
        ),
    }
}

/// Reads the answer to a publish request: of the array that the service
/// sends, only the third element counts, the timetoken of the message.
pub fn decode_publish_response(timetoken: Option<&str>) -> (out: Result<Timetoken, DecodingError>)
    ensures
        out == timetoken_of(text_of(timetoken), None),
{
    decode_timetoken(timetoken, None)
}

/// One message of a subscribe response, field by field as the wire has it.
/// Payload and metadata are JSON text, `null` where the wire has none.
#[derive(Debug, Clone, PartialEq, Eq)]
pub struct WireMessage {
    /// `e`: the code of the message type.
    pub type_code: Option<u32>,
    /// `b`: the channel group that the message came through.
    pub route: Option<String>,
    /// `c`: the channel.
    pub channel: Option<String>,
    /// `d`: the payload.
    pub payload: String,
    /// `u`: the metadata.
    pub metadata: String,
    /// `p.t`: when the message was published.
    pub timetoken: Option<String>,
    /// `p.r`: the region that published it.
    pub region: Option<u32>,
    /// `i`: who published it.
    pub client: Option<String>,
    /// `k`: the subscribe key.
    pub subscribe_key: Option<String>,
    /// `f`: the flags.
    pub flags: Option<u32>,
}

/// The view of an optional owned text.
pub open spec fn owned_text_of(text: Option<String>) -> Option<Seq<char>> {
    match text {
        Some(text) => Some(text@),
        None => None,
    }
}

/// The message that `wire` stands for. Channel, subscribe key and timetoken
/// have to be there; a missing type code means a published message, missing
/// flags and a missing region are 0, route and client may be absent.
pub open spec fn message_of(wire: WireMessage) -> Result<Message, DecodingError> {
    if wire.channel is None || wire.subscribe_key is None {
        Err(DecodingError::MissingField)
    } else {
        match timetoken_of(owned_text_of(wire.timetoken), wire.region) {
            Err(error) => Err(error),
            Ok(timetoken) => Ok(
                Message {
                    message_type: Type::of_code(wire.type_code),
                    route: wire.route,
                    channel: wire.channel->0,
                    json: wire.payload,
                    metadata: wire.metadata,
                    timetoken,
                    client: wire.client,
                    subscribe_key: wire.subscribe_key->0,
                    flags: match wire.flags {
                        Some(flags) => flags,
                        None => 0,
                    },
                },
            ),
        }
    }
}

fn copy_of(text: &Option<String>) -> (out: Option<String>)
    ensures
        out == *text,
{
    match text {
        Some(text) => Some(text.clone()),
        None => None,
    }
}

/// Reads one message of a subscribe response.
pub fn decode_message(wire: &WireMessage) -> (out: Result<Message, DecodingError>)
    ensures
        out == message_of(*wire),
{
    let channel = match &wire.channel {
        Some(channel) => channel.clone(),
        None => {
            return Err(DecodingError::MissingField);
        },
    };
    let subscribe_key = match &wire.subscribe_key {
        Some(subscribe_key) => subscribe_key.clone(),
        None => {
            return Err(DecodingError::MissingField);
        },
    };
    let timetoken = match &wire.timetoken {
        Some(text) => decode_timetoken(Some(text.as_str()), wire.region),
        None => decode_timetoken(None, wire.region),
    };
    let timetoken = match timetoken {
        Ok(timetoken) => timetoken,
        Err(error) => {
            return Err(error);
        },
    };
    Ok(
        Message {
            message_type: Type::from_code(wire.type_code),
            route: copy_of(&wire.route),
            channel,
            json: wire.payload.clone(),
            metadata: wire.metadata.clone(),
            timetoken,
            client: copy_of(&wire.client),
            subscribe_key,
            flags: match wire.flags {
                Some(flags) => flags,
                None => 0,
            },
        },
    )
}

/// The messages that `wires` stand for, in their order, or what is wrong
/// with the first of them that cannot be read.
pub open spec fn messages_of(wires: Seq<WireMessage>) -> Result<Seq<Message>, DecodingError>
    decreases wires.len(),
{
    if wires.len() == 0 {
        Ok(Seq::empty())
    } else {
        match messages_of(wires.drop_last()) {
            Err(error) => Err(error),
            Ok(messages) => match message_of(wires.last()) {
                Err(error) => Err(error),
                Ok(message) => Ok(messages.push(message)),
            },
        }
    }
}

/// What a subscribe response stands for: the messages in the order of the
/// response and the timetoken to continue from, or the first thing that
/// cannot be read, the timetoken of the response before its messages.
pub open spec fn response_of(t: Option<Seq<char>>, r: Option<u32>, wires: Seq<WireMessage>) -> Result<
    (Seq<Message>, Timetoken),
    DecodingError,
> {
    match timetoken_of(t, r) {
        Err(error) => Err(error),
        Ok(timetoken) => match messages_of(wires) {
            Err(error) => Err(error),
            Ok(messages) => Ok((messages, timetoken)),
        },
    }
}

/// A prefix that cannot be read spoils every longer one, with the same
/// error.
proof fn lemma_first_error_stays(wires: Seq<WireMessage>, count: int)
    requires
        0 <= count <= wires.len(),
        messages_of(wires.take(count)) is Err,
    ensures
        messages_of(wires) == messages_of(wires.take(count)),
    decreases wires.len() - count,
{
    if count == wires.len() {
        assert(wires.take(count) =~= wires);
    } else {
        assert(wires.take(count + 1).drop_last() =~= wires.take(count));
        lemma_first_error_stays(wires, count + 1);
    }
}

/// Reads a subscribe response: its timetoken from the fields `t.t` and `t.r`,
/// and its messages one by one.
pub fn decode_subscribe_response(t: Option<&str>, r: Option<u32>, wires: &Vec<WireMessage>) -> (out:
    Result<(Vec<Message>, Timetoken), DecodingError>)
    ensures
        out is Ok == response_of(text_of(t), r, wires@) is Ok,
        out matches Ok(response) ==> response_of(text_of(t), r, wires@) matches Ok(expected)
            && response.0@ == expected.0 && response.1 == expected.1,
        out matches Err(error) ==> response_of(text_of(t), r, wires@) matches Err(expected)
            && error == expected,
{
    let timetoken = match decode_timetoken(t, r) {
        Ok(timetoken) => timetoken,
        Err(error) => {
            return Err(error);
        },
    };
    let mut messages: Vec<Message> = Vec::new();
    let mut i: usize = 0;
    while i < wires.len()
        invariant
            i <= wires@.len(),
            timetoken_of(text_of(t), r) is Ok,
            messages_of(wires@.take(i as int)) matches Ok(done) && done == messages@,
        decreases wires@.len() - i,
    {
        proof {
            let next = wires@.take(i + 1);
            assert(next.drop_last() =~= wires@.take(i as int));
            assert(next.last() == wires@[i as int]);
        }
        match decode_message(&wires[i]) {
            Ok(message) => {
                messages.push(message);
            },
            Err(error) => {
                proof {
                    assert(messages_of(wires@.take(i + 1)) is Err);
                    lemma_first_error_stays(wires@, i + 1);
                }
                return Err(error);
            },
        }
        i += 1;
    }
    proof {
        assert(wires@.take(i as int) =~= wires@);
    }
    Ok((messages, timetoken))
}

} // verus!
