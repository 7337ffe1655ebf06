//! The channel list as it stands in a request path: every name
//! percent-encoded, the names joined by commas.

use crate::registry::{is_listing_of, names_of, Registry};
use crate::text::push_char;
use vstd::prelude::*;
use vstd::string::*;

verus! {

/// The bytes that stand for themselves in an encoded name: ASCII letters and
/// digits.
pub open spec fn is_plain(byte: u8) -> bool {
    ||| 0x30 <= byte <= 0x39
    ||| 0x41 <= byte <= 0x5a
    ||| 0x61 <= byte <= 0x7a
}

/// The upper-case hexadecimal digit of a value below 16.
pub open spec fn hex_digit(nibble: u8) -> char {
    if nibble < 10 {
        (0x30 + nibble) as u8 as char
    } else {
        (0x41 + nibble - 10) as u8 as char
    }
}

/// What one byte becomes: itself where it is plain, else `%` and its two
/// hexadecimal digits.
pub open spec fn encoded_byte(byte: u8) -> Seq<char> {
    if is_plain(byte) {
        seq![byte as char]
    } else {
        seq!['%', hex_digit(byte / 16), hex_digit(byte % 16)]
    }
}

/// The encodings of `bytes`, one after the other.
pub open spec fn percent_encoded(bytes: Seq<u8>) -> Seq<char>
    decreases bytes.len(),
{
    if bytes.len() == 0 {
        Seq::empty()
    } else {
        percent_encoded(bytes.drop_last()) + encoded_byte(bytes.last())
    }
}

/// A name as it stands in a URL: the percent-encoding of its UTF-8 bytes.
pub open spec fn encoded_name(name: Seq<char>) -> Seq<char> {
    percent_encoded(vstd::utf8::encode_utf8(name))
}

/// The encoded names, in the order of `names`, with a comma between two
/// neighbours.
pub open spec fn joined(names: Seq<Seq<char>>) -> Seq<char>
    decreases names.len(),
{
    if names.len() == 0 {
        Seq::empty()
    } else if names.len() == 1 {
        encoded_name(names[0])
    } else {
        joined(names.drop_last()) + seq![','] + encoded_name(names.last())
    }
}

/// Whether `text` is the joined encoding of `keys`, taken once each in some
/// order.
pub open spec fn encodes(text: Seq<char>, keys: Set<Seq<char>>) -> bool {
    exists|names: Seq<Seq<char>>| is_listing_of(names, keys) && text == #[trigger] joined(names)
}

fn hex_digit_of(nibble: u8) -> (out: char)
    requires
        nibble < 16,
    ensures
        out == hex_digit(nibble),
{
    if nibble < 10 {
        (0x30 + nibble) as char
    } else {
        (0x41 + (nibble - 10)) as char
    }
}

/// Appends the percent-encoding of `text` to `out`.
fn push_encoded(out: &mut String, text: &str)
    ensures
        final(out)@ == old(out)@ + encoded_name(text@),
{
    let bytes = text.as_bytes();
    let mut i: usize = 0;
    while i < bytes.len()
        invariant
            i <= bytes@.len(),
            bytes@ == vstd::utf8::encode_utf8(text@),
            out@ == old(out)@ + percent_encoded(bytes@.take(i as int)),
        decreases bytes@.len() - i,
    {
        let byte = bytes[i];
        proof {
            let next = bytes@.take(i + 1);
            assert(next.drop_last() =~= bytes@.take(i as int));
            assert(next.last() == byte);
        }
        let plain = (0x30 <= byte && byte <= 0x39) || (0x41 <= byte && byte <= 0x5a) || (0x61
            <= byte && byte <= 0x7a);
        if plain {
            push_char(out, byte as char);
        } else {
            push_char(out, '%');
            push_char(out, hex_digit_of(byte / 16));
            push_char(out, hex_digit_of(byte % 16));
        }
        proof {
            assert(out@ =~= old(out)@ + percent_encoded(bytes@.take(i + 1)));
        }
        i += 1;
    }
    proof {
        assert(bytes@.take(i as int) =~= bytes@);
    }
}

/// Percent-encodes one name: letters and digits stay, every other byte of
/// its UTF-8 form becomes `%` and two upper-case hexadecimal digits.
pub fn percent_encode(text: &str) -> (out: String)
    ensures
        out@ == encoded_name(text@),
{
    let mut out = String::new();
    push_encoded(&mut out, text);
    proof {
        assert(Seq::<char>::empty() + encoded_name(text@) =~= encoded_name(text@));
    }
    out
}

/// The encoded list of the names that a registry holds, ready to stand in a
/// request path.
#[derive(Debug, Clone, PartialEq, Eq)]
pub struct EncodedChannelsList {
    text: String,
}

impl View for EncodedChannelsList {
    type V = Seq<char>;

    closed spec fn view(&self) -> Seq<char> {
        self.text@
    }
}

impl EncodedChannelsList {
    /// The encoding of `names`, in their order.
    pub fn from_names(names: &Vec<String>) -> (out: Self)
        ensures
            out@ == joined(names_of(names@)),
    {
        let mut text = String::new();
        let mut i: usize = 0;
        while i < names.len()
            invariant
                i <= names@.len(),
                text@ == joined(names_of(names@).take(i as int)),
            decreases names@.len() - i,
        {
            proof {
                let next = names_of(names@).take(i + 1);
                assert(next.drop_last() =~= names_of(names@).take(i as int));
                assert(next.last() == names@[i as int]@);
                if i == 0 {
                    assert(next[0] == next.last());
                    assert(text@ + encoded_name(next.last()) =~= encoded_name(next.last()));
                }
            }
            if i > 0 {
                push_char(&mut text, ',');
            }
            push_encoded(&mut text, names[i].as_str());
            proof {
                assert(text@ =~= joined(names_of(names@).take(i + 1)));
            }
            i += 1;
        }
        proof {
            assert(names_of(names@).take(i as int) =~= names_of(names@));
        }
        EncodedChannelsList { text }
    }

    /// The encoding of the key set of `registry`, in the order in which the
    /// registry lists its keys.
    pub fn from_registry(registry: &Registry) -> (out: Self)
        ensures
            encodes(out@, registry.key_set()),
    {
        let names = registry.keys();
        EncodedChannelsList::from_names(&names)
    }

    /// The encoded text.
    pub fn as_str(&self) -> (out: &str)
        ensures
            out@ == self@,
    {
        self.text.as_str()
    }
}

} // verus!
