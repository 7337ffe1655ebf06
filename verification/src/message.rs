//! The values that cross the boundary to the service: timetokens and messages.

use vstd::prelude::*;

verus! {

/// The cursor of a subscription: `t` is the position that the service
/// assigned, `r` the region that assigned it.
#[derive(Debug, Clone, Copy, PartialEq, Eq, Structural, Hash)]
pub struct Timetoken {
    pub t: u64,
    pub r: u32,
}

impl Timetoken {
    /// The lexicographic order on `(t, r)`: `self` is not after `other`.
    pub open spec fn le(self, other: Timetoken) -> bool {
        self.t < other.t || (self.t == other.t && self.r <= other.r)
    }

    /// Whether `self` is not after `other`, by `t` first and `r` second.
    pub fn not_after(&self, other: &Timetoken) -> (out: bool)
        ensures
            out == self.le(*other),
    {
        self.t < other.t || (self.t == other.t && self.r <= other.r)
    }
}

impl Default for Timetoken {
    /// The cursor of a first connect.
    fn default() -> (out: Self)
        ensures
            out == (Timetoken { t: 0, r: 0 }),
    {
        Timetoken { t: 0, r: 0 }
    }
}

/// What kind of message arrived.
#[derive(Debug, Clone, Copy, PartialEq, Eq, Structural, Hash)]
pub enum Type {
    /// A message that somebody published.
    Published,
    /// A signal.
    Signal,
    /// A change of an object.
    Objects,
    /// An action on a message.
    Action,
    /// A kind that this client does not know, with its code.
    Unknown(u32),
}

impl Type {
    /// The kind that a type code of the wire stands for. A message without a
    /// code was published.
    pub open spec fn of_code(code: Option<u32>) -> Type {
        match code {
            None => Type::Published,
            Some(code) => if code == 0 {
                Type::Published
            } else if code == 1 {
                Type::Signal
            } else if code == 2 {
                Type::Objects
            } else if code == 3 {
                Type::Action
            } else {
                Type::Unknown(code)
            },
        }
    }

    /// Reads a type code of the wire.
    pub fn from_code(code: Option<u32>) -> (out: Type)
        ensures
            out == Type::of_code(code),
    {
        match code {
            None | Some(0) => Type::Published,
            Some(1) => Type::Signal,
            Some(2) => Type::Objects,
            Some(3) => Type::Action,
            Some(code) => Type::Unknown(code),
        }
    }
}

/// One message of a subscribe response. The payload and its metadata are
/// kept as JSON text.
#[derive(Debug, Clone, PartialEq, Eq)]
pub struct Message {
    pub message_type: Type,
    /// The channel group that the message arrived through, if any.
    pub route: Option<String>,
    /// The channel that the message was published on.
    pub channel: String,
    pub json: String,
    pub metadata: String,
    pub timetoken: Timetoken,
    /// Who published the message, if the service says.
    pub client: Option<String>,
    pub subscribe_key: String,
    pub flags: u32,
}

impl Message {
    /// The name under which the message is dispatched: the route where there
    /// is one, else the channel.
    pub open spec fn route_name(&self) -> Seq<char> {
        match self.route {
            Some(route) => route@,
            None => self.channel@,
        }
    }

    /// The name under which the message is dispatched.
    pub fn dispatch_name(&self) -> (out: &str)
        ensures
            out@ == self.route_name(),
    {
        match &self.route {
            Some(route) => route.as_str(),
            None => self.channel.as_str(),
        }
    }
}

} // verus!
