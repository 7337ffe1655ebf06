//! The core of an asynchronous publish/subscribe client: the registry of
//! subscriber queues and the decisions of the loop that multiplexes every
//! subscription onto one long-poll request.
//!
//! Everything here is synchronous and works on plain values. The shell that
//! owns the sockets, the tasks and the queues feeds events in and carries the
//! returned actions out.

pub mod decimal;
pub mod encoded_channels_list;
pub mod message;
pub mod mvec;
pub mod registry;
pub mod registry_laws;
pub mod subscribe_loop;
pub mod subscribe_loop_laws;
mod text;
pub mod transport;

pub use crate::message::{Message, Timetoken, Type};
pub use crate::registry::{RegistrationEffect, Registry, UnregistrationEffect, ID};
