//! The decisions of the subscribe loop.
//!
//! The loop itself waits on two things at once, the control channel and the
//! long poll in flight, and that waiting belongs to the shell. What it does
//! with whichever comes first is decided here: a control command changes the
//! registries, a response moves the timetoken on and is fanned out to the
//! queues, a failure changes nothing.

use crate::decimal::{decimal_digits, push_u64};
use crate::encoded_channels_list::{encodes, EncodedChannelsList};
use crate::message::{Message, Timetoken};
use crate::mvec::live_values;
use crate::registry::{
    is_live, keys_are_live, registered, slots_of, unregistered, RegistrationEffect, Registry,
    UnregistrationEffect,
};
use vstd::prelude::*;
use vstd::string::*;

pub use crate::registry::ID as SubscriptionID;

verus! {

/// What a subscriber listens to: a channel, or a group of channels. The two
/// kinds of names do not share a namespace.
#[derive(Clone, Debug, Eq, PartialEq)]
pub enum ListenerType {
    Channel(String),
    _Group(String),
}

/// The commands that arrive on the control channel.
#[derive(Debug, Clone, PartialEq, Eq)]
pub enum ControlCommand {
    /// A stream is being dropped: its registration and what it listened to.
    Drop(SubscriptionID, ListenerType),
    /// A stream is being created: what it listens to and the handle of its
    /// queue.
    Add(ListenerType, u64),
}

/// Whether the loop goes on after a control command.
#[derive(Debug, Clone, Copy, PartialEq, Eq, Structural)]
pub enum ControlOutcome {
    Terminate,
    CanContinue,
}

/// What the loop answers to a control command.
#[derive(Debug, Clone, Copy, PartialEq, Eq)]
pub struct ControlReply {
    pub outcome: ControlOutcome,
    /// The registration of the stream that an `Add` created.
    pub id: Option<SubscriptionID>,
    /// The queue of the stream that a `Drop` took out.
    pub released: Option<u64>,
}

/// A `Drop` named a registration that is not live. The registries are as
/// they were; the task that runs the loop is expected to give up.
#[derive(Debug, Clone, Copy, PartialEq, Eq, Structural)]
pub struct InvariantViolation;

/// One message for one queue: the handle of the queue and the index of the
/// message in the response.
#[derive(Debug, Clone, Copy, PartialEq, Eq, Structural)]
pub struct Delivery {
    pub queue: u64,
    pub message: usize,
}

/// How a cache follows the key set of its registry through one change: it
/// is left alone while the key set stays, and encodes the new key set once it
/// moved.
pub open spec fn cache_follows(
    keys_before: Set<Seq<char>>,
    cache_before: Seq<char>,
    keys_after: Set<Seq<char>>,
    cache_after: Seq<char>,
) -> bool {
    if keys_after == keys_before {
        cache_after == cache_before
    } else {
        encodes(cache_after, keys_after)
    }
}

/// Registers `queue` under `name` and brings the cache up to date.
fn add_listener(
    registry: &mut Registry,
    cache: &mut EncodedChannelsList,
    name: String,
    queue: u64,
) -> (id: SubscriptionID)
    ensures
        final(registry)@ == registered(old(registry)@, name@, queue),
        id@ == slots_of(old(registry)@, name@).len(),
        cache_follows(
            old(registry).key_set(),
            old(cache)@,
            final(registry).key_set(),
            final(cache)@,
        ),
        old(registry).wf() ==> final(registry).wf(),
        final(registry).key_set_change_pending() == old(registry).key_set_change_pending(),
{
    let ghost name_view = name@;
    let (id, effect) = registry.register(name, queue);
    proof {
        assert(registry.key_set().contains(name_view));
    }
    match effect {
        RegistrationEffect::NewName => {
            *cache = EncodedChannelsList::from_registry(registry);
        },
        RegistrationEffect::ExistingName => {
            proof {
                assert(registry.key_set() =~= old(registry).key_set());
            }
        },
    }
    id
}

/// Unregisters slot `id` under `name` and brings the cache up to date.
/// Returns the queue that the slot held, if it was live.
fn drop_listener(
    registry: &mut Registry,
    cache: &mut EncodedChannelsList,
    name: &str,
    id: SubscriptionID,
) -> (released: Option<u64>)
    ensures
        final(registry)@ == unregistered(old(registry)@, name@, id@ as int),
        released is Some == is_live(old(registry)@, name@, id@ as int),
        released is Some ==> released == old(registry)@[name@][id@ as int],
        cache_follows(
            old(registry).key_set(),
            old(cache)@,
            final(registry).key_set(),
            final(cache)@,
        ),
        old(registry).wf() ==> final(registry).wf(),
        final(registry).key_set_change_pending() == old(registry).key_set_change_pending(),
{
    match registry.unregister(name, id) {
        None => None,
        Some((queue, effect)) => {
            match effect {
                UnregistrationEffect::NameErased => {
                    proof {
                        assert(old(registry).key_set().contains(name@));
                    }
                    *cache = EncodedChannelsList::from_registry(registry);
                },
                UnregistrationEffect::NamePreserved => {
                    proof {
                        assert(registry.key_set() =~= old(registry).key_set());
                    }
                },
            }
            Some(queue)
        },
    }
}

/// Whether `command` can be carried out: an `Add` always, a `Drop` where the
/// registration that it names is live.
pub open spec fn command_applies(
    channels: Map<Seq<char>, Seq<Option<u64>>>,
    groups: Map<Seq<char>, Seq<Option<u64>>>,
    command: ControlCommand,
) -> bool {
    match command {
        ControlCommand::Add(_, _) => true,
        ControlCommand::Drop(id, ListenerType::Channel(name)) => is_live(
            channels,
            name@,
            id@ as int,
        ),
        ControlCommand::Drop(id, ListenerType::_Group(name)) => is_live(groups, name@, id@ as int),
    }
}

/// The registry of channels after `command`.
pub open spec fn channels_after(
    channels: Map<Seq<char>, Seq<Option<u64>>>,
    command: ControlCommand,
) -> Map<Seq<char>, Seq<Option<u64>>> {
    match command {
        ControlCommand::Add(ListenerType::Channel(name), queue) => registered(
            channels,
            name@,
            queue,
        ),
        ControlCommand::Drop(id, ListenerType::Channel(name)) => unregistered(
            channels,
            name@,
            id@ as int,
        ),
        _ => channels,
    }
}

/// The registry of groups after `command`.
pub open spec fn groups_after(
    groups: Map<Seq<char>, Seq<Option<u64>>>,
    command: ControlCommand,
) -> Map<Seq<char>, Seq<Option<u64>>> {
    match command {
        ControlCommand::Add(ListenerType::_Group(name), queue) => registered(groups, name@, queue),
        ControlCommand::Drop(id, ListenerType::_Group(name)) => unregistered(
            groups,
            name@,
            id@ as int,
        ),
        _ => groups,
    }
}

/// The slot that `command` fills if it is an `Add`: the next one under its
/// name.
pub open spec fn slot_added(
    channels: Map<Seq<char>, Seq<Option<u64>>>,
    groups: Map<Seq<char>, Seq<Option<u64>>>,
    command: ControlCommand,
) -> int {
    match command {
        ControlCommand::Add(ListenerType::Channel(name), _) => slots_of(channels, name@).len() as int,
        ControlCommand::Add(ListenerType::_Group(name), _) => slots_of(groups, name@).len() as int,
        _ => 0,
    }
}

/// The queue in the slot that `command` names if it is a `Drop`.
pub open spec fn queue_dropped(
    channels: Map<Seq<char>, Seq<Option<u64>>>,
    groups: Map<Seq<char>, Seq<Option<u64>>>,
    command: ControlCommand,
) -> Option<u64> {
    match command {
        ControlCommand::Drop(id, ListenerType::Channel(name)) => channels[name@][id@ as int],
        ControlCommand::Drop(id, ListenerType::_Group(name)) => groups[name@][id@ as int],
        _ => None,
    }
}

/// Handles what the control channel yielded.
///
/// `None`, a closed channel, changes nothing and lets the loop go on. An
/// `Add` registers the queue under its name and answers with the
/// registration. A `Drop` unregisters, and ends the loop if that left both
/// registries empty; a `Drop` of a registration that is not live is an
/// invariant violation and changes nothing. A cache is encoded anew exactly
/// when the key set of its registry moved.
pub fn handle_control_command(
    channels: &mut Registry,
    groups: &mut Registry,
    encoded_channels: &mut EncodedChannelsList,
    encoded_groups: &mut EncodedChannelsList,
    msg: Option<ControlCommand>,
) -> (out: Result<ControlReply, InvariantViolation>)
    ensures
        msg is None ==> final(channels)@ == old(channels)@ && final(groups)@ == old(groups)@,
        msg matches Some(command) ==> final(channels)@ == channels_after(old(channels)@, command)
            && final(groups)@ == groups_after(old(groups)@, command),
        cache_follows(
            old(channels).key_set(),
            old(encoded_channels)@,
            final(channels).key_set(),
            final(encoded_channels)@,
        ),
        cache_follows(
            old(groups).key_set(),
            old(encoded_groups)@,
            final(groups).key_set(),
            final(encoded_groups)@,
        ),
        out is Ok == (msg matches Some(command) ==> command_applies(
            old(channels)@,
            old(groups)@,
            command,
        )),
        out matches Ok(reply) ==> (reply.outcome == ControlOutcome::Terminate) == (msg matches Some(
            ControlCommand::Drop(_, _),
        ) && final(channels).key_set().is_empty() && final(groups).key_set().is_empty()),
        out matches Ok(reply) ==> reply.id is Some == (msg matches Some(ControlCommand::Add(_, _))),
        out matches Ok(reply) ==> (reply.id matches Some(id) ==> msg matches Some(command)
            && id@ == slot_added(old(channels)@, old(groups)@, command)),
        out matches Ok(reply) ==> reply.released is Some == (msg matches Some(
            ControlCommand::Drop(_, _),
        )),
        out matches Ok(reply) ==> (msg matches Some(command) ==> (reply.released is Some
            ==> reply.released == queue_dropped(old(channels)@, old(groups)@, command))),
        old(channels).wf() ==> final(channels).wf(),
        old(groups).wf() ==> final(groups).wf(),
        final(channels).key_set_change_pending() == old(channels).key_set_change_pending(),
        final(groups).key_set_change_pending() == old(groups).key_set_change_pending(),
{
    let request = match msg {
        Some(request) => request,
        None => {
            return Ok(
                ControlReply { outcome: ControlOutcome::CanContinue, id: None, released: None },
            );
        },
    };
    match request {
        ControlCommand::Drop(id, listener) => {
            let released = match listener {
                ListenerType::Channel(name) => drop_listener(
                    channels,
                    encoded_channels,
                    name.as_str(),
                    id,
                ),
                ListenerType::_Group(name) => drop_listener(
                    groups,
                    encoded_groups,
                    name.as_str(),
                    id,
                ),
            };
            if released.is_none() {
                return Err(InvariantViolation);
            }
            if channels.is_empty() && groups.is_empty() {
                Ok(ControlReply { outcome: ControlOutcome::Terminate, id: None, released })
            } else {
                Ok(ControlReply { outcome: ControlOutcome::CanContinue, id: None, released })
            }
        },
        ControlCommand::Add(listener, queue) => {
            let id = match listener {
                ListenerType::Channel(name) => add_listener(
                    channels,
                    encoded_channels,
                    name,
                    queue,
                ),
                ListenerType::_Group(name) => add_listener(groups, encoded_groups, name, queue),
            };
            Ok(ControlReply { outcome: ControlOutcome::CanContinue, id: Some(id), released: None })
        },
    }
}

/// The names under which `messages` are dispatched, in their order.
pub open spec fn routes_of(messages: Seq<Message>) -> Seq<Seq<char>> {
    Seq::new(messages.len(), |i: int| messages[i].route_name())
}

/// The deliveries of message `index`: one for each queue, in the order of
/// `queues`.
pub open spec fn deliveries_of(queues: Seq<u64>, index: int) -> Seq<Delivery> {
    Seq::new(queues.len(), |k: int| Delivery { queue: queues[k], message: index as usize })
}

/// The deliveries of a whole response: message after message, and for each
/// message the live slots under its route by ascending index. A message whose
/// route nobody listens to has none.
pub open spec fn fan_out(slots: Map<Seq<char>, Seq<Option<u64>>>, routes: Seq<Seq<char>>) -> Seq<
    Delivery,
>
    decreases routes.len(),
{
    if routes.len() == 0 {
        Seq::empty()
    } else {
        fan_out(slots, routes.drop_last()) + deliveries_of(
            live_values(slots_of(slots, routes.last())),
            routes.len() - 1,
        )
    }
}

/// Plans the distribution of `messages` to the queues that `channels` holds:
/// each message goes to every live slot under its route, slot after slot, and
/// the next message only after that.
pub fn dispatch(channels: &mut Registry, messages: &Vec<Message>) -> (out: Vec<Delivery>)
    ensures
        out@ == fan_out(old(channels)@, routes_of(messages@)),
        final(channels)@ == old(channels)@,
        final(channels).key_set_change_pending() == old(channels).key_set_change_pending(),
{
    let mut out: Vec<Delivery> = Vec::new();
    let mut i: usize = 0;
    while i < messages.len()
        invariant
            i <= messages@.len(),
            channels@ == old(channels)@,
            channels.key_set_change_pending() == old(channels).key_set_change_pending(),
            out@ == fan_out(channels@, routes_of(messages@).take(i as int)),
        decreases messages@.len() - i,
    {
        let ghost done = out@;
        let ghost routes = routes_of(messages@).take(i + 1);
        proof {
            assert(routes.drop_last() =~= routes_of(messages@).take(i as int));
            assert(routes.last() == messages@[i as int].route_name());
        }
        let listeners = match channels.get_iter_mut(messages[i].dispatch_name()) {
            Some(listeners) => listeners,
            None => Vec::new(),
        };
        proof {
            assert(listeners@ =~= live_values(slots_of(channels@, routes.last())));
        }
        let mut k: usize = 0;
        while k < listeners.len()
            invariant
                k <= listeners@.len(),
                i < messages@.len(),
                out@ == done + deliveries_of(listeners@, i as int).take(k as int),
            decreases listeners@.len() - k,
        {
            out.push(Delivery { queue: listeners[k], message: i });
            proof {
                assert(out@ =~= done + deliveries_of(listeners@, i as int).take(k + 1));
            }
            k += 1;
        }
        proof {
            assert(deliveries_of(listeners@, i as int).take(k as int) =~= deliveries_of(
                listeners@,
                i as int,
            ));
        }
        i += 1;
    }
    proof {
        assert(routes_of(messages@).take(i as int) =~= routes_of(messages@));
    }
    out
}

/// The text of a long-poll request: where to ask, for whom, for which
/// channels and groups, and from which timetoken on.
pub open spec fn subscribe_url_text(
    origin: Seq<char>,
    subscribe_key: Seq<char>,
    channels: Seq<char>,
    groups: Seq<char>,
    timetoken: Timetoken,
) -> Seq<char> {
    origin + "/v2/subscribe/"@ + subscribe_key + "/"@ + channels + "/0?channel-group="@ + groups
        + "&tt="@ + decimal_digits(timetoken.t as nat) + "&tr="@ + decimal_digits(
        timetoken.r as nat,
    )
}

/// Builds the URL of a long-poll request from the encoded channel list, the
/// text for the position of the groups, and the timetoken to continue from.
pub fn subscribe_url(
    origin: &str,
    subscribe_key: &str,
    channels: &str,
    groups: &str,
    timetoken: Timetoken,
) -> (out: String)
    ensures
        out@ == subscribe_url_text(origin@, subscribe_key@, channels@, groups@, timetoken),
{
    let mut url = String::new();
    url.append(origin);
    url.append("/v2/subscribe/");
    url.append(subscribe_key);
    url.append("/");
    url.append(channels);
    url.append("/0?channel-group=");
    url.append(groups);
    url.append("&tt=");
    push_u64(&mut url, timetoken.t);
    url.append("&tr=");
    push_u64(&mut url, timetoken.r as u64);
    proof {
        assert(url@ =~= subscribe_url_text(origin@, subscribe_key@, channels@, groups@, timetoken));
    }
    url
}

/// What the loop is started with.
#[derive(Debug)]
pub struct SubscribeLoopParams {
    /// Where the service is reached, scheme and host.
    pub origin: String,
    /// How the client names itself to the service.
    pub agent: String,
    pub subscribe_key: String,
    pub channels: Registry,
    pub groups: Registry,
    /// Whether somebody waits for the sign that the first poll succeeded.
    pub ready: bool,
}

/// What happened while the loop waited.
#[derive(Debug, Clone, PartialEq, Eq)]
pub enum LoopEvent {
    /// The control channel yielded a command, or `None` because it is
    /// closed.
    Control(Option<ControlCommand>),
    /// The long poll came back with messages and the timetoken to continue
    /// from.
    Response(Vec<Message>, Timetoken),
    /// The long poll failed, in transport or in decoding.
    Failure,
}

/// What the shell has to do before it waits again.
#[derive(Debug, Clone, PartialEq, Eq)]
pub enum LoopAction {
    /// Nothing but to issue the next request.
    Poll,
    /// Answer the new subscriber with its registration, then issue the next
    /// request.
    Reply(SubscriptionID),
    /// Let go of the queue of the subscription that was dropped, then issue
    /// the next request.
    Release(u64),
    /// Give the sign of readiness if `fire_ready` says so, enqueue a copy of
    /// `messages[d.message]` on queue `d.queue` for each delivery `d`, one
    /// after the other, then issue the next request.
    Deliver { fire_ready: bool, messages: Vec<Message>, deliveries: Vec<Delivery> },
    /// Leave the loop: the last subscription is gone.
    Exit,
    /// Give up: the loop was asked for what cannot be.
    Abort(InvariantViolation),
}

/// The state of the loop as contracts see it.
pub struct LoopState {
    pub origin: Seq<char>,
    pub subscribe_key: Seq<char>,
    pub channels: Map<Seq<char>, Seq<Option<u64>>>,
    pub groups: Map<Seq<char>, Seq<Option<u64>>>,
    pub encoded_channels: Seq<char>,
    pub encoded_groups: Seq<char>,
    pub timetoken: Timetoken,
    pub ready_pending: bool,
}

impl LoopState {
    /// The invariant of the loop: both registries keep only names with a
    /// live slot, and each cache encodes the key set of its registry.
    pub open spec fn wf(self) -> bool {
        &&& keys_are_live(self.channels)
        &&& keys_are_live(self.groups)
        &&& encodes(self.encoded_channels, self.channels.dom())
        &&& encodes(self.encoded_groups, self.groups.dom())
    }

    /// The text of the request that the loop issues in this state. Where no
    /// group is registered, `-` stands in the position of the groups.
    pub open spec fn request_text(self) -> Seq<char> {
        subscribe_url_text(
            self.origin,
            self.subscribe_key,
            self.encoded_channels,
            if self.groups.dom().is_empty() {
                "-"@
            } else {
                self.encoded_groups
            },
            self.timetoken,
        )
    }
}

/// One step of the loop on a control event: from `before` to `after`, with
/// `action` for the shell.
pub open spec fn controls(
    before: LoopState,
    msg: Option<ControlCommand>,
    after: LoopState,
    action: LoopAction,
) -> bool {
    &&& after.origin == before.origin
    &&& after.subscribe_key == before.subscribe_key
    &&& after.timetoken == before.timetoken
    &&& after.ready_pending == before.ready_pending
    &&& cache_follows(
        before.channels.dom(),
        before.encoded_channels,
        after.channels.dom(),
        after.encoded_channels,
    )
    &&& cache_follows(
        before.groups.dom(),
        before.encoded_groups,
        after.groups.dom(),
        after.encoded_groups,
    )
    &&& match msg {
        None => after.channels == before.channels && after.groups == before.groups && action
            == LoopAction::Poll,
        Some(command) => {
            &&& after.channels == channels_after(before.channels, command)
            &&& after.groups == groups_after(before.groups, command)
            &&& if !command_applies(before.channels, before.groups, command) {
                action == LoopAction::Abort(InvariantViolation)
            } else if command is Add {
                action matches LoopAction::Reply(id) && id@ == slot_added(
                    before.channels,
                    before.groups,
                    command,
                )
            } else if after.channels.dom().is_empty() && after.groups.dom().is_empty() {
                action == LoopAction::Exit
            } else {
                Some(action) == match queue_dropped(before.channels, before.groups, command) {
                    Some(queue) => Some(LoopAction::Release(queue)),
                    None => None,
                }
            }
        },
    }
}

/// One step of the loop: from `before` to `after` on `event`, with `action`
/// for the shell.
pub open spec fn steps(
    before: LoopState,
    event: LoopEvent,
    after: LoopState,
    action: LoopAction,
) -> bool {
    match event {
        LoopEvent::Control(msg) => controls(before, msg, after, action),
        LoopEvent::Response(messages, next) => {
            &&& after == (LoopState { timetoken: next, ready_pending: false, ..before })
            &&& action matches LoopAction::Deliver { fire_ready, messages: handed, deliveries }
            &&& fire_ready == before.ready_pending
            &&& handed == messages
            &&& deliveries@ == fan_out(before.channels, routes_of(messages@))
        },
        LoopEvent::Failure => after == before && action == LoopAction::Poll,
    }
}

/// The subscribe loop between two waits: the registries of channels and of
/// groups, their encoded lists, and the timetoken to continue from.
#[derive(Debug)]
pub struct SubscribeLoop {
    origin: String,
    subscribe_key: String,
    channels: Registry,
    groups: Registry,
    encoded_channels: EncodedChannelsList,
    encoded_groups: EncodedChannelsList,
    timetoken: Timetoken,
    ready_pending: bool,
}

impl View for SubscribeLoop {
    type V = LoopState;

    closed spec fn view(&self) -> LoopState {
        LoopState {
            origin: self.origin@,
            subscribe_key: self.subscribe_key@,
            channels: self.channels@,
            groups: self.groups@,
            encoded_channels: self.encoded_channels@,
            encoded_groups: self.encoded_groups@,
            timetoken: self.timetoken,
            ready_pending: self.ready_pending,
        }
    }
}

impl SubscribeLoop {
    /// The loop before its first request: the registries as given, their
    /// lists encoded, and the timetoken of a first connect.
    pub fn new(params: SubscribeLoopParams) -> (out: Self)
        ensures
            out@.origin == params.origin@,
            out@.subscribe_key == params.subscribe_key@,
            out@.channels == params.channels@,
            out@.groups == params.groups@,
            encodes(out@.encoded_channels, out@.channels.dom()),
            encodes(out@.encoded_groups, out@.groups.dom()),
            out@.timetoken == (Timetoken { t: 0, r: 0 }),
            out@.ready_pending == params.ready,
            params.channels.wf() && params.groups.wf() ==> out@.wf(),
    {
        let encoded_channels = EncodedChannelsList::from_registry(&params.channels);
        let encoded_groups = EncodedChannelsList::from_registry(&params.groups);
        SubscribeLoop {
            origin: params.origin,
            subscribe_key: params.subscribe_key,
            channels: params.channels,
            groups: params.groups,
            encoded_channels,
            encoded_groups,
            timetoken: Timetoken { t: 0, r: 0 },
            ready_pending: params.ready,
        }
    }

    /// The URL of the request to issue now.
    pub fn request_url(&self) -> (out: String)
        ensures
            out@ == self@.request_text(),
    {
        let groups = if self.groups.is_empty() {
            "-"
        } else {
            self.encoded_groups.as_str()
        };
        subscribe_url(
            self.origin.as_str(),
            self.subscribe_key.as_str(),
            self.encoded_channels.as_str(),
            groups,
            self.timetoken,
        )
    }

    /// The timetoken that the next request continues from.
    pub fn timetoken(&self) -> (out: Timetoken)
        ensures
            out == self@.timetoken,
    {
        self.timetoken
    }

    /// Takes `event` in and says what the shell has to do. Only a `Drop`
    /// that empties both registries ends the loop; a failed poll changes
    /// nothing, the timetoken included.
    pub fn step(&mut self, event: LoopEvent) -> (action: LoopAction)
        ensures
            steps(old(self)@, event, final(self)@, action),
            old(self)@.wf() ==> final(self)@.wf(),
    {
        match event {
            LoopEvent::Control(msg) => {
                let outcome = handle_control_command(
                    &mut self.channels,
                    &mut self.groups,
                    &mut self.encoded_channels,
                    &mut self.encoded_groups,
                    msg,
                );
                match outcome {
                    Err(violation) => LoopAction::Abort(violation),
                    Ok(reply) => match reply.outcome {
                        ControlOutcome::Terminate => LoopAction::Exit,
                        ControlOutcome::CanContinue => match (reply.id, reply.released) {
                            (Some(id), _) => LoopAction::Reply(id),
                            (None, Some(queue)) => LoopAction::Release(queue),
                            (None, None) => LoopAction::Poll,
                        },
                    },
                }
            },
            LoopEvent::Response(messages, next) => {
                let fire_ready = self.ready_pending;
                self.ready_pending = false;
                self.timetoken = next;
                let deliveries = dispatch(&mut self.channels, &messages);
                LoopAction::Deliver { fire_ready, messages, deliveries }
            },
            LoopEvent::Failure => LoopAction::Poll,
        }
    }
}

} // verus!
