//! What holds of the subscribe loop at every step.

use crate::encoded_channels_list::encodes;
use crate::message::Timetoken;
use crate::mvec::{has_live, live_values};
use crate::registry::{is_live, keys_are_live, slots_of};
use crate::registry_laws::{
    lemma_registered_keeps_keys_live, lemma_unregistered_keeps_keys_live,
};
use crate::subscribe_loop::{
    command_applies, deliveries_of, fan_out, steps, ControlCommand, Delivery, ListenerType,
    LoopAction, LoopEvent, LoopState,
};
use vstd::prelude::*;

verus! {

/// Whether `command` moves the key set of `slots`, the registry that it is
/// for: it adds a name that was no key, or drops the last live slot of one.
pub open spec fn moves_keys(
    slots: Map<Seq<char>, Seq<Option<u64>>>,
    name: Seq<char>,
    adds: bool,
    id: int,
) -> bool {
    if adds {
        !slots.dom().contains(name)
    } else {
        is_live(slots, name, id) && !has_live(slots[name].update(id, None))
    }
}

/// Whether `event` moves the key set of the channels.
pub open spec fn moves_channel_keys(before: LoopState, event: LoopEvent) -> bool {
    match event {
        LoopEvent::Control(Some(ControlCommand::Add(ListenerType::Channel(name), _))) => moves_keys(
            before.channels,
            name@,
            true,
            0,
        ),
        LoopEvent::Control(Some(ControlCommand::Drop(id, ListenerType::Channel(name)))) => moves_keys(
            before.channels,
            name@,
            false,
            id@ as int,
        ),
        _ => false,
    }
}

/// Whether `event` moves the key set of the groups.
pub open spec fn moves_group_keys(before: LoopState, event: LoopEvent) -> bool {
    match event {
        LoopEvent::Control(Some(ControlCommand::Add(ListenerType::_Group(name), _))) => moves_keys(
            before.groups,
            name@,
            true,
            0,
        ),
        LoopEvent::Control(Some(ControlCommand::Drop(id, ListenerType::_Group(name)))) => moves_keys(
            before.groups,
            name@,
            false,
            id@ as int,
        ),
        _ => false,
    }
}

/// A step keeps the invariant of the loop.
pub proof fn lemma_step_keeps_invariant(
    before: LoopState,
    event: LoopEvent,
    after: LoopState,
    action: LoopAction,
)
    requires
        before.wf(),
        steps(before, event, after, action),
    ensures
        after.wf(),
{
    match event {
        LoopEvent::Control(Some(ControlCommand::Add(ListenerType::Channel(name), queue))) => {
            lemma_registered_keeps_keys_live(before.channels, name@, queue);
        },
        LoopEvent::Control(Some(ControlCommand::Add(ListenerType::_Group(name), queue))) => {
            lemma_registered_keeps_keys_live(before.groups, name@, queue);
        },
        LoopEvent::Control(Some(ControlCommand::Drop(id, ListenerType::Channel(name)))) => {
            lemma_unregistered_keeps_keys_live(before.channels, name@, id@ as int);
        },
        LoopEvent::Control(Some(ControlCommand::Drop(id, ListenerType::_Group(name)))) => {
            lemma_unregistered_keeps_keys_live(before.groups, name@, id@ as int);
        },
        _ => {},
    }
}

/// A cache is encoded anew if and only if the key set of its registry
/// moves: by the first registration under a name or by the unregistration of
/// the last live slot of one. A registration under a name that is a key, the
/// unregistration of one slot among several, a response and a failure leave
/// both caches as they are.
pub proof fn lemma_cache_is_encoded_anew_iff_keys_move(
    before: LoopState,
    event: LoopEvent,
    after: LoopState,
    action: LoopAction,
)
    requires
        steps(before, event, after, action),
    ensures
        moves_channel_keys(before, event) <==> after.channels.dom() != before.channels.dom(),
        moves_group_keys(before, event) <==> after.groups.dom() != before.groups.dom(),
        moves_channel_keys(before, event) ==> encodes(after.encoded_channels, after.channels.dom()),
        moves_group_keys(before, event) ==> encodes(after.encoded_groups, after.groups.dom()),
        !moves_channel_keys(before, event) ==> after.encoded_channels == before.encoded_channels,
        !moves_group_keys(before, event) ==> after.encoded_groups == before.encoded_groups,
{
    match event {
        LoopEvent::Control(Some(ControlCommand::Add(ListenerType::Channel(name), _))) => {
            assert(after.channels.dom().contains(name@));
            if before.channels.dom().contains(name@) {
                assert(after.channels.dom() =~= before.channels.dom());
            }
            assert(after.groups.dom() =~= before.groups.dom());
        },
        LoopEvent::Control(Some(ControlCommand::Add(ListenerType::_Group(name), _))) => {
            assert(after.groups.dom().contains(name@));
            if before.groups.dom().contains(name@) {
                assert(after.groups.dom() =~= before.groups.dom());
            }
            assert(after.channels.dom() =~= before.channels.dom());
        },
        LoopEvent::Control(Some(ControlCommand::Drop(id, ListenerType::Channel(name)))) => {
            if moves_channel_keys(before, event) {
                assert(before.channels.dom().contains(name@));
                assert(!after.channels.dom().contains(name@));
            } else {
                assert(after.channels.dom() =~= before.channels.dom());
            }
            assert(after.groups.dom() =~= before.groups.dom());
        },
        LoopEvent::Control(Some(ControlCommand::Drop(id, ListenerType::_Group(name)))) => {
            if moves_group_keys(before, event) {
                assert(before.groups.dom().contains(name@));
                assert(!after.groups.dom().contains(name@));
            } else {
                assert(after.groups.dom() =~= before.groups.dom());
            }
            assert(after.channels.dom() =~= before.channels.dom());
        },
        _ => {},
    }
}

/// The loop ends on one event only: a `Drop` of a live registration after
/// which both registries are empty. Nothing else ends it: no `Add`, no
/// closed control channel, no response and no failure of the transport. A
/// `Drop` of a registration that is not live ends nothing either: it is
/// answered with `Abort`, whatever the registries hold.
pub proof fn lemma_loop_ends_iff_last_drop(
    before: LoopState,
    event: LoopEvent,
    after: LoopState,
    action: LoopAction,
)
    requires
        steps(before, event, after, action),
    ensures
        action is Exit <==> (event matches LoopEvent::Control(Some(command)) && command is Drop
            && command_applies(before.channels, before.groups, command)
            && after.channels.dom().is_empty() && after.groups.dom().is_empty()),
        action is Abort <==> (event matches LoopEvent::Control(Some(command)) && !command_applies(
            before.channels,
            before.groups,
            command,
        )),
{
}

/// After a response the loop continues from the timetoken of the response;
/// where the service does not go back in time, neither does the loop. A
/// failure leaves the timetoken where it was, and so does a control event.
pub proof fn lemma_timetoken_follows_service(
    before: LoopState,
    event: LoopEvent,
    after: LoopState,
    action: LoopAction,
)
    requires
        steps(before, event, after, action),
        event matches LoopEvent::Response(_, next) ==> before.timetoken.le(next),
    ensures
        before.timetoken.le(after.timetoken),
        event matches LoopEvent::Response(_, next) ==> after.timetoken == next,
        !(event is Response) ==> after.timetoken == before.timetoken,
{
}

/// The messages that `plan` hands to `queue`, in the order of the plan.
pub open spec fn handed_to(plan: Seq<Delivery>, queue: u64) -> Seq<usize>
    decreases plan.len(),
{
    if plan.len() == 0 {
        Seq::empty()
    } else if plan.last().queue == queue {
        handed_to(plan.drop_last(), queue).push(plan.last().message)
    } else {
        handed_to(plan.drop_last(), queue)
    }
}

/// The indices of the messages that are routed to `name`, ascending.
pub open spec fn routed_to(routes: Seq<Seq<char>>, name: Seq<char>) -> Seq<usize>
    decreases routes.len(),
{
    if routes.len() == 0 {
        Seq::empty()
    } else if routes.last() == name {
        routed_to(routes.drop_last(), name).push((routes.len() - 1) as usize)
    } else {
        routed_to(routes.drop_last(), name)
    }
}

/// How often `queue` stands in `queues`.
pub open spec fn occurrences(queues: Seq<u64>, queue: u64) -> nat
    decreases queues.len(),
{
    if queues.len() == 0 {
        0
    } else if queues.last() == queue {
        occurrences(queues.drop_last(), queue) + 1
    } else {
        occurrences(queues.drop_last(), queue)
    }
}

proof fn lemma_handed_to_concat(first: Seq<Delivery>, second: Seq<Delivery>, queue: u64)
    ensures
        handed_to(first + second, queue) == handed_to(first, queue) + handed_to(second, queue),
    decreases second.len(),
{
    if second.len() == 0 {
        assert(first + second =~= first);
        assert(handed_to(first, queue) + handed_to(second, queue) =~= handed_to(first, queue));
    } else {
        lemma_handed_to_concat(first, second.drop_last(), queue);
        assert((first + second).drop_last() =~= first + second.drop_last());
        assert((first + second).last() == second.last());
        if second.last().queue == queue {
            assert(handed_to(first, queue) + handed_to(second.drop_last(), queue).push(
                second.last().message,
            ) =~= (handed_to(first, queue) + handed_to(second.drop_last(), queue)).push(
                second.last().message,
            ));
        }
    }
}

/// One message goes to a queue as often as the queue listens.
proof fn lemma_handed_of_one_message(queues: Seq<u64>, index: int, queue: u64)
    ensures
        handed_to(deliveries_of(queues, index), queue) == Seq::new(
            occurrences(queues, queue),
            |k: int| index as usize,
        ),
    decreases queues.len(),
{
    let plan = deliveries_of(queues, index);
    if queues.len() == 0 {
        assert(handed_to(plan, queue) =~= Seq::new(occurrences(queues, queue), |k: int| index as usize));
    } else {
        lemma_handed_of_one_message(queues.drop_last(), index, queue);
        assert(plan.drop_last() =~= deliveries_of(queues.drop_last(), index));
        assert(plan.last().queue == queues.last());
        assert(handed_to(plan, queue) =~= Seq::new(occurrences(queues, queue), |k: int| index as usize));
    }
}

/// A queue that no slot holds is not among the live values.
proof fn lemma_absent_queue(slots: Seq<Option<u64>>, queue: u64)
    requires
        forall|k: int| 0 <= k < slots.len() ==> slots[k] != Some(queue),
    ensures
        occurrences(live_values(slots), queue) == 0,
    decreases slots.len(),
{
    if slots.len() > 0 {
        assert forall|k: int| 0 <= k < slots.drop_last().len() implies slots.drop_last()[k] != Some(
            queue,
        ) by {
            assert(slots.drop_last()[k] == slots[k]);
        }
        lemma_absent_queue(slots.drop_last(), queue);
        assert(slots.last() == slots[slots.len() - 1]);
        match slots.last() {
            Some(value) => {
                assert(live_values(slots).drop_last() =~= live_values(slots.drop_last()));
            },
            None => {},
        }
    }
}

/// A queue that exactly one slot holds stands once among the live values.
proof fn lemma_single_queue(slots: Seq<Option<u64>>, id: int, queue: u64)
    requires
        0 <= id < slots.len(),
        slots[id] == Some(queue),
        forall|k: int| 0 <= k < slots.len() && slots[k] == Some(queue) ==> k == id,
    ensures
        occurrences(live_values(slots), queue) == 1,
    decreases slots.len(),
{
    let shorter = slots.drop_last();
    assert(slots.last() == slots[slots.len() - 1]);
    if id == slots.len() - 1 {
        assert forall|k: int| 0 <= k < shorter.len() implies shorter[k] != Some(queue) by {
            assert(shorter[k] == slots[k]);
        }
        lemma_absent_queue(shorter, queue);
        assert(live_values(slots).drop_last() =~= live_values(shorter));
    } else {
        assert(shorter[id] == slots[id]);
        assert forall|k: int| 0 <= k < shorter.len() && shorter[k] == Some(queue) implies k
            == id by {
            assert(shorter[k] == slots[k]);
        }
        lemma_single_queue(shorter, id, queue);
        match slots.last() {
            Some(value) => {
                assert(live_values(slots).drop_last() =~= live_values(shorter));
            },
            None => {},
        }
    }
}

/// Dispatching a response hands to each subscription exactly the messages
/// that are routed to its name, in the order of the response. The
/// subscription is the live slot `id` under `name`, and its queue is
/// registered nowhere else.
pub proof fn lemma_dispatch_round_trip(
    slots: Map<Seq<char>, Seq<Option<u64>>>,
    routes: Seq<Seq<char>>,
    name: Seq<char>,
    id: int,
    queue: u64,
)
    requires
        is_live(slots, name, id),
        slots[name][id] == Some(queue),
        forall|other: Seq<char>, k: int|
            is_live(slots, other, k) && #[trigger] slots[other][k] == Some(queue) ==> other == name
                && k == id,
    ensures
        handed_to(fan_out(slots, routes), queue) == routed_to(routes, name),
    decreases routes.len(),
{
    if routes.len() > 0 {
        let route = routes.last();
        let index = routes.len() - 1;
        let listeners = live_values(slots_of(slots, route));
        lemma_dispatch_round_trip(slots, routes.drop_last(), name, id, queue);
        lemma_handed_to_concat(
            fan_out(slots, routes.drop_last()),
            deliveries_of(listeners, index),
            queue,
        );
        lemma_handed_of_one_message(listeners, index, queue);
        if route == name {
            lemma_single_queue(slots[name], id, queue);
            assert(Seq::new(1, |k: int| index as usize) =~= seq![index as usize]);
            assert(routed_to(routes.drop_last(), name) + seq![index as usize] =~= routed_to(
                routes.drop_last(),
                name,
            ).push(index as usize));
        } else {
            let others = slots_of(slots, route);
            assert forall|k: int| 0 <= k < others.len() implies others[k] != Some(queue) by {
                if others[k] == Some(queue) {
                    assert(is_live(slots, route, k));
                    assert(slots[route][k] == Some(queue));
                }
            }
            lemma_absent_queue(others, queue);
            assert(Seq::new(0, |k: int| index as usize) =~= Seq::<usize>::empty());
            assert(routed_to(routes.drop_last(), name) + Seq::<usize>::empty() =~= routed_to(
                routes.drop_last(),
                name,
            ));
        }
    }
}

} // verus!
