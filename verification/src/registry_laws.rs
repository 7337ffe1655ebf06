//! What holds of a registry through every sequence of registrations and
//! unregistrations.

use crate::mvec::has_live;
use crate::registry::{is_live, keys_are_live, registered, slots_of, unregistered};
use vstd::prelude::*;

verus! {

/// One change of a registry.
pub enum RegistryOp {
    Register { name: Seq<char>, value: u64 },
    Unregister { name: Seq<char>, id: int },
}

/// The registry after `op`.
pub open spec fn apply(slots: Map<Seq<char>, Seq<Option<u64>>>, op: RegistryOp) -> Map<
    Seq<char>,
    Seq<Option<u64>>,
> {
    match op {
        RegistryOp::Register { name, value } => registered(slots, name, value),
        RegistryOp::Unregister { name, id } => unregistered(slots, name, id),
    }
}

/// The registry after `ops`, one after the other.
pub open spec fn run(slots: Map<Seq<char>, Seq<Option<u64>>>, ops: Seq<RegistryOp>) -> Map<
    Seq<char>,
    Seq<Option<u64>>,
>
    decreases ops.len(),
{
    if ops.len() == 0 {
        slots
    } else {
        apply(run(slots, ops.drop_last()), ops.last())
    }
}

/// The index that the next registration under `name` gets.
pub open spec fn next_id(slots: Map<Seq<char>, Seq<Option<u64>>>, name: Seq<char>) -> nat {
    slots_of(slots, name).len()
}

/// Whether `name` is a key before `ops` and after each of them.
pub open spec fn stays_key(
    slots: Map<Seq<char>, Seq<Option<u64>>>,
    ops: Seq<RegistryOp>,
    name: Seq<char>,
) -> bool {
    forall|count: int| 0 <= count <= ops.len() ==> (#[trigger] run(slots, ops.take(count))).dom().contains(name)
}

/// The key set of a registry is the set of the names with a live slot.
pub proof fn lemma_key_set_is_the_live_names(slots: Map<Seq<char>, Seq<Option<u64>>>)
    requires
        keys_are_live(slots),
    ensures
        forall|name: Seq<char>| slots.dom().contains(name) <==> has_live(#[trigger] slots_of(slots, name)),
{
    assert forall|name: Seq<char>| has_live(#[trigger] slots_of(slots, name)) implies slots.dom().contains(
        name,
    ) by {
        if !slots.dom().contains(name) {
            assert(slots_of(slots, name).len() == 0);
        }
    }
}

/// A registration keeps every key live.
pub proof fn lemma_registered_keeps_keys_live(
    slots: Map<Seq<char>, Seq<Option<u64>>>,
    name: Seq<char>,
    value: u64,
)
    requires
        keys_are_live(slots),
    ensures
        keys_are_live(registered(slots, name, value)),
{
    let after = registered(slots, name, value);
    assert(after[name][slots_of(slots, name).len() as int] is Some);
}

/// An unregistration keeps every key live: a name without a live slot goes.
pub proof fn lemma_unregistered_keeps_keys_live(
    slots: Map<Seq<char>, Seq<Option<u64>>>,
    name: Seq<char>,
    id: int,
)
    requires
        keys_are_live(slots),
    ensures
        keys_are_live(unregistered(slots, name, id)),
{
}

/// Whatever is done to a registry that started empty, its key set is the set
/// of the names with a live slot.
pub proof fn lemma_reachable_keys_are_live(ops: Seq<RegistryOp>)
    ensures
        keys_are_live(run(Map::empty(), ops)),
    decreases ops.len(),
{
    if ops.len() > 0 {
        lemma_reachable_keys_are_live(ops.drop_last());
        let before = run(Map::empty(), ops.drop_last());
        match ops.last() {
            RegistryOp::Register { name, value } => lemma_registered_keeps_keys_live(
                before,
                name,
                value,
            ),
            RegistryOp::Unregister { name, id } => lemma_unregistered_keeps_keys_live(
                before,
                name,
                id,
            ),
        }
    }
}

/// While a name stays a key, the index of its next registration never
/// falls.
pub proof fn lemma_ids_grow_while_name_lives(
    slots: Map<Seq<char>, Seq<Option<u64>>>,
    ops: Seq<RegistryOp>,
    name: Seq<char>,
)
    requires
        stays_key(slots, ops, name),
    ensures
        next_id(run(slots, ops), name) >= next_id(slots, name),
    decreases ops.len(),
{
    if ops.len() > 0 {
        let shorter = ops.drop_last();
        assert forall|count: int| 0 <= count <= shorter.len() implies (#[trigger] run(
            slots,
            shorter.take(count),
        )).dom().contains(name) by {
            assert(shorter.take(count) =~= ops.take(count));
        }
        lemma_ids_grow_while_name_lives(slots, shorter, name);
        assert(ops.take(shorter.len() as int) =~= shorter);
        assert(ops.take(ops.len() as int) =~= ops);
        assert(run(slots, shorter).dom().contains(name));
        assert(run(slots, ops).dom().contains(name));
    }
}

/// The indices that `register` hands out under one name are unique for as
/// long as the name stays a key: a later registration gets a greater index
/// than an earlier one, whatever happened in between.
pub proof fn lemma_ids_are_unique(
    slots: Map<Seq<char>, Seq<Option<u64>>>,
    name: Seq<char>,
    value: u64,
    ops: Seq<RegistryOp>,
)
    requires
        stays_key(registered(slots, name, value), ops, name),
    ensures
        next_id(run(registered(slots, name, value), ops), name) > next_id(slots, name),
{
    lemma_ids_grow_while_name_lives(registered(slots, name, value), ops, name);
}

/// A registration is stable: until it is unregistered itself, its slot stays
/// live and keeps its value, whatever else is registered or unregistered.
pub proof fn lemma_registration_is_stable(
    slots: Map<Seq<char>, Seq<Option<u64>>>,
    ops: Seq<RegistryOp>,
    name: Seq<char>,
    id: int,
)
    requires
        is_live(slots, name, id),
        forall|k: int| 0 <= k < ops.len() ==> #[trigger] ops[k] != (RegistryOp::Unregister { name, id }),
    ensures
        is_live(run(slots, ops), name, id),
        run(slots, ops)[name][id] == slots[name][id],
    decreases ops.len(),
{
    if ops.len() > 0 {
        let shorter = ops.drop_last();
        assert forall|k: int| 0 <= k < shorter.len() implies #[trigger] shorter[k] != (
        RegistryOp::Unregister { name, id }) by {
            assert(shorter[k] == ops[k]);
        }
        lemma_registration_is_stable(slots, shorter, name, id);
        let before = run(slots, shorter);
        match ops.last() {
            RegistryOp::Register { name: other, value } => {},
            RegistryOp::Unregister { name: other, id: other_id } => {
                assert(ops[ops.len() - 1] != (RegistryOp::Unregister { name, id }));
                if other == name && is_live(before, other, other_id) {
                    assert(other_id != id);
                    assert(before[name].update(other_id, None)[id] is Some);
                }
            },
        }
    }
}

/// Once a name was erased, its counter starts again: the next registration
/// under it gets index 0 and is alone under the name.
pub proof fn lemma_counter_resets_after_erasure(
    slots: Map<Seq<char>, Seq<Option<u64>>>,
    name: Seq<char>,
    id: int,
    value: u64,
)
    requires
        is_live(slots, name, id),
        !unregistered(slots, name, id).dom().contains(name),
    ensures
        next_id(unregistered(slots, name, id), name) == 0,
        registered(unregistered(slots, name, id), name, value)[name] == seq![Some(value)],
{
    let erased = unregistered(slots, name, id);
    assert(registered(erased, name, value)[name] =~= seq![Some(value)]);
}

} // verus!
