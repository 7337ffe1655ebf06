//! The registry: which queues listen under which name.
//!
//! A name maps to a stable-slot vector of queue handles. A name is kept only
//! while at least one of its slots is live, so the key set is at all times the
//! set of names that somebody listens to.

use crate::mvec::{has_live, live_values, MVec};
use dashmap::DashMap;
use vstd::prelude::*;

verus! {

/// The concurrent map behind a registry, from a name to its slot vector.
#[verifier::external_body]
#[derive(Debug)]
pub struct NameMap {
    inner: DashMap<String, MVec<u64>>,
}

/// The slot vector that a map holds under each name.
pub uninterp spec fn map_slots(map: NameMap) -> Map<Seq<char>, Seq<Option<u64>>>;

/// `DashMap::new`: a map that holds nothing.
#[verifier::external_body]
fn map_new() -> (out: NameMap)
    ensures
        (map_slots(out) == Map::<Seq<char>, Seq<Option<u64>>>::empty()),
{
    NameMap { inner: DashMap::new() }
}

/// `DashMap::remove`: takes the entry under `name` out of the map and hands
/// back its key and value; a name that the map does not hold leaves the map
/// as it was and gives `None`.
#[verifier::external_body]
fn map_remove(map: &mut NameMap, name: &str) -> (out: Option<(String, MVec<u64>)>)
    ensures
        map_slots(*final(map)) == map_slots(*old(map)).remove(name@),
        out is Some == map_slots(*old(map)).dom().contains(name@),
        out matches Some(entry) ==> entry.0@ == name@ && entry.1@ == map_slots(*old(map))[name@],
{
    map.inner.remove(name)
}

/// `DashMap::insert`: stores `slots` under `name`, in place of what the map
/// held under that name before, if anything.
#[verifier::external_body]
fn map_insert(map: &mut NameMap, name: String, slots: MVec<u64>)
    ensures
        map_slots(*final(map)) == map_slots(*old(map)).insert(name@, slots@),
{
    map.inner.insert(name, slots);
}

/// `DashMap::is_empty`: whether the map holds no entry.
#[verifier::external_body]
fn map_is_empty(map: &NameMap) -> (out: bool)
    ensures
        out == map_slots(*map).dom().is_empty(),
{
    map.inner.is_empty()
}

/// `DashMap::iter`: every key of the map once, in the order in which the map
/// happens to walk its entries.
#[verifier::external_body]
fn map_keys(map: &NameMap) -> (out: Vec<String>)
    ensures
        forall|i: int, j: int| 0 <= i < j < out@.len() ==> out@[i]@ != out@[j]@,
        forall|i: int| 0 <= i < out@.len() ==> map_slots(*map).dom().contains(#[trigger] out@[i]@),
        forall|name: Seq<char>| map_slots(*map).dom().contains(name) ==> exists|i: int| 0 <= i < out@.len() && #[trigger] out@[i]@ == name,
{
    map.inner.iter().map(|entry| entry.key().clone()).collect()
}

/// The slots listed under `name`: none at all for a name that is not a key.
pub open spec fn slots_of(slots: Map<Seq<char>, Seq<Option<u64>>>, name: Seq<char>) -> Seq<Option<u64>> {
    if slots.dom().contains(name) {
        slots[name]
    } else {
        Seq::empty()
    }
}

/// Every key has at least one live slot.
pub open spec fn keys_are_live(slots: Map<Seq<char>, Seq<Option<u64>>>) -> bool {
    forall|name: Seq<char>| slots.dom().contains(name) ==> has_live(#[trigger] slots[name])
}

/// Whether slot `id` under `name` holds a value.
pub open spec fn is_live(slots: Map<Seq<char>, Seq<Option<u64>>>, name: Seq<char>, id: int) -> bool {
    &&& slots.dom().contains(name)
    &&& 0 <= id < slots[name].len()
    &&& slots[name][id] is Some
}

/// The registry after `value` was appended under `name`.
pub open spec fn registered(slots: Map<Seq<char>, Seq<Option<u64>>>, name: Seq<char>, value: u64) -> Map<Seq<char>, Seq<Option<u64>>> {
    slots.insert(name, slots_of(slots, name).push(Some(value)))
}

/// The registry after slot `id` under `name` was emptied: the name goes with
/// its last live slot, and a slot that is not live changes nothing.
pub open spec fn unregistered(slots: Map<Seq<char>, Seq<Option<u64>>>, name: Seq<char>, id: int) -> Map<Seq<char>, Seq<Option<u64>>> {
    if !is_live(slots, name, id) {
        slots
    } else if has_live(slots[name].update(id, None)) {
        slots.insert(name, slots[name].update(id, None))
    } else {
        slots.remove(name)
    }
}

/// The views of `names`, in the same order.
pub open spec fn names_of(names: Seq<String>) -> Seq<Seq<char>> {
    Seq::new(names.len(), |i: int| names[i]@)
}

/// Whether `names` lists every element of `keys` once and nothing else.
pub open spec fn is_listing_of(names: Seq<Seq<char>>, keys: Set<Seq<char>>) -> bool {
    &&& names.no_duplicates()
    &&& forall|name: Seq<char>| names.contains(name) <==> keys.contains(name)
}

/// The handle of one registration: the index of its slot under its name.
#[derive(Debug, Clone, Copy, PartialEq, Eq, Structural, PartialOrd, Ord)]
pub struct ID(usize);

impl View for ID {
    type V = usize;

    closed spec fn view(&self) -> usize {
        self.0
    }
}

impl ID {
    /// The index of the slot that this handle stands for.
    pub fn slot(&self) -> (out: usize)
        ensures
            out == self@,
    {
        self.0
    }
}

/// What a registration did to the key set.
#[derive(Debug, Clone, Copy, PartialEq, Eq, Structural)]
pub enum RegistrationEffect {
    NewName,
    ExistingName,
}

/// What an unregistration did to the key set.
#[derive(Debug, Clone, Copy, PartialEq, Eq, Structural)]
pub enum UnregistrationEffect {
    NameErased,
    NamePreserved,
}

/// A registry of queue handles by name.
#[derive(Debug)]
pub struct Registry {
    map: NameMap,
    key_set_change_ready: bool,
}

impl View for Registry {
    type V = Map<Seq<char>, Seq<Option<u64>>>;

    closed spec fn view(&self) -> Map<Seq<char>, Seq<Option<u64>>> {
        map_slots(self.map)
    }
}

impl Registry {
    /// The names that have at least one live slot.
    pub open spec fn key_set(&self) -> Set<Seq<char>> {
        self@.dom()
    }

    /// The invariant of a registry: a name is a key only while one of its
    /// slots is live.
    pub open spec fn wf(&self) -> bool {
        keys_are_live(self@)
    }

    /// Whether a change of the key set was notified and not yet polled.
    pub closed spec fn key_set_change_pending(&self) -> bool {
        self.key_set_change_ready
    }

    /// A registry without names.
    pub fn new() -> (out: Self)
        ensures
            out@ == Map::<Seq<char>, Seq<Option<u64>>>::empty(),
            out.wf(),
            !out.key_set_change_pending(),
    {
        Registry { map: map_new(), key_set_change_ready: false }
    }

    /// Appends `value` under `name` and returns the index of its slot, with
    /// the news whether `name` was absent before.
    pub fn register(&mut self, name: String, value: u64) -> (out: (ID, RegistrationEffect))
        ensures
            final(self)@ == registered(old(self)@, name@, value),
            out.0@ == slots_of(old(self)@, name@).len(),
            out.1 == (if old(self).key_set().contains(name@) {
                RegistrationEffect::ExistingName
            } else {
                RegistrationEffect::NewName
            }),
            old(self).wf() ==> final(self).wf(),
            final(self).key_set_change_pending() == old(self).key_set_change_pending(),
    {
        let (key, mut slots, effect) = match map_remove(&mut self.map, name.as_str()) {
            Some((key, slots)) => (key, slots, RegistrationEffect::ExistingName),
            None => (name, MVec::new(), RegistrationEffect::NewName),
        };
        let id = slots.counter();
        slots.push(value);
        proof {
            assert(slots@[id as int] is Some);
        }
        map_insert(&mut self.map, key, slots);
        proof {
            assert(self@ =~= registered(old(self)@, name@, value));
        }
        (ID(id), effect)
    }

    /// Empties slot `id` under `name` and returns what it held, with the news
    /// whether the name went with it. A slot that is not live, under a name
    /// that is a key or not, gives `None` and changes nothing.
    pub fn unregister(&mut self, name: &str, id: ID) -> (out: Option<(u64, UnregistrationEffect)>)
        ensures
            final(self)@ == unregistered(old(self)@, name@, id@ as int),
            out is Some == is_live(old(self)@, name@, id@ as int),
            out matches Some(removed) ==> Some(removed.0) == old(self)@[name@][id@ as int]
                && removed.1 == (if final(self).key_set().contains(name@) {
                UnregistrationEffect::NamePreserved
            } else {
                UnregistrationEffect::NameErased
            }),
            old(self).wf() ==> final(self).wf(),
            final(self).key_set_change_pending() == old(self).key_set_change_pending(),
    {
        let ID(id) = id;
        let (key, mut slots) = match map_remove(&mut self.map, name) {
            Some(entry) => entry,
            None => {
                proof {
                    assert(self@ =~= old(self)@);
                }
                return None;
            },
        };
        let ghost before = slots@;
        match slots.remove(id) {
            None => {
                proof {
                    assert(slots@ =~= before);
                }
                map_insert(&mut self.map, key, slots);
                proof {
                    assert(self@ =~= old(self)@);
                }
                None
            },
            Some(removed) => {
                let effect = if slots.is_empty() {
                    UnregistrationEffect::NameErased
                } else {
                    map_insert(&mut self.map, key, slots);
                    UnregistrationEffect::NamePreserved
                };
                proof {
                    assert(self@ =~= unregistered(old(self)@, name@, id as int));
                }
                Some((removed, effect))
            },
        }
    }

    /// The queue handles in the live slots under `name`, by ascending slot
    /// index, or `None` for a name that is not a key.
    pub fn get_iter_mut(&mut self, name: &str) -> (out: Option<Vec<u64>>)
        ensures
            final(self)@ == old(self)@,
            out is Some == old(self).key_set().contains(name@),
            out matches Some(values) ==> values@ == live_values(old(self)@[name@]),
            final(self).key_set_change_pending() == old(self).key_set_change_pending(),
    {
        match map_remove(&mut self.map, name) {
            None => {
                proof {
                    assert(self@ =~= old(self)@);
                }
                None
            },
            Some((key, slots)) => {
                let values = slots.values();
                map_insert(&mut self.map, key, slots);
                proof {
                    assert(self@ =~= old(self)@);
                }
                Some(values)
            },
        }
    }

    /// Whether no name is registered.
    pub fn is_empty(&self) -> (out: bool)
        ensures
            out == self.key_set().is_empty(),
    {
        map_is_empty(&self.map)
    }

    /// The registered names, each once, in the order in which the map walks
    /// them.
    pub fn keys(&self) -> (out: Vec<String>)
        ensures
            is_listing_of(names_of(out@), self.key_set()),
    {
        let out = map_keys(&self.map);
        proof {
            let names = names_of(out@);
            assert forall|name: Seq<char>| self.key_set().contains(name) implies names.contains(name) by {
                let i = choose|i: int| 0 <= i < out@.len() && #[trigger] out@[i]@ == name;
                assert(names[i] == name);
            }
        }
        out
    }

    /// Takes the note that the key set changed, if there is one: `true` once
    /// after each notification, `false` until the next.
    pub fn poll_key_set_change(&mut self) -> (out: bool)
        ensures
            out == old(self).key_set_change_pending(),
            !final(self).key_set_change_pending(),
            final(self)@ == old(self)@,
    {
        let ready = self.key_set_change_ready;
        self.key_set_change_ready = false;
        ready
    }

    /// Leaves the note that the key set changed.
    pub fn key_set_change_notify(&mut self)
        ensures
            final(self).key_set_change_pending(),
            final(self)@ == old(self)@,
    {
        self.key_set_change_ready = true;
    }
}

} // verus!
