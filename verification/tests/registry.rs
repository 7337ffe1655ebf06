use pubnub_core::mvec::MVec;
use pubnub_core::registry::{RegistrationEffect, Registry, UnregistrationEffect};

#[test]
fn new_registry_is_empty() {
    let registry = Registry::new();
    assert!(registry.is_empty());
    assert_eq!(registry.keys(), Vec::<String>::new());
}

#[test]
fn first_registration_is_slot_zero_under_a_new_name() {
    let mut registry = Registry::new();
    let (id, effect) = registry.register("a".to_string(), 7);
    assert_eq!(id.slot(), 0);
    assert_eq!(effect, RegistrationEffect::NewName);
    assert!(!registry.is_empty());
    assert_eq!(registry.keys(), vec!["a".to_string()]);
}

#[test]
fn second_registration_under_a_name_gets_the_next_slot() {
    let mut registry = Registry::new();
    let (first, _) = registry.register("a".to_string(), 7);
    let (second, effect) = registry.register("a".to_string(), 8);
    assert_eq!(first.slot(), 0);
    assert_eq!(second.slot(), 1);
    assert_ne!(first, second);
    assert_eq!(effect, RegistrationEffect::ExistingName);
    assert_eq!(registry.keys(), vec!["a".to_string()]);
}

#[test]
fn names_count_their_slots_apart() {
    let mut registry = Registry::new();
    let (a, _) = registry.register("a".to_string(), 1);
    let (b, effect) = registry.register("b".to_string(), 2);
    assert_eq!(a.slot(), 0);
    assert_eq!(b.slot(), 0);
    assert_eq!(effect, RegistrationEffect::NewName);
    let mut keys = registry.keys();
    keys.sort();
    assert_eq!(keys, vec!["a".to_string(), "b".to_string()]);
}

#[test]
fn unregister_returns_the_value_and_keeps_a_name_with_other_slots() {
    let mut registry = Registry::new();
    let (first, _) = registry.register("a".to_string(), 7);
    let (_second, _) = registry.register("a".to_string(), 8);
    assert_eq!(
        registry.unregister("a", first),
        Some((7, UnregistrationEffect::NamePreserved))
    );
    assert_eq!(registry.keys(), vec!["a".to_string()]);
    assert_eq!(registry.get_iter_mut("a"), Some(vec![8]));
}

#[test]
fn unregister_of_the_last_slot_erases_the_name() {
    let mut registry = Registry::new();
    let (first, _) = registry.register("a".to_string(), 7);
    let (second, _) = registry.register("a".to_string(), 8);
    assert_eq!(
        registry.unregister("a", second),
        Some((8, UnregistrationEffect::NamePreserved))
    );
    assert_eq!(
        registry.unregister("a", first),
        Some((7, UnregistrationEffect::NameErased))
    );
    assert!(registry.is_empty());
    assert_eq!(registry.get_iter_mut("a"), None);
}

#[test]
fn unregister_twice_gives_none_the_second_time() {
    let mut registry = Registry::new();
    let (first, _) = registry.register("a".to_string(), 7);
    let (_second, _) = registry.register("a".to_string(), 8);
    assert!(registry.unregister("a", first).is_some());
    assert_eq!(registry.unregister("a", first), None);
    assert_eq!(registry.get_iter_mut("a"), Some(vec![8]));
}

#[test]
fn unregister_under_an_absent_name_gives_none() {
    let mut registry = Registry::new();
    let (id, _) = registry.register("a".to_string(), 7);
    assert_eq!(registry.unregister("b", id), None);
    assert_eq!(registry.keys(), vec!["a".to_string()]);
}

#[test]
fn unregister_of_a_slot_never_handed_out_gives_none() {
    let mut other = Registry::new();
    other.register("a".to_string(), 1);
    let (beyond, _) = other.register("a".to_string(), 2);
    let mut registry = Registry::new();
    registry.register("a".to_string(), 7);
    assert_eq!(registry.unregister("a", beyond), None);
    assert_eq!(registry.get_iter_mut("a"), Some(vec![7]));
}

#[test]
fn slots_are_not_reused_while_the_name_lives() {
    let mut registry = Registry::new();
    let (first, _) = registry.register("a".to_string(), 1);
    let (_second, _) = registry.register("a".to_string(), 2);
    registry.unregister("a", first);
    let (third, effect) = registry.register("a".to_string(), 3);
    assert_eq!(third.slot(), 2);
    assert_eq!(effect, RegistrationEffect::ExistingName);
    assert_eq!(registry.get_iter_mut("a"), Some(vec![2, 3]));
}

#[test]
fn counter_starts_again_after_the_name_was_erased() {
    let mut registry = Registry::new();
    let (first, _) = registry.register("a".to_string(), 1);
    let (second, _) = registry.register("a".to_string(), 2);
    registry.unregister("a", first);
    assert_eq!(
        registry.unregister("a", second),
        Some((2, UnregistrationEffect::NameErased))
    );
    let (again, effect) = registry.register("a".to_string(), 3);
    assert_eq!(again.slot(), 0);
    assert_eq!(effect, RegistrationEffect::NewName);
}

#[test]
fn get_iter_mut_lists_live_slots_in_slot_order() {
    let mut registry = Registry::new();
    let (_a, _) = registry.register("a".to_string(), 30);
    let (b, _) = registry.register("a".to_string(), 10);
    let (_c, _) = registry.register("a".to_string(), 20);
    assert_eq!(registry.get_iter_mut("a"), Some(vec![30, 10, 20]));
    registry.unregister("a", b);
    assert_eq!(registry.get_iter_mut("a"), Some(vec![30, 20]));
    assert_eq!(registry.get_iter_mut("b"), None);
    assert_eq!(registry.keys(), vec!["a".to_string()]);
}

#[test]
fn key_set_change_is_polled_once_per_notification() {
    let mut registry = Registry::new();
    assert!(!registry.poll_key_set_change());
    registry.key_set_change_notify();
    registry.key_set_change_notify();
    assert!(registry.poll_key_set_change());
    assert!(!registry.poll_key_set_change());
}

#[test]
fn mvec_keeps_indices_and_leaves_holes() {
    let mut slots: MVec<u64> = MVec::new();
    assert!(slots.is_empty());
    assert_eq!(slots.counter(), 0);
    slots.push(5);
    slots.push(6);
    slots.push(7);
    assert_eq!(slots.counter(), 3);
    assert_eq!(slots.remove(1), Some(6));
    assert_eq!(slots.remove(1), None);
    assert_eq!(slots.remove(3), None);
    assert_eq!(slots.counter(), 3);
    assert_eq!(slots.values(), vec![5, 7]);
    assert!(!slots.is_empty());
    assert_eq!(slots.remove(0), Some(5));
    assert_eq!(slots.remove(2), Some(7));
    assert!(slots.is_empty());
    assert_eq!(slots.values(), Vec::<u64>::new());
    slots.push(8);
    assert_eq!(slots.counter(), 4);
    assert_eq!(slots.values(), vec![8]);
}
