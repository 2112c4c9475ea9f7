use wayglance::bus::SignalBus;

#[test]
fn subscribe_returns_fresh_increasing_ids() {
    let mut bus: SignalBus<u64> = SignalBus::new();
    let a = bus.subscribe("alpha", 10);
    let b = bus.subscribe("alpha", 11);
    let c = bus.subscribe("beta", 12);
    assert_eq!(a, 0);
    assert_eq!(b, 1);
    assert_eq!(c, 2);
}

#[test]
fn emit_delivers_to_subscribed_name_only() {
    let mut bus: SignalBus<u64> = SignalBus::new();
    bus.subscribe("alpha", 10);
    bus.subscribe("beta", 20);
    bus.subscribe("alpha", 30);
    assert_eq!(bus.emit("alpha"), vec![10, 30]);
    assert_eq!(bus.emit("beta"), vec![20]);
    assert_eq!(bus.emit("gamma"), Vec::<u64>::new());
}

#[test]
fn unsubscribe_removes_only_the_target() {
    let mut bus: SignalBus<u64> = SignalBus::new();
    let a = bus.subscribe("alpha", 10);
    bus.subscribe("alpha", 30);
    bus.unsubscribe("alpha", a);
    assert_eq!(bus.emit("alpha"), vec![30]);
}

#[test]
fn unsubscribe_unknown_id_is_a_noop() {
    let mut bus: SignalBus<u64> = SignalBus::new();
    bus.subscribe("alpha", 10);
    let before = bus.emit("alpha");
    // An id that was never issued.
    bus.unsubscribe("alpha", 999);
    assert_eq!(bus.emit("alpha"), before);
    // An id issued under a different name.
    bus.unsubscribe("beta", 0);
    assert_eq!(bus.emit("alpha"), before);
}

#[test]
fn unsubscribe_twice_is_a_noop() {
    let mut bus: SignalBus<u64> = SignalBus::new();
    let a = bus.subscribe("alpha", 10);
    bus.subscribe("alpha", 20);
    bus.unsubscribe("alpha", a);
    let after_first = bus.emit("alpha");
    bus.unsubscribe("alpha", a);
    assert_eq!(bus.emit("alpha"), after_first);
    assert_eq!(after_first, vec![20]);
}

#[test]
fn emit_snapshot_is_isolated_from_later_changes() {
    let mut bus: SignalBus<u64> = SignalBus::new();
    let a = bus.subscribe("alpha", 10);
    let snapshot = bus.emit("alpha");
    // A listener reacting to the emission may unsubscribe itself and
    // subscribe a replacement; the snapshot being delivered is untouched,
    // and the changes show up in the next emission.
    bus.unsubscribe("alpha", a);
    bus.subscribe("alpha", 40);
    assert_eq!(snapshot, vec![10]);
    assert_eq!(bus.emit("alpha"), vec![40]);
}

#[test]
fn ids_are_never_reused_after_unsubscribe() {
    let mut bus: SignalBus<u64> = SignalBus::new();
    let a = bus.subscribe("alpha", 10);
    bus.unsubscribe("alpha", a);
    let b = bus.subscribe("alpha", 20);
    assert_ne!(a, b);
}

#[test]
fn remove_listener_entries_clears_every_subscription_of_a_token() {
    let mut bus: SignalBus<usize> = SignalBus::new();
    bus.subscribe("alpha", 7);
    bus.subscribe("beta", 7);
    bus.subscribe("alpha", 8);
    bus.remove_listener_entries(7);
    assert_eq!(bus.emit("alpha"), vec![8]);
    assert_eq!(bus.emit("beta"), Vec::<usize>::new());
}
