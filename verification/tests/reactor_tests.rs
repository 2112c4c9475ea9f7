use wayglance::binding::{BindDisposition, Reactor};
use wayglance::dynamic::MaybeDynamic;
use wayglance::value::FuncKey;

#[test]
fn static_value_is_applied_exactly_once() {
    // A static binding applies its value immediately and registers
    // nothing: no timer, no subscription, nothing to clean up later.
    let value: MaybeDynamic<i64> = MaybeDynamic::Static(42);
    let mut applied: Vec<i64> = Vec::new();
    match value.bind() {
        BindDisposition::Immediate(v) => applied.push(v),
        _ => panic!("a static value must be applied immediately"),
    }
    assert_eq!(applied, vec![42]);
}

#[test]
fn interval_binding_applies_initial_plus_one_per_firing() {
    let mut reactor = Reactor::new();
    let mut applied: Vec<&str> = Vec::new();
    let r = reactor.bind_interval::<&str, &str>(FuncKey { key: 1 }, 250, Ok("tick0"));
    let (id, first) = r.expect("a successful initial evaluation must bind");
    applied.push(first);
    for _ in 0..5 {
        if let Some(v) = reactor.on_timer::<&str, &str>(id, Ok("tick")) {
            applied.push(v);
        }
    }
    // Five firings after the initial application: six applications.
    assert_eq!(applied.len(), 6);
}

#[test]
fn interval_initial_failure_aborts_setup() {
    let mut reactor = Reactor::new();
    let r = reactor.bind_interval::<i64, &str>(FuncKey { key: 1 }, 100, Err("script error"));
    assert_eq!(r.unwrap_err(), "script error");
    // Nothing was registered: the next binding still gets the first id.
    let r2 = reactor.bind_interval::<i64, &str>(FuncKey { key: 2 }, 100, Ok(1));
    assert_eq!(r2.unwrap().0, 0);
}

#[test]
fn interval_failure_after_setup_skips_and_continues() {
    let mut reactor = Reactor::new();
    let (id, _) = reactor
        .bind_interval::<i64, &str>(FuncKey { key: 1 }, 100, Ok(0))
        .unwrap();
    assert!(reactor.on_timer::<i64, &str>(id, Err("flaky")).is_none());
    // The timer keeps running: the next firing applies again.
    assert_eq!(reactor.on_timer::<i64, &str>(id, Ok(7)), Some(7));
}

#[test]
fn signal_binding_shares_one_callback_across_names() {
    // A signal-valued property bound to ["a", "b"]: emitting on "a" and
    // then on "b" each triggers one application through the same binding.
    let mut reactor = Reactor::new();
    let (id, first) = reactor.bind_signal::<&str, &str>(
        FuncKey { key: 9 },
        vec!["a".to_string(), "b".to_string()],
        Ok("initial"),
    );
    assert_eq!(first, Some("initial"));
    let mut applies = 0;

    let snapshot_a = reactor.emit("a");
    assert_eq!(snapshot_a, vec![id]);
    for &b in &snapshot_a {
        if reactor.on_event::<&str, &str>(b, Ok("from a")).is_some() {
            applies += 1;
        }
    }
    let snapshot_b = reactor.emit("b");
    assert_eq!(snapshot_b, vec![id]);
    for &b in &snapshot_b {
        if reactor.on_event::<&str, &str>(b, Ok("from b")).is_some() {
            applies += 1;
        }
    }
    assert_eq!(applies, 2);
}

#[test]
fn signal_initial_failure_leaves_property_unset_but_binds() {
    let mut reactor = Reactor::new();
    let (id, first) =
        reactor.bind_signal::<i64, &str>(FuncKey { key: 3 }, vec!["s".to_string()], Err("boom"));
    assert_eq!(first, None);
    // The binding is live all the same: the next emission applies.
    assert_eq!(reactor.emit("s"), vec![id]);
    assert_eq!(reactor.on_event::<i64, &str>(id, Ok(5)), Some(5));
}

#[test]
fn destroy_cancels_the_timer_exactly_once() {
    let mut reactor = Reactor::new();
    let (id, _) = reactor
        .bind_interval::<i64, &str>(FuncKey { key: 1 }, 250, Ok(0))
        .unwrap();
    assert_eq!(reactor.destroy(id), Some(250));
    // Idempotent: a second destruction finds nothing to release.
    assert_eq!(reactor.destroy(id), None);
}

#[test]
fn no_application_after_destroy() {
    // The counter stops: after the destroy hook fires, neither a timer
    // firing nor an emission ever applies the binding's value again.
    let mut reactor = Reactor::new();
    let (sig_id, _) =
        reactor.bind_signal::<i64, &str>(FuncKey { key: 1 }, vec!["s".to_string()], Ok(1));
    let (timer_id, _) = reactor
        .bind_interval::<i64, &str>(FuncKey { key: 2 }, 100, Ok(1))
        .unwrap();

    // A snapshot taken before the destruction still names the binding.
    let stale = reactor.emit("s");
    assert_eq!(stale, vec![sig_id]);

    reactor.destroy(sig_id);
    reactor.destroy(timer_id);

    // Delivering the stale snapshot applies nothing.
    for &b in &stale {
        assert!(reactor.on_event::<i64, &str>(b, Ok(2)).is_none());
    }
    // New emissions no longer name the binding at all.
    assert_eq!(reactor.emit("s"), Vec::<usize>::new());
    // A late timer firing applies nothing.
    assert!(reactor.on_timer::<i64, &str>(timer_id, Ok(3)).is_none());
}

#[test]
fn destroy_leaves_other_bindings_alone() {
    let mut reactor = Reactor::new();
    let (a, _) = reactor.bind_signal::<i64, &str>(FuncKey { key: 1 }, vec!["s".to_string()], Ok(1));
    let (b, _) = reactor.bind_signal::<i64, &str>(FuncKey { key: 2 }, vec!["s".to_string()], Ok(1));
    reactor.destroy(a);
    assert_eq!(reactor.emit("s"), vec![b]);
    assert_eq!(reactor.on_event::<i64, &str>(b, Ok(9)), Some(9));
}

#[test]
fn dynamic_kinds_carry_their_callbacks_to_the_reactor() {
    let interval: MaybeDynamic<i64> =
        MaybeDynamic::Interval { callback: FuncKey { key: 5 }, interval: 250 };
    match interval.bind() {
        BindDisposition::Interval { callback, interval } => {
            assert_eq!(callback, FuncKey { key: 5 });
            assert_eq!(interval, 250);
        }
        _ => panic!("an interval value binds through a timer"),
    }
    let signal: MaybeDynamic<i64> =
        MaybeDynamic::Signal { callback: FuncKey { key: 6 }, signals: vec!["a".to_string()] };
    match signal.bind() {
        BindDisposition::Signals { callback, signals } => {
            assert_eq!(callback, FuncKey { key: 6 });
            assert_eq!(signals, vec!["a".to_string()]);
        }
        _ => panic!("a signal value binds through subscriptions"),
    }
}

#[test]
fn next_subscription_id_tracks_issued_ids() {
    // The accessor lets a host check the headroom bind_signal requires.
    let mut reactor = Reactor::new();
    assert_eq!(reactor.next_subscription_id(), 0);
    reactor.bind_signal::<i64, &str>(
        FuncKey { key: 1 },
        vec!["a".to_string(), "b".to_string()],
        Ok(1),
    );
    assert_eq!(reactor.next_subscription_id(), 2);
    assert!(reactor.next_subscription_id() <= usize::MAX - 1);
}
