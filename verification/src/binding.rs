//! The binding engine: the live link between a dynamic value and a target
//! object's property, with its cleanup obligations.
//!
//! The engine is a state machine driven by the host.  The host evaluates
//! script callbacks, schedules timers, and watches target objects for
//! destruction; every decision — whether a result is applied, which
//! subscriptions a binding holds, what must be released on destruction —
//! is made here and stated in the contracts.
//!
//! Lifecycle of a binding:
//!
//! * A `Static` value is applied exactly once, synchronously, and no
//!   binding is registered at all.
//! * An `Interval` value is evaluated once immediately (a failure aborts the
//!   setup and the property is never initialized), then re-evaluated on a
//!   timer; later failures are logged by the host and the timer continues.
//! * A `Signal` value is evaluated once immediately (a failure is logged,
//!   the property is left unset), then re-evaluated on every emission of
//!   any of its signal names.
//! * When the target object is destroyed the host calls [`Reactor::destroy`]
//!   once per destruction notification: the first call releases the timer
//!   and every subscription; any further call is a no-op.  After that, no
//!   result is ever applied for the binding again.

use vstd::prelude::*;
use crate::bus::{SignalBus, Sub, remove_listener, tokens_for};
use crate::dynamic::MaybeDynamic;
use crate::value::FuncKey;

verus! {

/// How a dynamic value is attached to a property: the dispatch the binding
/// engine makes over the three kinds of [`MaybeDynamic`] value.
pub enum BindDisposition<T> {
    /// Apply this value to the property now, exactly once; no timer runs,
    /// nothing is subscribed, and nothing needs cleanup.
    Immediate(T),
    /// Evaluate `callback` once now, abort on failure, then hand the result
    /// to [`Reactor::bind_interval`] and run a timer every `interval`
    /// milliseconds.
    Interval { callback: FuncKey, interval: u64 },
    /// Evaluate `callback` once now with the empty payload, log on failure,
    /// then hand the result to [`Reactor::bind_signal`].
    Signals { callback: FuncKey, signals: Vec<String> },
}

impl<T> MaybeDynamic<T> {
    /// Decides how this value is bound to a property.  A `Static` value is
    /// applied immediately and exactly once — synchronously, with the value
    /// itself, and with no background work scheduled; the dynamic kinds
    /// carry their callback on to the reactor.
    pub fn bind(self) -> (d: BindDisposition<T>)
        ensures
            (match self {
                MaybeDynamic::Static(v) => d == BindDisposition::Immediate(v),
                MaybeDynamic::Interval { callback, interval } => d == (BindDisposition::<T>::Interval {
                    callback,
                    interval,
                }),
                MaybeDynamic::Signal { callback, signals } => d == (BindDisposition::<T>::Signals {
                    callback,
                    signals,
                }),
            }),
    {
        match self {
            MaybeDynamic::Static(v) => BindDisposition::Immediate(v),
            MaybeDynamic::Interval { callback, interval } => BindDisposition::Interval {
                callback,
                interval,
            },
            MaybeDynamic::Signal { callback, signals } => BindDisposition::Signals {
                callback,
                signals,
            },
        }
    }
}

/// The state the engine keeps for one live (or destroyed) binding.
pub struct BindingSlot {
    /// Whether the target object is still alive.  Cleared exactly once, by
    /// [`Reactor::destroy`].
    pub alive: bool,
    /// The script callback that recomputes the value.
    pub callback: FuncKey,
    /// `Some(period)` while a recurring timer with that period in
    /// milliseconds is scheduled for this binding.
    pub timer: Option<u64>,
    /// The (signal name, subscription id) pairs this binding holds on the
    /// bus.
    pub subs: Vec<(String, usize)>,
    /// How many times a recomputed value has been applied to the property,
    /// counting the initial evaluation.
    pub applies: Ghost<nat>,
}

/// The subscription pairs of a slot, abstractly.
pub open spec fn slot_pairs(slot: BindingSlot) -> Seq<(Seq<char>, int)> {
    Seq::new(slot.subs@.len(), |j: int| (slot.subs@[j].0@, slot.subs@[j].1 as int))
}

/// The binding engine: owns the signal bus and the binding table.
///
/// Listener tokens on the bus are binding ids; an emission snapshot is a
/// list of binding ids, and the host answers each by evaluating that
/// binding's callback and handing the result to [`Reactor::on_event`].
pub struct Reactor {
    bus: SignalBus<usize>,
    bindings: Vec<BindingSlot>,
}

impl Reactor {
    /// The bus registrations, abstractly.
    pub closed spec fn bus_subs(self) -> Seq<Sub<usize>> {
        self.bus.subs()
    }

    /// The id the bus will give its next subscription.
    pub closed spec fn bus_next_id(self) -> int {
        self.bus.next_id_spec()
    }

    /// The binding table, abstractly.  A binding id is an index into it.
    pub closed spec fn slots(self) -> Seq<BindingSlot> {
        self.bindings@
    }

    /// Well-formedness: the bus is well formed, every listener token on the
    /// bus names a binding, and a destroyed binding holds no timer and no
    /// subscriptions.
    pub closed spec fn wf(self) -> bool {
        &&& self.bus.wf()
        &&& forall|k: int|
            0 <= k < self.bus.subs().len()
                ==> (#[trigger] self.bus.subs()[k]).listener < self.bindings@.len()
        &&& forall|b: int|
            0 <= b < self.bindings@.len() && !(#[trigger] self.bindings@[b]).alive
                ==> self.bindings@[b].timer is None && slot_pairs(self.bindings@[b]).len() == 0
    }

    /// A fresh engine with no bindings and an empty bus.
    pub fn new() -> (r: Reactor)
        ensures
            r.wf(),
            r.slots().len() == 0,
            r.bus_subs().len() == 0,
            r.bus_next_id() == 0,
    {
        Reactor { bus: SignalBus::new(), bindings: Vec::new() }
    }

    /// The id the bus will give its next subscription: the executable
    /// view of the counter `bind_signal`'s headroom precondition speaks
    /// of, so a host can check it before binding.
    pub fn next_subscription_id(&self) -> (r: usize)
        ensures
            r as int == self.bus_next_id(),
    {
        self.bus.next_subscription_id()
    }

    /// Registers an interval binding.
    ///
    /// `initial` is the result of the one evaluation the host performed
    /// before calling: a failure aborts the whole setup — the engine is
    /// left untouched, no binding exists, and the property is never
    /// initialized.  On success the returned value must be applied to the
    /// property now (it is already counted), and the host must schedule a
    /// recurring timer of `interval` milliseconds that reports each firing
    /// through [`Reactor::on_timer`] with the returned binding id.
    pub fn bind_interval<T, E>(
        &mut self,
        callback: FuncKey,
        interval: u64,
        initial: Result<T, E>,
    ) -> (r: Result<(usize, T), E>)
        requires
            old(self).wf(),
        ensures
            final(self).wf(),
            final(self).bus_subs() == old(self).bus_subs(),
            final(self).bus_next_id() == old(self).bus_next_id(),
            (match initial {
                Err(e) => r matches Err(e2) && e2 == e && final(self).slots() == old(self).slots(),
                Ok(v) => {
                    &&& r matches Ok(p) && p.1 == v && p.0 as int == old(self).slots().len()
                    &&& final(self).slots().len() == old(self).slots().len() + 1
                    &&& forall|b: int|
                        0 <= b < old(self).slots().len()
                            ==> final(self).slots()[b] == old(self).slots()[b]
                    &&& final(self).slots().last().alive
                    &&& final(self).slots().last().callback == callback
                    &&& final(self).slots().last().timer == Some(interval)
                    &&& slot_pairs(final(self).slots().last()).len() == 0
                    &&& final(self).slots().last().applies@ == 1
                },
            }),
    {
        match initial {
            Err(e) => Err(e),
            Ok(v) => {
                let id = self.bindings.len();
                let slot = BindingSlot {
                    alive: true,
                    callback,
                    timer: Some(interval),
                    subs: Vec::new(),
                    applies: Ghost(1),
                };
                proof {
                    assert(slot_pairs(slot) =~= Seq::<(Seq<char>, int)>::empty());
                }
                self.bindings.push(slot);
                Ok((id, v))
            }
        }
    }

    /// Registers a signal binding: one bus subscription per name, all
    /// sharing this binding's callback.
    ///
    /// `initial` is the result of the one evaluation the host performed
    /// with the empty payload.  Unlike an interval binding, a failure here
    /// does not abort: it is logged by the host, the property is left
    /// unset, and the binding is registered all the same.  The returned
    /// option is the value to apply now, if there is one.
    pub fn bind_signal<T, E>(
        &mut self,
        callback: FuncKey,
        signals: Vec<String>,
        initial: Result<T, E>,
    ) -> (r: (usize, Option<T>))
        requires
            old(self).wf(),
            old(self).bus_next_id() + signals@.len() <= usize::MAX,
        ensures
            final(self).wf(),
            r.0 as int == old(self).slots().len(),
            (match initial {
                Ok(v) => r.1 == Some(v) && final(self).slots().last().applies@ == 1,
                Err(_) => r.1 is None && final(self).slots().last().applies@ == 0,
            }),
            final(self).slots().len() == old(self).slots().len() + 1,
            forall|b: int|
                0 <= b < old(self).slots().len() ==> final(self).slots()[b] == old(self).slots()[b],
            final(self).slots().last().alive,
            final(self).slots().last().callback == callback,
            final(self).slots().last().timer is None,
            slot_pairs(final(self).slots().last()) == Seq::new(
                signals@.len(),
                |j: int| (signals@[j]@, old(self).bus_next_id() + j),
            ),
            final(self).bus_next_id() == old(self).bus_next_id() + signals@.len(),
            final(self).bus_subs() == old(self).bus_subs() + Seq::new(
                signals@.len(),
                |j: int| (Sub {
                    name: signals@[j]@,
                    id: old(self).bus_next_id() + j,
                    listener: old(self).slots().len() as usize,
                }),
            ),
    {
        let id = self.bindings.len();
        let ghost base = self.bus.next_id_spec();
        let ghost new_subs = Seq::new(
            signals@.len(),
            |j: int| (Sub { name: signals@[j]@, id: base + j, listener: id }),
        );
        let mut pairs: Vec<(String, usize)> = Vec::new();
        let mut i: usize = 0;
        proof {
            assert(self.bus.subs() =~= old(self).bus_subs() + new_subs.take(0));
        }
        while i < signals.len()
            invariant
                old(self).wf(),
                i <= signals@.len(),
                id as int == old(self).slots().len(),
                base == old(self).bus_next_id(),
                base + signals@.len() <= usize::MAX,
                new_subs == Seq::new(
                    signals@.len(),
                    |j: int| (Sub { name: signals@[j]@, id: base + j, listener: id }),
                ),
                self.bindings == old(self).bindings,
                self.bus.wf(),
                self.bus.next_id_spec() == base + i,
                self.bus.subs() == old(self).bus_subs() + new_subs.take(i as int),
                pairs@.len() == i,
                forall|j: int|
                    0 <= j < i
                        ==> (#[trigger] pairs@[j]).0@ == signals@[j]@ && pairs@[j].1 as int == base
                            + j,
            decreases signals@.len() - i,
        {
            let name = &signals[i];
            let sub_id = self.bus.subscribe(name.as_str(), id);
            pairs.push((name.clone(), sub_id));
            proof {
                assert(self.bus.subs() =~= old(self).bus_subs() + new_subs.take(i + 1));
            }
            i = i + 1;
        }
        proof {
            assert(new_subs.take(signals@.len() as int) =~= new_subs);
        }
        let applied: Option<T> = match initial {
            Ok(v) => Some(v),
            Err(_) => None,
        };
        let ghost count: nat = if applied is Some { 1 } else { 0 };
        let slot = BindingSlot {
            alive: true,
            callback,
            timer: None,
            subs: pairs,
            applies: Ghost(count),
        };
        proof {
            assert(slot_pairs(slot) =~= Seq::new(
                signals@.len(),
                |j: int| (signals@[j]@, base + j),
            ));
        }
        self.bindings.push(slot);
        (id, applied)
    }

    /// Reports one firing of a binding's timer, with the result of the
    /// host's re-evaluation of its callback.
    ///
    /// While the binding is alive, a successful result is applied — the
    /// host applies the returned value to the property — and a failure is
    /// logged and skipped, the timer running on.  Once the binding's target
    /// is destroyed nothing is ever applied again, whatever the host hands
    /// in; the apply counter stops.
    pub fn on_timer<T, E>(&mut self, id: usize, result: Result<T, E>) -> (r: Option<T>)
        requires
            old(self).wf(),
            id < old(self).slots().len(),
        ensures
            final(self).wf(),
            final(self).bus_subs() == old(self).bus_subs(),
            final(self).bus_next_id() == old(self).bus_next_id(),
            final(self).slots().len() == old(self).slots().len(),
            forall|b: int|
                0 <= b < old(self).slots().len() && b != id
                    ==> final(self).slots()[b] == old(self).slots()[b],
            ({
                let s = old(self).slots()[id as int];
                let s2 = final(self).slots()[id as int];
                &&& s2.alive == s.alive
                &&& s2.callback == s.callback
                &&& s2.timer == s.timer
                &&& s2.subs == s.subs
                &&& if s.alive && s.timer is Some {
                    match result {
                        Ok(v) => r == Some(v) && s2.applies@ == s.applies@ + 1,
                        Err(_) => r is None && s2.applies@ == s.applies@,
                    }
                } else {
                    r is None && s2.applies@ == s.applies@
                }
            }),
    {
        let alive = self.bindings[id].alive;
        let has_timer = self.bindings[id].timer.is_some();
        if alive && has_timer {
            match result {
                Ok(v) => {
                    let ghost a = self.bindings@[id as int].applies@;
                    self.bindings[id].applies = Ghost((a + 1) as nat);
                    Some(v)
                }
                Err(_) => None,
            }
        } else {
            None
        }
    }

    /// Reports one delivery of an emission to a binding, with the result of
    /// the host's re-evaluation of its callback on the payload.
    ///
    /// While the binding is alive, a successful result is applied and a
    /// failure is logged and skipped.  A delivery that reaches a destroyed
    /// binding — a snapshot taken before the destruction — applies
    /// nothing.
    pub fn on_event<T, E>(&mut self, id: usize, result: Result<T, E>) -> (r: Option<T>)
        requires
            old(self).wf(),
            id < old(self).slots().len(),
        ensures
            final(self).wf(),
            final(self).bus_subs() == old(self).bus_subs(),
            final(self).bus_next_id() == old(self).bus_next_id(),
            final(self).slots().len() == old(self).slots().len(),
            forall|b: int|
                0 <= b < old(self).slots().len() && b != id
                    ==> final(self).slots()[b] == old(self).slots()[b],
            ({
                let s = old(self).slots()[id as int];
                let s2 = final(self).slots()[id as int];
                &&& s2.alive == s.alive
                &&& s2.callback == s.callback
                &&& s2.timer == s.timer
                &&& s2.subs == s.subs
                &&& if s.alive {
                    match result {
                        Ok(v) => r == Some(v) && s2.applies@ == s.applies@ + 1,
                        Err(_) => r is None && s2.applies@ == s.applies@,
                    }
                } else {
                    r is None && s2.applies@ == s.applies@
                }
            }),
    {
        let alive = self.bindings[id].alive;
        if alive {
            match result {
                Ok(v) => {
                    let ghost a = self.bindings@[id as int].applies@;
                    self.bindings[id].applies = Ghost((a + 1) as nat);
                    Some(v)
                }
                Err(_) => None,
            }
        } else {
            None
        }
    }

    /// Takes the emission snapshot for `signal`: the binding ids subscribed
    /// to it at this instant, in subscription order.  The host evaluates
    /// each binding's callback on the payload and reports through
    /// [`Reactor::on_event`]; bindings subscribed or destroyed meanwhile
    /// do not affect this snapshot.
    pub fn emit(&self, signal: &str) -> (out: Vec<usize>)
        requires
            self.wf(),
        ensures
            out@ == tokens_for(self.bus_subs(), signal@),
            forall|k: int| 0 <= k < out@.len() ==> (#[trigger] out@[k]) < self.slots().len(),
    {
        let out = self.bus.emit(signal);
        proof {
            lemma_tokens_below(self.bus.subs(), signal@, self.slots().len() as int);
        }
        out
    }

    /// Releases a binding when its target object is destroyed: clears the
    /// timer (returning its period so the host cancels the scheduled
    /// source) and removes every bus subscription the binding holds.
    /// Destruction is idempotent — a second call finds nothing to release
    /// and changes nothing.
    pub fn destroy(&mut self, id: usize) -> (cancel: Option<u64>)
        requires
            old(self).wf(),
            id < old(self).slots().len(),
        ensures
            final(self).wf(),
            final(self).bus_next_id() == old(self).bus_next_id(),
            final(self).slots().len() == old(self).slots().len(),
            forall|b: int|
                0 <= b < old(self).slots().len() && b != id
                    ==> final(self).slots()[b] == old(self).slots()[b],
            !final(self).slots()[id as int].alive,
            final(self).slots()[id as int].timer is None,
            slot_pairs(final(self).slots()[id as int]).len() == 0,
            final(self).slots()[id as int].applies@ == old(self).slots()[id as int].applies@,
            final(self).slots()[id as int].callback == old(self).slots()[id as int].callback,
            (if old(self).slots()[id as int].alive {
                &&& cancel == old(self).slots()[id as int].timer
                &&& final(self).bus_subs() == remove_listener(old(self).bus_subs(), id as int)
            } else {
                &&& cancel is None
                &&& final(self).bus_subs() == old(self).bus_subs()
            }),
    {
        let alive = self.bindings[id].alive;
        if !alive {
            proof {
                assert(*final(self) == *self);
            }
            return None;
        }
        let slot = &mut self.bindings[id];
        let cancel = slot.timer;
        slot.alive = false;
        slot.timer = None;
        slot.subs = Vec::new();
        proof {
            assert(slot_pairs(*final(slot)) =~= Seq::<(Seq<char>, int)>::empty());
        }
        self.bus.remove_listener_entries(id);
        proof {
            crate::bus::lemma_remove_listener_elems(old(self).bus_subs(), id as int);
            assert forall|k: int| 0 <= k < self.bus.subs().len()
                implies (#[trigger] self.bus.subs()[k]).listener < self.bindings@.len() by {
                let e = self.bus.subs()[k];
                let j = choose|j: int| 0 <= j < old(self).bus_subs().len() && old(self).bus_subs()[j] == e;
                assert(old(self).bus_subs()[j].listener < old(self).slots().len());
            }
        }
        cancel
    }
}

/// Every token of an emission snapshot is below any bound the registration
/// list's tokens respect.
proof fn lemma_tokens_below(s: Seq<Sub<usize>>, name: Seq<char>, bound: int)
    requires
        forall|k: int| 0 <= k < s.len() ==> (#[trigger] s[k]).listener < bound,
    ensures
        forall|k: int|
            0 <= k < tokens_for(s, name).len() ==> (#[trigger] tokens_for(s, name)[k]) < bound,
    decreases s.len(),
{
    if s.len() > 0 {
        let s0 = s.drop_last();
        assert(forall|i: int| 0 <= i < s0.len() ==> s0[i] == s[i]);
        assert(s[s.len() - 1] == s.last());
        lemma_tokens_below(s0, name, bound);
        let t0 = tokens_for(s0, name);
        assert forall|k: int|
            0 <= k < tokens_for(s, name).len()
            implies (#[trigger] tokens_for(s, name)[k]) < bound by {
            if s.last().name == name {
                if k < tokens_for(s, name).len() - 1 {
                    assert(tokens_for(s, name)[k] == t0[k]);
                } else {
                    assert(tokens_for(s, name)[k] == s.last().listener);
                }
            } else {
                assert(tokens_for(s, name)[k] == t0[k]);
            }
        }
    }
}


/// The apply count an interval binding reaches after a series of timer
/// firings: the count it started with, plus one for every firing whose
/// re-evaluation succeeded.  This is the fold of [`Reactor::on_timer`]'s
/// contract over the firings of one live binding.
pub open spec fn applies_after_firings(initial: nat, success: Seq<bool>) -> nat
    decreases success.len(),
{
    if success.len() == 0 {
        initial
    } else {
        applies_after_firings(initial, success.drop_last()) + (if success.last() {
            1nat
        } else {
            0nat
        })
    }
}

/// After `N` timer firings that all succeed, an interval binding's value
/// has been applied `N + 1` times: once on setup — `bind_interval` starts
/// the counter at one — and once per firing.
pub proof fn lemma_interval_applies(success: Seq<bool>)
    requires
        forall|i: int| 0 <= i < success.len() ==> success[i],
    ensures
        applies_after_firings(1, success) == success.len() + 1,
    decreases success.len(),
{
    if success.len() > 0 {
        assert(success[success.len() - 1]);
        lemma_interval_applies(success.drop_last());
    }
}

/// Once a binding is destroyed, no emission of any signal reaches it:
/// destruction removed all its subscriptions from the bus, so no later
/// snapshot contains its id — and a snapshot taken before the
/// destruction applies nothing either, by [`Reactor::on_event`]'s
/// contract for a binding that is no longer alive.
pub proof fn lemma_destroy_silences(pre: Reactor, post: Reactor, id: usize, name: Seq<char>)
    requires
        post.bus_subs() == remove_listener(pre.bus_subs(), id as int),
    ensures
        !tokens_for(post.bus_subs(), name).contains(id),
{
    crate::bus::lemma_remove_listener_silences(pre.bus_subs(), id, name);
}

} // verus!
