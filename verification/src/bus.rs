//! Publish/subscribe bus for named signals.
//!
//! The bus maps signal names to listeners.  A listener is an opaque token of
//! type `L` (the host keeps the actual callback behind it); subscribing hands
//! out a fresh id that is never reused, and emitting returns a snapshot of
//! the tokens subscribed to the name at that instant.  The snapshot is what
//! makes emission safe under re-entrancy: listeners invoked from it may
//! subscribe or unsubscribe freely without disturbing the delivery that is
//! already under way, and their changes take effect for the next emit.

use vstd::prelude::*;
use crate::text::str_eq;

verus! {

/// One registration in the mathematical model of the bus: a signal name, the
/// subscription id issued for it, and the listener token.
pub struct Sub<L> {
    pub name: Seq<char>,
    pub id: int,
    pub listener: L,
}

/// The model of a registration list.
pub open spec fn reg_view<L>(entries: Seq<(String, usize, L)>) -> Seq<Sub<L>> {
    Seq::new(
        entries.len(),
        |i: int| Sub { name: entries[i].0@, id: entries[i].1 as int, listener: entries[i].2 },
    )
}

/// The listener tokens registered under `name`, in registration order.
pub open spec fn tokens_for<L>(s: Seq<Sub<L>>, name: Seq<char>) -> Seq<L>
    decreases s.len(),
{
    if s.len() == 0 {
        Seq::empty()
    } else {
        let rest = tokens_for(s.drop_last(), name);
        if s.last().name == name {
            rest.push(s.last().listener)
        } else {
            rest
        }
    }
}

/// The registration list with the subscription `(name, id)` removed, and
/// everything else kept in order.
pub open spec fn without<L>(s: Seq<Sub<L>>, name: Seq<char>, id: int) -> Seq<Sub<L>>
    decreases s.len(),
{
    if s.len() == 0 {
        Seq::empty()
    } else {
        let rest = without(s.drop_last(), name, id);
        if s.last().name == name && s.last().id == id {
            rest
        } else {
            rest.push(s.last())
        }
    }
}

/// Whether the subscription `(name, id)` is present.
pub open spec fn has_sub<L>(s: Seq<Sub<L>>, name: Seq<char>, id: int) -> bool {
    exists|i: int| 0 <= i < s.len() && s[i].name == name && s[i].id == id
}

/// Subscription ids grow strictly along the registration list.
pub open spec fn ids_increasing<L>(s: Seq<Sub<L>>) -> bool {
    forall|i: int, j: int| #![trigger s[i], s[j]] 0 <= i < j < s.len() ==> s[i].id < s[j].id
}

/// Publish/subscribe bus for named signals.
///
/// Listeners are opaque copyable tokens; the host owns whatever computation
/// stands behind a token.  The bus is meant to live on a single thread and
/// is mutated only through `subscribe` and `unsubscribe`; `emit` reads it.
pub struct SignalBus<L> {
    entries: Vec<(String, usize, L)>,
    next_id: usize,
}

impl<L: Copy> SignalBus<L> {
    /// The current registrations, abstractly.
    pub closed spec fn subs(self) -> Seq<Sub<L>> {
        reg_view(self.entries@)
    }

    /// The id the next subscription will receive.
    pub closed spec fn next_id_spec(self) -> int {
        self.next_id as int
    }

    /// Well-formedness: every issued id is below `next_id`, and ids are
    /// strictly increasing along the registration list, so an id can never
    /// be reused.
    pub open spec fn wf(self) -> bool {
        &&& forall|i: int| 0 <= i < self.subs().len() ==> (#[trigger] self.subs()[i]).id < self.next_id_spec()
        &&& ids_increasing(self.subs())
    }

    /// An empty bus.
    pub fn new() -> (bus: SignalBus<L>)
        ensures
            bus.wf(),
            bus.subs() == Seq::<Sub<L>>::empty(),
            bus.next_id_spec() == 0,
    {
        let bus = SignalBus { entries: Vec::new(), next_id: 0 };
        proof {
            assert(bus.subs() =~= Seq::<Sub<L>>::empty());
        }
        bus
    }

    /// The id the next subscription will receive.  Ids are issued in
    /// order, so this also tells a caller how much headroom the id counter
    /// has before `subscribe`'s limit.
    pub fn next_subscription_id(&self) -> (r: usize)
        ensures
            r as int == self.next_id_spec(),
    {
        self.next_id
    }

    /// Registers `listener` under `signal` and returns the fresh
    /// subscription id for later removal.
    pub fn subscribe(&mut self, signal: &str, listener: L) -> (id: usize)
        requires
            old(self).wf(),
            old(self).next_id_spec() < usize::MAX,
        ensures
            final(self).wf(),
            id as int == old(self).next_id_spec(),
            final(self).next_id_spec() == old(self).next_id_spec() + 1,
            final(self).subs() == old(self).subs().push(
                Sub { name: signal@, id: id as int, listener },
            ),
    {
        let id = self.next_id;
        self.next_id = id + 1;
        self.entries.push((signal.to_owned(), id, listener));
        proof {
            assert(self.subs() =~= old(self).subs().push(
                Sub { name: signal@, id: id as int, listener },
            ));
        }
        id
    }

    /// Removes the subscription `(signal, id)` if it is present; removing an
    /// id that was never issued, or was already removed, changes nothing.
    pub fn unsubscribe(&mut self, signal: &str, id: usize)
        requires
            old(self).wf(),
        ensures
            final(self).wf(),
            final(self).next_id_spec() == old(self).next_id_spec(),
            final(self).subs() == without(old(self).subs(), signal@, id as int),
    {
        let ghost all = self.subs();
        let mut kept: Vec<(String, usize, L)> = Vec::new();
        let mut i: usize = 0;
        while i < self.entries.len()
            invariant
                i <= self.entries@.len(),
                all == reg_view(self.entries@),
                reg_view(kept@) == without(reg_view(self.entries@.take(i as int)), signal@, id as int),
            decreases self.entries@.len() - i,
        {
            let e = &self.entries[i];
            let ghost prefix = reg_view(self.entries@.take(i as int));
            let ghost next_prefix = reg_view(self.entries@.take(i + 1 as int));
            proof {
                assert(next_prefix.drop_last() =~= prefix);
                assert(next_prefix.last() == Sub::<L> {
                    name: self.entries@[i as int].0@,
                    id: self.entries@[i as int].1 as int,
                    listener: self.entries@[i as int].2,
                });
            }
            if str_eq(e.0.as_str(), signal) && e.1 == id {
                proof {
                    assert(reg_view(kept@) =~= without(next_prefix, signal@, id as int));
                }
            } else {
                kept.push((e.0.clone(), e.1, e.2));
                proof {
                    assert(reg_view(kept@) =~= without(next_prefix, signal@, id as int));
                }
            }
            i = i + 1;
        }
        proof {
            assert(self.entries@.take(self.entries@.len() as int) =~= self.entries@);
        }
        self.entries = kept;
        proof {
            lemma_without_id_bound(all, signal@, id as int, old(self).next_id_spec());
            lemma_without_increasing(all, signal@, id as int);
        }
    }

    /// Returns the snapshot of the listeners subscribed to `signal` at this
    /// instant, in registration order.  Delivering an emission means invoking
    /// every token of the snapshot; the bus itself is not touched, so a
    /// listener that subscribes or unsubscribes while the snapshot is being
    /// delivered cannot change what this emission delivers.
    pub fn emit(&self, signal: &str) -> (out: Vec<L>)
        ensures
            out@ == tokens_for(self.subs(), signal@),
    {
        let mut out: Vec<L> = Vec::new();
        let mut i: usize = 0;
        while i < self.entries.len()
            invariant
                i <= self.entries@.len(),
                out@ == tokens_for(reg_view(self.entries@.take(i as int)), signal@),
            decreases self.entries@.len() - i,
        {
            let e = &self.entries[i];
            let ghost prefix = reg_view(self.entries@.take(i as int));
            let ghost next_prefix = reg_view(self.entries@.take(i + 1 as int));
            proof {
                assert(next_prefix.drop_last() =~= prefix);
            }
            if str_eq(e.0.as_str(), signal) {
                let token = e.2;
                out.push(token);
            }
            proof {
                assert(out@ =~= tokens_for(next_prefix, signal@));
            }
            i = i + 1;
        }
        proof {
            assert(self.entries@.take(self.entries@.len() as int) =~= self.entries@);
        }
        out
    }
}

/// The registration list with every subscription of listener token `tok`
/// removed, and everything else kept in order.
pub open spec fn remove_listener(s: Seq<Sub<usize>>, tok: int) -> Seq<Sub<usize>>
    decreases s.len(),
{
    if s.len() == 0 {
        Seq::empty()
    } else {
        let rest = remove_listener(s.drop_last(), tok);
        if s.last().listener == tok {
            rest
        } else {
            rest.push(s.last())
        }
    }
}

impl SignalBus<usize> {
    /// Removes every subscription whose listener token is `tok`: the bulk
    /// release a binding performs when its target object is destroyed.
    pub fn remove_listener_entries(&mut self, tok: usize)
        requires
            old(self).wf(),
        ensures
            final(self).wf(),
            final(self).next_id_spec() == old(self).next_id_spec(),
            final(self).subs() == remove_listener(old(self).subs(), tok as int),
    {
        let ghost all = self.subs();
        let mut kept: Vec<(String, usize, usize)> = Vec::new();
        let mut i: usize = 0;
        while i < self.entries.len()
            invariant
                i <= self.entries@.len(),
                all == reg_view(self.entries@),
                reg_view(kept@) == remove_listener(reg_view(self.entries@.take(i as int)), tok as int),
            decreases self.entries@.len() - i,
        {
            let e = &self.entries[i];
            let ghost prefix = reg_view(self.entries@.take(i as int));
            let ghost next_prefix = reg_view(self.entries@.take(i + 1 as int));
            proof {
                assert(next_prefix.drop_last() =~= prefix);
                assert(next_prefix.last() == Sub::<usize> {
                    name: self.entries@[i as int].0@,
                    id: self.entries@[i as int].1 as int,
                    listener: self.entries@[i as int].2,
                });
            }
            if e.2 == tok {
                proof {
                    assert(reg_view(kept@) =~= remove_listener(next_prefix, tok as int));
                }
            } else {
                kept.push((e.0.clone(), e.1, e.2));
                proof {
                    assert(reg_view(kept@) =~= remove_listener(next_prefix, tok as int));
                }
            }
            i = i + 1;
        }
        proof {
            assert(self.entries@.take(self.entries@.len() as int) =~= self.entries@);
        }
        self.entries = kept;
        proof {
            lemma_remove_listener_elems(all, tok as int);
            lemma_remove_listener_id_bound(all, tok as int, old(self).next_id_spec());
            lemma_remove_listener_increasing(all, tok as int);
        }
    }
}

/// Every element surviving `remove_listener` is an element of `s` with a
/// different listener token, and every such element survives.
pub proof fn lemma_remove_listener_elems(s: Seq<Sub<usize>>, tok: int)
    ensures
        forall|i: int| 0 <= i < remove_listener(s, tok).len()
            ==> s.contains(#[trigger] remove_listener(s, tok)[i])
                && remove_listener(s, tok)[i].listener != tok,
        forall|j: int|
            0 <= j < s.len() && (#[trigger] s[j]).listener != tok
                ==> remove_listener(s, tok).contains(s[j]),
    decreases s.len(),
{
    if s.len() > 0 {
        let s0 = s.drop_last();
        let w0 = remove_listener(s0, tok);
        let w = remove_listener(s, tok);
        lemma_remove_listener_elems(s0, tok);
        assert forall|i: int| 0 <= i < w.len()
            implies s.contains(#[trigger] w[i]) && w[i].listener != tok by {
            if i < w0.len() {
                assert(s0.contains(w0[i]));
                let k = choose|k: int| 0 <= k < s0.len() && s0[k] == w0[i];
                assert(s[k] == w[i]);
            } else {
                assert(w[i] == s.last());
                assert(s[s.len() - 1] == s.last());
            }
        }
        assert forall|j: int|
            0 <= j < s.len() && (#[trigger] s[j]).listener != tok
            implies w.contains(s[j]) by {
            if j < s.len() - 1 {
                assert(s0[j] == s[j]);
                assert(w0.contains(s0[j]));
                let k = choose|k: int| 0 <= k < w0.len() && w0[k] == s0[j];
                assert(w[k] == s[j]);
            } else {
                assert(s[j] == s.last());
                assert(w[w.len() - 1] == s.last());
            }
        }
    }
}

/// Every id surviving `remove_listener` is below any bound that held for `s`.
proof fn lemma_remove_listener_id_bound(s: Seq<Sub<usize>>, tok: int, bound: int)
    requires
        forall|i: int| 0 <= i < s.len() ==> (#[trigger] s[i]).id < bound,
    ensures
        forall|i: int|
            0 <= i < remove_listener(s, tok).len()
                ==> (#[trigger] remove_listener(s, tok)[i]).id < bound,
{
    lemma_remove_listener_elems(s, tok);
    assert forall|i: int|
        0 <= i < remove_listener(s, tok).len()
        implies (#[trigger] remove_listener(s, tok)[i]).id < bound by {
        let e = remove_listener(s, tok)[i];
        let k = choose|k: int| 0 <= k < s.len() && s[k] == e;
        assert(s[k].id < bound);
    }
}

/// `remove_listener` keeps subscription ids strictly increasing.
proof fn lemma_remove_listener_increasing(s: Seq<Sub<usize>>, tok: int)
    requires
        ids_increasing(s),
    ensures
        ids_increasing(remove_listener(s, tok)),
    decreases s.len(),
{
    if s.len() > 0 {
        let s0 = s.drop_last();
        assert(forall|i: int| 0 <= i < s0.len() ==> s0[i] == s[i]);
        lemma_remove_listener_increasing(s0, tok);
        if s.last().listener != tok {
            assert(forall|i: int| 0 <= i < s0.len() ==> (#[trigger] s0[i]).id < s.last().id);
            lemma_remove_listener_id_bound(s0, tok, s.last().id);
        }
    }
}

/// After a listener token's subscriptions are removed, no emission of any
/// name delivers to that token.
pub proof fn lemma_remove_listener_silences(s: Seq<Sub<usize>>, tok: usize, name: Seq<char>)
    ensures
        !tokens_for(remove_listener(s, tok as int), name).contains(tok),
{
    lemma_remove_listener_elems(s, tok as int);
    lemma_tokens_no_listener(remove_listener(s, tok as int), tok, name);
}

/// A token absent from a registration list is absent from every emission
/// snapshot of it.
proof fn lemma_tokens_no_listener(s: Seq<Sub<usize>>, tok: usize, name: Seq<char>)
    requires
        forall|i: int| 0 <= i < s.len() ==> (#[trigger] s[i]).listener != tok,
    ensures
        !tokens_for(s, name).contains(tok),
    decreases s.len(),
{
    if s.len() > 0 {
        let s0 = s.drop_last();
        assert(forall|i: int| 0 <= i < s0.len() ==> s0[i] == s[i]);
        assert(s[s.len() - 1] == s.last());
        lemma_tokens_no_listener(s0, tok, name);
        let t = tokens_for(s, name);
        let t0 = tokens_for(s0, name);
        if t.contains(tok) {
            let k = choose|k: int| 0 <= k < t.len() && t[k] == tok;
            if s.last().name == name && k == t.len() - 1 {
                assert(s.last().listener == tok);
            } else {
                assert(t0.contains(tok));
            }
        }
    }
}

/// Every element surviving `without` is an element of `s` other than the
/// removed pair, and every element of `s` other than the removed pair
/// survives.
proof fn lemma_without_elems<L>(s: Seq<Sub<L>>, name: Seq<char>, id: int)
    ensures
        forall|i: int| 0 <= i < without(s, name, id).len()
            ==> s.contains(#[trigger] without(s, name, id)[i])
                && !(without(s, name, id)[i].name == name && without(s, name, id)[i].id == id),
        forall|j: int|
            0 <= j < s.len() && !((#[trigger] s[j]).name == name && s[j].id == id)
                ==> without(s, name, id).contains(s[j]),
    decreases s.len(),
{
    if s.len() > 0 {
        let s0 = s.drop_last();
        let w0 = without(s0, name, id);
        let w = without(s, name, id);
        lemma_without_elems(s0, name, id);
        assert forall|i: int| 0 <= i < w.len()
            implies s.contains(#[trigger] w[i]) && !(w[i].name == name && w[i].id == id) by {
            if i < w0.len() {
                assert(s0.contains(w0[i]));
                let k = choose|k: int| 0 <= k < s0.len() && s0[k] == w0[i];
                assert(s[k] == w[i]);
            } else {
                assert(w[i] == s.last());
                assert(s[s.len() - 1] == s.last());
            }
        }
        assert forall|j: int|
            0 <= j < s.len() && !((#[trigger] s[j]).name == name && s[j].id == id)
            implies w.contains(s[j]) by {
            if j < s.len() - 1 {
                assert(s0[j] == s[j]);
                assert(w0.contains(s0[j]));
                let k = choose|k: int| 0 <= k < w0.len() && w0[k] == s0[j];
                assert(w[k] == s[j]);
            } else {
                assert(s[j] == s.last());
                assert(w[w.len() - 1] == s.last());
            }
        }
    }
}

/// Every id surviving `without` is below any bound that held for `s`.
proof fn lemma_without_id_bound<L>(s: Seq<Sub<L>>, name: Seq<char>, id: int, bound: int)
    requires
        forall|i: int| 0 <= i < s.len() ==> (#[trigger] s[i]).id < bound,
    ensures
        forall|i: int|
            0 <= i < without(s, name, id).len() ==> (#[trigger] without(s, name, id)[i]).id < bound,
{
    lemma_without_elems(s, name, id);
    assert forall|i: int|
        0 <= i < without(s, name, id).len()
        implies (#[trigger] without(s, name, id)[i]).id < bound by {
        let e = without(s, name, id)[i];
        let k = choose|k: int| 0 <= k < s.len() && s[k] == e;
        assert(s[k].id < bound);
    }
}

/// `without` keeps subscription ids strictly increasing.
proof fn lemma_without_increasing<L>(s: Seq<Sub<L>>, name: Seq<char>, id: int)
    requires
        ids_increasing(s),
    ensures
        ids_increasing(without(s, name, id)),
    decreases s.len(),
{
    if s.len() > 0 {
        let s0 = s.drop_last();
        assert(forall|i: int| 0 <= i < s0.len() ==> s0[i] == s[i]);
        lemma_without_increasing(s0, name, id);
        if !(s.last().name == name && s.last().id == id) {
            assert(forall|i: int| 0 <= i < s0.len() ==> (#[trigger] s0[i]).id < s.last().id);
            lemma_without_id_bound(s0, name, id, s.last().id);
        }
    }
}

/// Unsubscribing a pair that is not present leaves the bus unchanged.
pub proof fn lemma_unsubscribe_absent<L>(s: Seq<Sub<L>>, name: Seq<char>, id: int)
    requires
        !has_sub(s, name, id),
    ensures
        without(s, name, id) == s,
    decreases s.len(),
{
    if s.len() > 0 {
        assert(forall|i: int| 0 <= i < s.drop_last().len() ==> s.drop_last()[i] == s[i]);
        assert(!(s.last().name == name && s.last().id == id)) by {
            assert(s[s.len() - 1] == s.last());
        }
        lemma_unsubscribe_absent(s.drop_last(), name, id);
        assert(without(s, name, id) =~= s);
    } else {
        assert(without(s, name, id) =~= s);
    }
}

/// After a new subscription, the listeners of the subscribed name gain the
/// new token at the end, and every other name sees exactly what it saw
/// before: a listener subscribed during an emission is delivered to starting
/// with the next emission of its name, and no other emission changes.
pub proof fn lemma_tokens_after_subscribe<L>(s: Seq<Sub<L>>, sub: Sub<L>, name: Seq<char>)
    ensures
        sub.name == name ==> tokens_for(s.push(sub), name) == tokens_for(s, name).push(sub.listener),
        sub.name != name ==> tokens_for(s.push(sub), name) == tokens_for(s, name),
{
    assert(s.push(sub).drop_last() =~= s);
    assert(s.push(sub).last() == sub);
}

/// After `unsubscribe(name, id)`, that pair is gone, and every other pair is
/// exactly as present as it was before.
pub proof fn lemma_sub_after_unsubscribe<L>(
    s: Seq<Sub<L>>,
    name: Seq<char>,
    id: int,
    name2: Seq<char>,
    id2: int,
)
    ensures
        !has_sub(without(s, name, id), name, id),
        name2 != name || id2 != id ==> has_sub(without(s, name, id), name2, id2) == has_sub(s, name2, id2),
{
    let w = without(s, name, id);
    lemma_without_elems(s, name, id);
    if has_sub(w, name, id) {
        let i = choose|i: int| 0 <= i < w.len() && w[i].name == name && w[i].id == id;
        assert(false);
    }
    if name2 != name || id2 != id {
        if has_sub(s, name2, id2) {
            let j = choose|j: int| 0 <= j < s.len() && s[j].name == name2 && s[j].id == id2;
            assert(w.contains(s[j]));
            let k = choose|k: int| 0 <= k < w.len() && w[k] == s[j];
            assert(has_sub(w, name2, id2));
        }
        if has_sub(w, name2, id2) {
            let i = choose|i: int| 0 <= i < w.len() && w[i].name == name2 && w[i].id == id2;
            assert(s.contains(w[i]));
            let k = choose|k: int| 0 <= k < s.len() && s[k] == w[i];
            assert(has_sub(s, name2, id2));
        }
    }
}

/// Emission snapshots distribute over concatenation of registration
/// lists: what a combined list delivers is what its parts deliver, in
/// order.
pub proof fn lemma_tokens_concat<L>(s: Seq<Sub<L>>, t: Seq<Sub<L>>, name: Seq<char>)
    ensures
        tokens_for(s + t, name) == tokens_for(s, name) + tokens_for(t, name),
    decreases t.len(),
{
    if t.len() == 0 {
        assert(s + t =~= s);
        assert(tokens_for(t, name) =~= Seq::<L>::empty());
        assert(tokens_for(s, name) + tokens_for(t, name) =~= tokens_for(s, name));
    } else {
        lemma_tokens_concat(s, t.drop_last(), name);
        assert((s + t).drop_last() =~= s + t.drop_last());
        assert((s + t).last() == t.last());
        if t.last().name == name {
            assert(tokens_for(s + t, name) =~= tokens_for(s, name) + tokens_for(t, name));
        } else {
            assert(tokens_for(s + t, name) =~= tokens_for(s, name) + tokens_for(t, name));
        }
    }
}

/// What a batch of fresh subscriptions — one per name, all for one
/// listener token, as a signal binding makes them — contributes to
/// future emissions: every emission of a subscribed name will deliver to
/// the token, once per occurrence of the name, and emissions of other
/// names are untouched.
pub proof fn lemma_new_subscriptions_tokens(
    names: Seq<Seq<char>>,
    base: int,
    tok: usize,
    name: Seq<char>,
)
    ensures
        ({
            let entries = Seq::new(
                names.len(),
                |j: int| (Sub { name: names[j], id: base + j, listener: tok }),
            );
            &&& !names.contains(name) ==> tokens_for(entries, name) == Seq::<usize>::empty()
            &&& names.contains(name) ==> tokens_for(entries, name).contains(tok)
            &&& forall|k: int|
                0 <= k < tokens_for(entries, name).len() ==> tokens_for(entries, name)[k] == tok
        }),
    decreases names.len(),
{
    let entries = Seq::new(
        names.len(),
        |j: int| (Sub { name: names[j], id: base + j, listener: tok }),
    );
    if names.len() == 0 {
        assert(tokens_for(entries, name) =~= Seq::<usize>::empty());
    } else {
        lemma_new_subscriptions_tokens(names.drop_last(), base, tok, name);
        let prev = Seq::new(
            names.drop_last().len(),
            |j: int| (Sub { name: names.drop_last()[j], id: base + j, listener: tok }),
        );
        assert(entries.drop_last() =~= prev);
        assert(entries.last() == (Sub {
            name: names.last(),
            id: base + names.len() - 1,
            listener: tok,
        }));
        let te = tokens_for(entries, name);
        let tp = tokens_for(prev, name);
        if names.last() == name {
            assert(te == tp.push(tok));
        } else {
            assert(te == tp);
        }
        assert forall|k: int| 0 <= k < te.len() implies te[k] == tok by {
            if names.last() == name && k == te.len() - 1 {
                assert(te[k] == tok);
            } else {
                assert(te[k] == tp[k]);
            }
        }
        if names.contains(name) {
            let w = choose|i: int| 0 <= i < names.len() && names[i] == name;
            if w < names.len() - 1 {
                assert(names.drop_last()[w] == name);
                assert(names.drop_last().contains(name));
                let k = choose|k: int| 0 <= k < tp.len() && tp[k] == tok;
                assert(te[k] == tok);
                assert(te.contains(tok));
            } else {
                assert(names.last() == name);
                assert(te[te.len() - 1] == tok);
                assert(te.contains(tok));
            }
        } else {
            if names.drop_last().contains(name) {
                let w = choose|i: int|
                    0 <= i < names.drop_last().len() && names.drop_last()[i] == name;
                assert(names[w] == name);
            }
            assert(tp == Seq::<usize>::empty());
            assert(names.last() != name) by {
                assert(names[names.len() - 1] == names.last());
            }
            assert(te =~= Seq::<usize>::empty());
        }
    }
}

} // verus!
