use crate::cache::{
    fetched, fetches, found, get_or_create, key_of, lemma_nothing_is_found_without, same_name,
    without, Entries, OptionsMonitorCache,
};
use crate::factory::OptionsFactory;
use crate::monitor::Subscription;
use crate::names::{name_of, name_ref, owned_name_of, Text};
use crate::validate::{ValidateOptionsResult, ValidationOutcome};
use crate::{Ref, Value};
use std::marker::PhantomData;
use vstd::prelude::*;

verus! {

/// A registered listener: the callback, the number it was registered under,
/// and whether its subscription is still held.
pub struct Listener<L> {
    /// The number of the registration.
    pub id: u64,
    /// Whether the subscription is still held.
    pub alive: bool,
    /// The callback to invoke on a change.
    pub callback: Ref<L>,
}

/// The listeners whose subscription is still held, in the order in which they
/// were registered.
pub open spec fn live<L>(listeners: Seq<Listener<L>>) -> Seq<Listener<L>>
    decreases listeners.len(),
{
    if listeners.len() == 0 {
        Seq::empty()
    } else if listeners.last().alive {
        live(listeners.drop_last()).push(listeners.last())
    } else {
        live(listeners.drop_last())
    }
}

/// The numbers of the listeners, in their order.
pub open spec fn ids<L>(listeners: Seq<Listener<L>>) -> Seq<u64> {
    listeners.map_values(|l: Listener<L>| l.id)
}

/// The callbacks of the listeners, in their order.
pub open spec fn callbacks<L>(listeners: Seq<Listener<L>>) -> Seq<Ref<L>> {
    listeners.map_values(|l: Listener<L>| l.callback)
}

/// The listeners after the subscription with number `id` was given up: that
/// listener stays where it is, but is no longer alive.
pub open spec fn cancelled<L>(listeners: Seq<Listener<L>>, id: u64) -> Seq<Listener<L>> {
    listeners.map_values(
        |l: Listener<L>|
            if l.id == id {
                Listener { id: l.id, alive: false, callback: l.callback }
            } else {
                l
            },
    )
}

/// The listeners after one more was registered under the number `id`: those
/// that are no longer alive are gone, and the new one comes last.
pub open spec fn registered<L>(listeners: Seq<Listener<L>>, id: u64, callback: Ref<L>) -> Seq<
    Listener<L>,
> {
    live(listeners).push(Listener { id, alive: true, callback })
}

/// The numbers grow along the listeners and stay below `next`, the number
/// that the next registration gets.
pub open spec fn numbered<L>(listeners: Seq<Listener<L>>, next: u64) -> bool {
    &&& forall|i: int, j: int|
        0 <= i < j < listeners.len() ==> (#[trigger] listeners[i]).id < (
        #[trigger] listeners[j]).id
    &&& forall|i: int| 0 <= i < listeners.len() ==> (#[trigger] listeners[i]).id < next
}

/// The live listeners of two sequences written one after the other are the
/// live listeners of the first followed by those of the second.
pub proof fn lemma_live_of_concatenation<L>(first: Seq<Listener<L>>, second: Seq<Listener<L>>)
    ensures
        live(first + second) == live(first) + live(second),
    decreases second.len(),
{
    if second.len() == 0 {
        assert(first + second == first);
        assert(live(first) + live(second) == live(first));
    } else {
        lemma_live_of_concatenation(first, second.drop_last());
        assert((first + second).drop_last() == first + second.drop_last());
        assert((first + second).last() == second.last());
        if second.last().alive {
            assert(live(first) + live(second.drop_last()).push(second.last()) == (live(first)
                + live(second.drop_last())).push(second.last()));
        }
    }
}

/// Every live listener is one of the listeners, is alive, and the live
/// listeners keep the order and the numbering of the whole.
pub proof fn lemma_live_is_a_selection<L>(listeners: Seq<Listener<L>>, next: u64)
    requires
        numbered(listeners, next),
    ensures
        numbered(live(listeners), next),
        live(listeners).len() <= listeners.len(),
        forall|i: int|
            0 <= i < live(listeners).len() ==> (#[trigger] live(listeners)[i]).alive
                && listeners.contains(live(listeners)[i]),
        forall|i: int|
            0 <= i < listeners.len() && (#[trigger] listeners[i]).alive ==> live(
                listeners,
            ).contains(listeners[i]),
    decreases listeners.len(),
{
    if listeners.len() > 0 {
        let rest = listeners.drop_last();
        lemma_live_is_a_selection(rest, next);
        let last = listeners.last();
        assert forall|i: int| 0 <= i < live(listeners).len() implies (#[trigger] live(
            listeners,
        )[i]).alive && listeners.contains(live(listeners)[i]) by {
            if i < live(rest).len() {
                let k = choose|k: int| 0 <= k < rest.len() && rest[k] == live(rest)[i];
                assert(listeners[k] == live(rest)[i]);
            } else {
                assert(listeners[listeners.len() - 1] == last);
            }
        }
        assert forall|i: int| 0 <= i < listeners.len() && (#[trigger] listeners[i]).alive implies live(
            listeners,
        ).contains(listeners[i]) by {
            if i < rest.len() {
                assert(rest[i] == listeners[i]);
                let k = choose|k: int| 0 <= k < live(rest).len() && live(rest)[k] == rest[i];
                assert(live(listeners)[k] == listeners[i]);
            } else {
                assert(live(listeners)[live(listeners).len() - 1] == last);
            }
        }
        assert forall|i: int, j: int| 0 <= i < j < live(listeners).len() implies (#[trigger] live(
            listeners,
        )[i]).id < (#[trigger] live(listeners)[j]).id by {
            if j < live(rest).len() {
            } else {
                let k = choose|k: int| 0 <= k < rest.len() && rest[k] == live(rest)[i];
                assert(listeners[k].id < listeners[listeners.len() - 1].id);
            }
        }
    }
}

/// The listeners of `listeners` but those registered under the number `id`.
pub open spec fn except<L>(listeners: Seq<Listener<L>>, id: u64) -> Seq<Listener<L>>
    decreases listeners.len(),
{
    if listeners.len() == 0 {
        Seq::empty()
    } else if listeners.last().id == id {
        except(listeners.drop_last(), id)
    } else {
        except(listeners.drop_last(), id).push(listeners.last())
    }
}

/// Once a subscription is given up, its listener is not among those that are
/// notified, and the others are notified as before and in the same order.
pub proof fn lemma_cancelled_is_not_notified<L>(listeners: Seq<Listener<L>>, id: u64)
    ensures
        live(cancelled(listeners, id)) == except(live(listeners), id),
        !ids(live(cancelled(listeners, id))).contains(id),
    decreases listeners.len(),
{
    if listeners.len() > 0 {
        lemma_cancelled_is_not_notified(listeners.drop_last(), id);
        let rest = listeners.drop_last();
        let last = listeners.last();
        assert(cancelled(listeners, id).drop_last() == cancelled(rest, id));
        if last.alive {
            assert(live(listeners) == live(rest).push(last));
            assert(live(rest).push(last).drop_last() == live(rest));
            assert(live(rest).push(last).last() == last);
        }
    }
    let kept = live(cancelled(listeners, id));
    assert forall|i: int| 0 <= i < ids(kept).len() implies ids(kept)[i] != id by {
        if listeners.len() > 0 {
            let before = live(cancelled(listeners.drop_last(), id));
            if i < before.len() {
                assert(ids(before)[i] != id);
            }
        }
    }
}

/// A listener that is registered is notified from then on, after all those
/// that were registered before it and are still alive.
pub proof fn lemma_registered_is_notified_last<L>(
    listeners: Seq<Listener<L>>,
    id: u64,
    callback: Ref<L>,
)
    ensures
        live(registered(listeners, id, callback)) == live(listeners).push(
            Listener { id, alive: true, callback },
        ),
    decreases listeners.len(),
{
    lemma_live_of_live(listeners);
    let added = Listener { id, alive: true, callback };
    assert(registered(listeners, id, callback).drop_last() == live(listeners));
}

/// From its registration on, a listener is one of those that a change is
/// delivered to, and it comes after all that were registered before it and
/// are still alive.
pub proof fn lemma_registered_is_captured_last<L>(
    listeners: Seq<Listener<L>>,
    id: u64,
    callback: Ref<L>,
)
    ensures
        callbacks(live(registered(listeners, id, callback))) == callbacks(live(listeners)).push(
            callback,
        ),
        ids(live(registered(listeners, id, callback))) == ids(live(listeners)).push(id),
{
    lemma_registered_is_notified_last(listeners, id, callback);
}

/// A listener stays among those that a change is delivered to when another
/// one is registered, and when the subscription of another one is given up:
/// only giving up its own subscription ends its notifications.
pub proof fn lemma_listener_is_notified_until_cancelled<L>(
    listeners: Seq<Listener<L>>,
    kept: Listener<L>,
    id: u64,
    callback: Ref<L>,
)
    requires
        live(listeners).contains(kept),
    ensures
        live(registered(listeners, id, callback)).contains(kept),
        kept.id != id ==> live(cancelled(listeners, id)).contains(kept),
{
    let index = choose|index: int| 0 <= index < live(listeners).len() && live(listeners)[index] == kept;
    lemma_registered_is_notified_last(listeners, id, callback);
    assert(live(registered(listeners, id, callback))[index] == kept);
    if kept.id != id {
        lemma_cancelled_is_not_notified(listeners, id);
        lemma_except_keeps_the_others(live(listeners), id, index);
    }
}

/// Leaving out the listeners with one number keeps every other listener.
pub proof fn lemma_except_keeps_the_others<L>(listeners: Seq<Listener<L>>, id: u64, index: int)
    requires
        0 <= index < listeners.len(),
        listeners[index].id != id,
    ensures
        except(listeners, id).contains(listeners[index]),
    decreases listeners.len(),
{
    let rest = listeners.drop_last();
    if index < rest.len() {
        lemma_except_keeps_the_others(rest, id, index);
        let k = choose|k: int| 0 <= k < except(rest, id).len() && except(rest, id)[k] == rest[index];
        assert(except(listeners, id)[k] == listeners[index]);
    } else {
        assert(except(listeners, id)[except(listeners, id).len() - 1] == listeners[index]);
    }
}

/// Taking the live listeners of the live listeners changes nothing.
pub proof fn lemma_live_of_live<L>(listeners: Seq<Listener<L>>)
    ensures
        live(live(listeners)) == live(listeners),
    decreases listeners.len(),
{
    if listeners.len() > 0 {
        lemma_live_of_live(listeners.drop_last());
        if listeners.last().alive {
            assert(live(listeners).drop_last() == live(listeners.drop_last()));
        }
    }
}

/// A listener that is registered while a change is being delivered is not
/// among those that the change is delivered to: its number is `next`, which
/// none of the listeners captured before has.
pub proof fn lemma_registered_later_is_not_captured<L>(listeners: Seq<Listener<L>>, next: u64)
    requires
        numbered(listeners, next),
    ensures
        !ids(live(listeners)).contains(next),
{
    lemma_live_is_a_selection(listeners, next);
    assert forall|i: int| 0 <= i < ids(live(listeners)).len() implies ids(live(listeners))[i]
        != next by {
        assert(live(listeners)[i].id < next);
    }
}

/// What a change of the options of a name does to the cache: the entry of
/// the name is dropped and the options are fetched again, so that they are
/// created anew.
pub open spec fn refreshes<T: Value, F: OptionsFactory<T> + ?Sized>(
    factory: &F,
    before: Entries<T>,
    name: Option<Seq<char>>,
    result: Result<Ref<T>, ValidationOutcome>,
    after: Entries<T>,
) -> bool {
    fetches(factory, without(before, key_of(name)), name, result, after)
}

/// Whether a callback can be called with every name and every value.
pub open spec fn listens<T, L: Fn(Option<&str>, Ref<T>)>(callback: L) -> bool {
    forall|name: Option<&str>, options: Ref<T>| call_requires(callback, (name, options))
}

/// Whether every one of the callbacks was called with the name and the
/// options, and returned.
pub open spec fn delivered<T, L: Fn(Option<&str>, Ref<T>)>(
    recipients: Seq<Ref<L>>,
    name: Option<&str>,
    options: Ref<T>,
) -> bool {
    forall|i: int|
        0 <= i < recipients.len() ==> call_ensures(*#[trigger] recipients[i], (name, options), ())
}

/// A change that is ready to be delivered: the name of the options that
/// changed, the new options, and the callbacks of the listeners that were
/// alive when the change was noticed.
pub struct Change<T, L: Fn(Option<&str>, Ref<T>)> {
    name: Option<String>,
    value: Ref<T>,
    listeners: Vec<Ref<L>>,
}

impl<T, L: Fn(Option<&str>, Ref<T>)> Change<T, L> {
    /// Every callback can be called with every name and every value.
    #[verifier::type_invariant]
    spec fn callable(&self) -> bool {
        forall|i: int| 0 <= i < self.listeners@.len() ==> listens::<T, L>(*#[trigger] self.listeners@[i])
    }

    /// The name of the options that changed.
    pub closed spec fn name(&self) -> Option<Text> {
        owned_name_of(self.name)
    }

    /// The new options.
    pub closed spec fn options(&self) -> Ref<T> {
        self.value
    }

    /// The callbacks to invoke, in their order.
    pub closed spec fn recipients(&self) -> Seq<Ref<L>> {
        self.listeners@
    }

    /// Gets the name of the options that changed.
    pub fn changed_name(&self) -> (r: Option<&str>)
        ensures
            name_of(r) == self.name(),
    {
        name_ref(&self.name)
    }

    /// Gets the new options.
    pub fn value(&self) -> (r: Ref<T>)
        ensures
            r == self.options(),
    {
        self.value.clone()
    }

    /// Gets the number of callbacks to invoke.
    pub fn len(&self) -> (r: usize)
        ensures
            r == self.recipients().len(),
    {
        self.listeners.len()
    }

    /// Invokes every callback, in order, with the name of the options that
    /// changed and the new options.
    ///
    /// Nothing of the tracker is borrowed meanwhile: a callback is free to
    /// ask it for options or to register another listener.
    pub fn deliver(&self)
        ensures
            exists|name: Option<&str>|
                name_of(name) == self.name() && #[trigger] delivered(
                    self.recipients(),
                    name,
                    self.options(),
                ),
    {
        proof {
            use_type_invariant(self);
        }
        let name = name_ref(&self.name);
        let mut i: usize = 0;
        while i < self.listeners.len()
            invariant
                i <= self.listeners.len(),
                forall|k: int|
                    0 <= k < self.listeners@.len() ==> listens::<T, L>(
                        *#[trigger] self.listeners@[k],
                    ),
                forall|k: int|
                    0 <= k < i ==> call_ensures(
                        *#[trigger] self.listeners@[k],
                        (name, self.value),
                        (),
                    ),
            decreases self.listeners.len() - i,
        {
            let callback: &L = &self.listeners[i];
            callback(name, self.value.clone());
            i += 1;
        }
        proof {
            assert(delivered(self.recipients(), name, self.options()));
        }
    }
}

/// What a change came to, with a failure taken as a mathematical value.
pub open spec fn changed<T, L: Fn(Option<&str>, Ref<T>)>(
    result: Result<Change<T, L>, ValidateOptionsResult>,
) -> Result<Ref<T>, ValidationOutcome> {
    match result {
        Ok(change) => Ok(change.options()),
        Err(failure) => Err(failure@),
    }
}

/// Whether every callback of the listeners can be called with every name and
/// every value.
pub open spec fn all_listen<T, L: Fn(Option<&str>, Ref<T>)>(listeners: Seq<Listener<L>>) -> bool {
    forall|i: int| 0 <= i < listeners.len() ==> listens::<T, L>(*(#[trigger] listeners[i]).callback)
}

/// Removes the listeners that are no longer alive, from the last to the first.
pub fn purge<L>(listeners: &mut Vec<Listener<L>>)
    ensures
        final(listeners)@ == live(old(listeners)@),
{
    let ghost all = listeners@;
    let mut i: usize = listeners.len();
    proof {
        assert(all.take(i as int) == all);
        assert(all.skip(i as int) == Seq::<Listener<L>>::empty());
        assert(all.take(i as int) + live(all.skip(i as int)) == all);
    }
    while i > 0
        invariant
            i <= all.len(),
            listeners@ == all.take(i as int) + live(all.skip(i as int)),
        decreases i,
    {
        i -= 1;
        proof {
            let one = seq![all[i as int]];
            assert(all.skip(i as int) == one + all.skip(i + 1));
            lemma_live_of_concatenation(one, all.skip(i + 1));
            assert(one.drop_last() == Seq::<Listener<L>>::empty());
            assert(live(one.drop_last()) == Seq::<Listener<L>>::empty());
            assert(Seq::<Listener<L>>::empty().push(one.last()) == one);
            assert(live(one) == if all[i as int].alive {
                one
            } else {
                Seq::<Listener<L>>::empty()
            });
            assert(all.take(i + 1) == all.take(i as int) + one);
            assert(listeners@[i as int] == all[i as int]);
        }
        if !listeners[i].alive {
            listeners.remove(i);
            proof {
                assert(listeners@ == all.take(i as int) + live(all.skip(i + 1)));
            }
        }
    }
    proof {
        assert(all.take(0) + live(all.skip(0)) == live(all)) by {
            assert(all.skip(0) == all);
            assert(all.take(0) == Seq::<Listener<L>>::empty());
        }
    }
}

/// Marks the listeners registered under the number `id` as no longer alive.
pub fn cancel<L>(listeners: &mut Vec<Listener<L>>, id: u64)
    ensures
        final(listeners)@ == cancelled(old(listeners)@, id),
{
    let ghost all = listeners@;
    let mut i: usize = 0;
    while i < listeners.len()
        invariant
            i <= all.len(),
            listeners@.len() == all.len(),
            listeners@ == cancelled(all.take(i as int), id) + all.skip(i as int),
        decreases listeners.len() - i,
    {
        proof {
            assert(listeners@[i as int] == all[i as int]);
        }
        if listeners[i].id == id && listeners[i].alive {
            let callback = listeners[i].callback.clone();
            listeners.set(i, Listener { id, alive: false, callback });
        }
        proof {
            assert(listeners@ =~= cancelled(all.take(i + 1), id) + all.skip(i + 1));
        }
        i += 1;
    }
    proof {
        assert(all.take(i as int) == all);
        assert(listeners@ =~= cancelled(all, id));
    }
}

/// Captures the callbacks of the listeners that are alive, in their order.
pub fn capture<L>(listeners: &Vec<Listener<L>>) -> (r: Vec<Ref<L>>)
    ensures
        r@ == callbacks(live(listeners@)),
{
    let mut captured: Vec<Ref<L>> = Vec::new();
    let mut i: usize = 0;
    while i < listeners.len()
        invariant
            i <= listeners.len(),
            captured@ == callbacks(live(listeners@.take(i as int))),
        decreases listeners.len() - i,
    {
        proof {
            let next = listeners@.take(i + 1);
            assert(next.drop_last() == listeners@.take(i as int));
            assert(next.last() == listeners@[i as int]);
            if next.last().alive {
                assert(callbacks(live(next)) =~= callbacks(live(next.drop_last())).push(
                    next.last().callback,
                ));
            }
        }
        if listeners[i].alive {
            captured.push(listeners[i].callback.clone());
        }
        i += 1;
    }
    proof {
        assert(listeners@.take(i as int) == listeners@);
    }
    captured
}

/// Keeps the options of each name fresh: owns the cache and the factory,
/// holds the listeners, and renews the options of a name when they change.
#[verifier::reject_recursive_types(T)]
pub struct ChangeTracker<
    T: Value,
    C: OptionsMonitorCache<T>,
    F: OptionsFactory<T> + ?Sized,
    L: Fn(Option<&str>, Ref<T>),
> {
    cache: C,
    factory: Ref<F>,
    listeners: Vec<Listener<L>>,
    next: u64,
    _marker: PhantomData<T>,
}

impl<
    T: Value,
    C: OptionsMonitorCache<T>,
    F: OptionsFactory<T> + ?Sized,
    L: Fn(Option<&str>, Ref<T>),
> ChangeTracker<T, C, F, L> {
    /// The registrations are numbered in their order, and every callback can
    /// be called with every name and every value.
    pub open spec fn well_formed(&self) -> bool {
        &&& numbered(self.listeners(), self.next_id())
        &&& all_listen::<T, L>(self.listeners())
    }

    /// The cached options, by key.
    pub closed spec fn entries(&self) -> Entries<T> {
        self.cache.entries()
    }

    /// The factory that creates the options.
    pub closed spec fn factory(&self) -> &F {
        &*self.factory
    }

    /// The registered listeners, those that are no longer alive included.
    pub closed spec fn listeners(&self) -> Seq<Listener<L>> {
        self.listeners@
    }

    /// The number that the next registration gets.
    pub closed spec fn next_id(&self) -> u64 {
        self.next
    }

    /// Initializes a new tracker without listeners.
    pub fn new(cache: C, factory: Ref<F>) -> (r: Self)
        ensures
            r.entries() == cache.entries(),
            r.factory() == &*factory,
            r.listeners() == Seq::<Listener<L>>::empty(),
            r.next_id() == 0,
            r.well_formed(),
    {
        Self { cache, factory, listeners: Vec::new(), next: 0, _marker: PhantomData }
    }

    /// Tells whether a number is left for one more registration.
    pub fn can_add(&self) -> (r: bool)
        ensures
            r == (self.next_id() < u64::MAX),
    {
        self.next < u64::MAX
    }

    /// Gets the options with the specified name: those in the cache, or new
    /// ones from the factory, which are then cached.
    ///
    /// Where the factory fails its failure is returned and nothing is cached.
    /// A monitor has nobody to hand the failure on to: its caller ends there.
    pub fn get(&mut self, name: Option<&str>) -> (r: Result<Ref<T>, ValidateOptionsResult>)
        ensures
            fetches(
                old(self).factory(),
                old(self).entries(),
                name_of(name),
                fetched(r),
                final(self).entries(),
            ),
            final(self).factory() == old(self).factory(),
            final(self).listeners() == old(self).listeners(),
            final(self).next_id() == old(self).next_id(),
    {
        get_or_create(&mut self.cache, &*self.factory, name)
    }

    /// Registers a listener, after dropping those that are no longer alive,
    /// and returns the subscription that keeps it alive.
    pub fn add(&mut self, listener: L) -> (r: Subscription<T>)
        requires
            old(self).well_formed(),
            old(self).next_id() < u64::MAX,
            listens::<T, L>(listener),
        ensures
            final(self).well_formed(),
            r.number() == old(self).next_id(),
            final(self).next_id() == old(self).next_id() + 1,
            final(self).listeners() == registered(
                old(self).listeners(),
                r.number(),
                Ref::new(listener),
            ),
            callbacks(live(final(self).listeners())) == callbacks(
                live(old(self).listeners()),
            ).push(Ref::new(listener)),
            final(self).entries() == old(self).entries(),
            final(self).factory() == old(self).factory(),
    {
        proof {
            lemma_live_is_a_selection(self.listeners@, self.next);
            lemma_registered_is_captured_last(self.listeners@, self.next, Ref::new(listener));
        }
        let ghost before = self.listeners@;
        purge(&mut self.listeners);
        let id = self.next;
        self.next = self.next + 1;
        self.listeners.push(Listener { id, alive: true, callback: Ref::new(listener) });
        proof {
            let kept = live(before);
            assert forall|i: int| 0 <= i < self.listeners@.len() implies listens::<T, L>(
                *(#[trigger] self.listeners@[i]).callback,
            ) by {
                if i < kept.len() {
                    assert(before.contains(kept[i]));
                }
            }
        }
        Subscription::new(id)
    }

    /// Gives a subscription up: its listener is no longer notified.
    pub fn remove(&mut self, subscription: Subscription<T>)
        requires
            old(self).well_formed(),
        ensures
            final(self).well_formed(),
            final(self).listeners() == cancelled(old(self).listeners(), subscription.number()),
            final(self).next_id() == old(self).next_id(),
            final(self).entries() == old(self).entries(),
            final(self).factory() == old(self).factory(),
    {
        cancel(&mut self.listeners, subscription.id());
    }

    /// Captures the callbacks of the listeners that are alive, in the order
    /// in which they were registered.
    pub fn snapshot(&self) -> (r: Vec<Ref<L>>)
        ensures
            r@ == callbacks(live(self.listeners())),
    {
        capture(&self.listeners)
    }

    /// Notes that the options of a name have changed: captures the listeners
    /// that are alive, drops the cached options of the name and fetches them
    /// anew. The change that is returned is still to be delivered.
    ///
    /// Where the factory fails its failure is returned: nothing is cached
    /// under the name then, and there is no change to deliver.
    pub fn invalidate(&mut self, name: Option<&str>) -> (r: Result<
        Change<T, L>,
        ValidateOptionsResult,
    >)
        requires
            old(self).well_formed(),
        ensures
            final(self).well_formed(),
            refreshes(
                old(self).factory(),
                old(self).entries(),
                name_of(name),
                changed(r),
                final(self).entries(),
            ),
            r matches Ok(change) ==> change.name() == name_of(name) && change.recipients()
                == callbacks(live(old(self).listeners())),
            final(self).listeners() == old(self).listeners(),
            final(self).next_id() == old(self).next_id(),
            final(self).factory() == old(self).factory(),
    {
        let listeners = self.snapshot();
        proof {
            lemma_live_is_a_selection(self.listeners@, self.next);
            assert forall|i: int| 0 <= i < listeners@.len() implies listens::<T, L>(
                *#[trigger] listeners@[i],
            ) by {
                let kept = live(self.listeners@);
                assert(listeners@[i] == kept[i].callback);
                assert(self.listeners@.contains(kept[i]));
            }
        }
        self.cache.try_remove(name);
        match self.get(name) {
            Ok(value) => {
                let name = match name {
                    Some(text) => Some(text.to_owned()),
                    None => None,
                };
                Ok(Change { name, value, listeners })
            },
            Err(failure) => Err(failure),
        }
    }

    /// Notes that the options of a name have changed and delivers the change
    /// to the listeners that were alive when it was noticed. Returns the new
    /// options.
    ///
    /// The tracker stays borrowed while the callbacks run. Where a callback
    /// is to reach the tracker, call `invalidate`, release the tracker, and
    /// `deliver` the change then.
    pub fn on_change(&mut self, name: Option<&str>) -> (r: Result<Ref<T>, ValidateOptionsResult>)
        requires
            old(self).well_formed(),
        ensures
            final(self).well_formed(),
            refreshes(
                old(self).factory(),
                old(self).entries(),
                name_of(name),
                fetched(r),
                final(self).entries(),
            ),
            r matches Ok(options) ==> exists|given: Option<&str>|
                name_of(given) == name_of(name) && #[trigger] delivered(
                    callbacks(live(old(self).listeners())),
                    given,
                    options,
                ),
            final(self).listeners() == old(self).listeners(),
            final(self).next_id() == old(self).next_id(),
            final(self).factory() == old(self).factory(),
    {
        match self.invalidate(name) {
            Ok(change) => {
                change.deliver();
                Ok(change.value())
            },
            Err(failure) => Err(failure),
        }
    }
}

/// Once the options of a name were renewed, they are served from the cache:
/// fetching them gives the renewed options and changes nothing.
pub proof fn lemma_renewed_options_are_served<T: Value, F: OptionsFactory<T> + ?Sized>(
    factory: &F,
    before: Entries<T>,
    name: Option<Text>,
    renewed: Ref<T>,
    between: Entries<T>,
    result: Result<Ref<T>, ValidationOutcome>,
    after: Entries<T>,
)
    requires
        refreshes(factory, before, name, Ok(renewed), between),
        fetches(factory, between, name, result, after),
    ensures
        result == Ok::<Ref<T>, ValidationOutcome>(renewed),
        after == between,
        factory.creates(name, Ok(*renewed)),
{
    lemma_nothing_is_found_without(before, key_of(name));
    assert(between.drop_last() == without(before, key_of(name)));
}

/// A change never serves what was cached before it: the options it hands
/// out are created by the factory, and where the factory fails nothing is
/// cached under the name. The entries of the other names stay as they were.
pub proof fn lemma_change_drops_cached_options<T: Value, F: OptionsFactory<T> + ?Sized>(
    factory: &F,
    before: Entries<T>,
    name: Option<Text>,
    result: Result<Ref<T>, ValidationOutcome>,
    after: Entries<T>,
)
    requires
        refreshes(factory, before, name, result, after),
    ensures
        result matches Ok(options) ==> factory.creates(name, Ok(*options)) && found(
            after,
            key_of(name),
        ) == Some(options),
        result matches Err(failure) ==> factory.creates(name, Err(failure)) && found(
            after,
            key_of(name),
        ) is None,
        forall|i: int|
            0 <= i < before.len() && !same_name((#[trigger] before[i]).0, key_of(name))
                ==> after.contains(before[i]),
{
    let key = key_of(name);
    let kept = without(before, key);
    lemma_nothing_is_found_without(before, key);
    match result {
        Ok(options) => {
            assert(after.drop_last() == kept);
            assert forall|i: int|
                0 <= i < before.len() && !same_name((#[trigger] before[i]).0, key) implies after.contains(
                before[i],
            ) by {
                let k = choose|k: int| 0 <= k < kept.len() && kept[k] == before[i];
                assert(after[k] == before[i]);
            }
        },
        Err(_) => {},
    }
}

} // verus!
