use crate::cache::{fetched, fetches, OptionsMonitorCache};
use crate::factory::OptionsFactory;
use crate::names::{name_of, name_ref, owned_name_of};
use crate::token::OptionsChangeTokenSource;
use crate::tracker::{
    callbacks, changed, listens, live, refreshes, registered, cancelled, Change, ChangeTracker,
};
use crate::validate::{ValidateOptionsResult, ValidationOutcome};
use crate::{Ref, Value};
use std::marker::PhantomData;
use vstd::prelude::*;

verus! {

/// Represents a change subscription.
///
/// The listener is notified for as long as its subscription is held. Giving
/// the subscription up, by handing it back to the one that issued it, is the
/// only way to end the notifications.
pub struct Subscription<T> {
    id: u64,
    _marker: PhantomData<T>,
}

impl<T> Subscription<T> {
    /// The number of the registration that the subscription stands for.
    pub closed spec fn number(&self) -> u64 {
        self.id
    }

    /// Initializes a new change subscription for the registration with the given number.
    pub fn new(id: u64) -> (r: Self)
        ensures
            r.number() == id,
    {
        Self { id, _marker: PhantomData }
    }

    /// Gets the number of the registration that the subscription stands for.
    pub fn id(&self) -> (r: u64)
        ensures
            r == self.number(),
    {
        self.id
    }
}

/// Defines the behavior for notifications when options instances change.
pub trait OptionsMonitor<T: Value, L>: Sized + Send + Sync {
    /// Whether the monitor is in a state in which it can be used.
    spec fn ready(&self) -> bool;

    /// Whether the monitor can take `listener`.
    spec fn accepts(&self, listener: L) -> bool;

    /// Whether asking for the options of `name` may come to `result` and
    /// leave the monitor as `after`.
    spec fn got(
        &self,
        name: Option<Seq<char>>,
        result: Result<Ref<T>, ValidationOutcome>,
        after: Self,
    ) -> bool;

    /// Whether registering `listener` may return `subscription` and leave the
    /// monitor as `after`.
    spec fn subscribed(&self, listener: L, subscription: Subscription<T>, after: Self) -> bool;

    /// Returns the current instance with the default options name.
    fn current_value(&mut self) -> (r: Result<Ref<T>, ValidateOptionsResult>)
        requires
            old(self).ready(),
        ensures
            final(self).ready(),
            old(self).got(None, fetched(r), *final(self)),
    {
        self.get(None)
    }

    /// Returns a configured instance with the given name.
    fn get(&mut self, name: Option<&str>) -> (r: Result<Ref<T>, ValidateOptionsResult>)
        requires
            old(self).ready(),
        ensures
            final(self).ready(),
            old(self).got(name_of(name), fetched(r), *final(self)),
    ;

    /// Registers a callback function to be invoked when the configured
    /// instance with the given name changes.
    ///
    /// Returns a change subscription for the specified options. Once the
    /// subscription is given up, no further notifications are propagated.
    fn on_change(&mut self, listener: L) -> (r: Subscription<T>)
        requires
            old(self).ready(),
            old(self).accepts(listener),
        ensures
            final(self).ready(),
            old(self).subscribed(listener, r, *final(self)),
    ;
}

/// The names that the sources report changes of, in the order of the sources.
pub open spec fn names_of_sources<T: Value>(
    sources: Seq<Ref<dyn OptionsChangeTokenSource<T>>>,
) -> Seq<Option<Seq<char>>> {
    sources.map_values(|s: Ref<dyn OptionsChangeTokenSource<T>>| s.source_name())
}

/// Represents the default implementation for notifications when option instances change.
#[verifier::reject_recursive_types(T)]
pub struct DefaultOptionsMonitor<
    T: Value,
    C: OptionsMonitorCache<T>,
    F: OptionsFactory<T> + ?Sized,
    L: Fn(Option<&str>, Ref<T>),
> {
    tracker: ChangeTracker<T, C, F, L>,
    registrations: Vec<Option<String>>,
}

impl<
    T: Value,
    C: OptionsMonitorCache<T>,
    F: OptionsFactory<T> + ?Sized,
    L: Fn(Option<&str>, Ref<T>),
> DefaultOptionsMonitor<T, C, F, L> {
    /// The tracker that the monitor delegates to.
    pub closed spec fn tracker(&self) -> ChangeTracker<T, C, F, L> {
        self.tracker
    }

    /// The name that each source reports changes of: one registration for
    /// each source, in the order of the sources.
    pub closed spec fn registrations(&self) -> Seq<Option<Seq<char>>> {
        self.registrations@.map_values(|n: Option<String>| owned_name_of(n))
    }

    /// Initializes a new default options monitor, with one registration for
    /// each source.
    pub fn new(
        cache: C,
        sources: Vec<Ref<dyn OptionsChangeTokenSource<T>>>,
        factory: Ref<F>,
    ) -> (r: Self)
        ensures
            r.tracker().well_formed(),
            r.tracker().entries() == cache.entries(),
            r.tracker().factory() == &*factory,
            r.tracker().listeners().len() == 0,
            r.tracker().next_id() == 0,
            r.registrations() == names_of_sources(sources@),
    {
        let tracker = ChangeTracker::new(cache, factory);
        let mut registrations: Vec<Option<String>> = Vec::new();
        let mut i: usize = 0;
        while i < sources.len()
            invariant
                i <= sources.len(),
                registrations@.len() == i,
                forall|k: int|
                    0 <= k < i ==> owned_name_of(#[trigger] registrations@[k])
                        == sources@[k].source_name(),
            decreases sources.len() - i,
        {
            let state = match sources[i].name() {
                Some(name) => Some(name.to_owned()),
                None => None,
            };
            registrations.push(state);
            i += 1;
        }
        proof {
            assert(registrations@.map_values(|n: Option<String>| owned_name_of(n))
                =~= names_of_sources(sources@));
        }
        Self { tracker, registrations }
    }

    /// Gets the number of sources that the monitor has a registration for.
    pub fn source_count(&self) -> (r: usize)
        ensures
            r == self.registrations().len(),
    {
        self.registrations.len()
    }

    /// Gets the name that the source with the given index reports changes of.
    pub fn source_name(&self, index: usize) -> (r: Option<&str>)
        requires
            index < self.registrations().len(),
        ensures
            name_of(r) == self.registrations()[index as int],
    {
        name_ref(&self.registrations[index])
    }

    /// Tells whether a number is left for one more registration.
    pub fn can_subscribe(&self) -> (r: bool)
        ensures
            r == (self.tracker().next_id() < u64::MAX),
    {
        self.tracker.can_add()
    }

    /// Gives a subscription up: its listener is no longer notified.
    pub fn unsubscribe(&mut self, subscription: Subscription<T>)
        requires
            old(self).tracker().well_formed(),
        ensures
            final(self).tracker().well_formed(),
            final(self).tracker().listeners() == cancelled(
                old(self).tracker().listeners(),
                subscription.number(),
            ),
            final(self).tracker().next_id() == old(self).tracker().next_id(),
            final(self).tracker().entries() == old(self).tracker().entries(),
            final(self).tracker().factory() == old(self).tracker().factory(),
            final(self).registrations() == old(self).registrations(),
    {
        self.tracker.remove(subscription)
    }

    /// Notes that the source with the given index has changed: the options
    /// of its name are renewed, and the change is returned to be delivered to
    /// the listeners that were alive at this moment.
    pub fn source_changed(&mut self, index: usize) -> (r: Result<
        Change<T, L>,
        ValidateOptionsResult,
    >)
        requires
            old(self).tracker().well_formed(),
            index < old(self).registrations().len(),
        ensures
            final(self).tracker().well_formed(),
            refreshes(
                old(self).tracker().factory(),
                old(self).tracker().entries(),
                old(self).registrations()[index as int],
                changed(r),
                final(self).tracker().entries(),
            ),
            r matches Ok(change) ==> change.name() == old(self).registrations()[index as int]
                && change.recipients() == callbacks(live(old(self).tracker().listeners())),
            final(self).tracker().listeners() == old(self).tracker().listeners(),
            final(self).tracker().next_id() == old(self).tracker().next_id(),
            final(self).tracker().factory() == old(self).tracker().factory(),
            final(self).registrations() == old(self).registrations(),
    {
        let name = name_ref(&self.registrations[index]);
        self.tracker.invalidate(name)
    }
}

impl<
    T: Value,
    C: OptionsMonitorCache<T>,
    F: OptionsFactory<T> + ?Sized,
    L: Fn(Option<&str>, Ref<T>) + Send + Sync,
> OptionsMonitor<T, L> for DefaultOptionsMonitor<T, C, F, L> {
    open spec fn ready(&self) -> bool {
        self.tracker().well_formed()
    }

    /// The listener can be called with every name and every value, and a
    /// number is left for its registration.
    open spec fn accepts(&self, listener: L) -> bool {
        listens::<T, L>(listener) && self.tracker().next_id() < u64::MAX
    }

    /// The options are fetched: from the cache, else from the factory.
    /// Listeners and registrations stay as they are.
    open spec fn got(
        &self,
        name: Option<Seq<char>>,
        result: Result<Ref<T>, ValidationOutcome>,
        after: Self,
    ) -> bool {
        &&& fetches(
            self.tracker().factory(),
            self.tracker().entries(),
            name,
            result,
            after.tracker().entries(),
        )
        &&& after.tracker().factory() == self.tracker().factory()
        &&& after.tracker().listeners() == self.tracker().listeners()
        &&& after.tracker().next_id() == self.tracker().next_id()
        &&& after.registrations() == self.registrations()
    }

    /// The listener is registered under the next number, which the
    /// subscription carries. The cache and the registrations stay as they are.
    open spec fn subscribed(&self, listener: L, subscription: Subscription<T>, after: Self) -> bool {
        &&& subscription.number() == self.tracker().next_id()
        &&& after.tracker().next_id() == self.tracker().next_id() + 1
        &&& after.tracker().listeners() == registered(
            self.tracker().listeners(),
            subscription.number(),
            Ref::new(listener),
        )
        &&& after.tracker().entries() == self.tracker().entries()
        &&& after.tracker().factory() == self.tracker().factory()
        &&& after.registrations() == self.registrations()
    }

    fn get(&mut self, name: Option<&str>) -> (r: Result<Ref<T>, ValidateOptionsResult>) {
        self.tracker.get(name)
    }

    fn on_change(&mut self, listener: L) -> (r: Subscription<T>) {
        self.tracker.add(listener)
    }
}

} // verus!
