use crate::cache::{
    fetched, fetches, get_or_create, Entries, OptionsCache, OptionsMonitorCache,
};
use crate::factory::OptionsFactory;
use crate::option::Options;
use crate::snapshot::OptionsSnapshot;
use crate::validate::{ValidateOptionsResult, ValidationOutcome};
use crate::{Ref, Value};
use vstd::prelude::*;

verus! {

/// Represents an object that manages options and option snapshots.
#[verifier::reject_recursive_types(T)]
pub struct OptionsManager<T: Value, F: OptionsFactory<T> + ?Sized> {
    factory: Ref<F>,
    cache: OptionsCache<T>,
}

impl<T: Value, F: OptionsFactory<T> + ?Sized> OptionsManager<T, F> {
    /// The factory that creates the options.
    pub closed spec fn factory(&self) -> &F {
        &*self.factory
    }

    /// The options created so far, by key.
    pub closed spec fn entries(&self) -> Entries<T> {
        self.cache.entries()
    }

    /// Initializes a new options manager.
    pub fn new(factory: Ref<F>) -> (r: Self)
        ensures
            r.factory() == &*factory,
            r.entries() == Entries::<T>::empty(),
    {
        Self { factory, cache: OptionsCache::new() }
    }
}

impl<T: Value, F: OptionsFactory<T> + ?Sized> Options<T> for OptionsManager<T, F> {
    /// The value is that of the options without a name.
    open spec fn valued(&self, result: Result<Ref<T>, ValidationOutcome>, after: Self) -> bool {
        self.got(None, result, after)
    }

    fn value(&mut self) -> (r: Result<Ref<T>, ValidateOptionsResult>) {
        self.get(None)
    }
}

impl<T: Value, F: OptionsFactory<T> + ?Sized> OptionsSnapshot<T> for OptionsManager<T, F> {
    /// The options are fetched: from those created so far, else from the factory.
    open spec fn got(
        &self,
        name: Option<Seq<char>>,
        result: Result<Ref<T>, ValidationOutcome>,
        after: Self,
    ) -> bool {
        &&& fetches(self.factory(), self.entries(), name, result, after.entries())
        &&& after.factory() == self.factory()
    }

    /// Where the factory fails its failure is returned, with the messages of
    /// the validators, and nothing is kept for the name.
    fn get(&mut self, name: Option<&str>) -> (r: Result<Ref<T>, ValidateOptionsResult>) {
        get_or_create(&mut self.cache, &*self.factory, name)
    }
}

} // verus!
