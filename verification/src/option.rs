use crate::cache::fetched;
use crate::validate::{ValidateOptionsResult, ValidationOutcome};
use crate::{Ref, Value};
use vstd::prelude::*;

verus! {

/// Defines the behavior to retrieve configured options.
pub trait Options<T: Value>: Sized + Send + Sync {
    /// Whether asking for the value may come to `result` and leave the
    /// options as `after`.
    spec fn valued(&self, result: Result<Ref<T>, ValidationOutcome>, after: Self) -> bool;

    /// Gets the configured value.
    fn value(&mut self) -> (r: Result<Ref<T>, ValidateOptionsResult>)
        ensures
            old(self).valued(fetched(r), *final(self)),
    ;
}

/// A value that returns itself as options.
pub struct OptionsWrapper<T: Value>(Ref<T>);

impl<T: Value> OptionsWrapper<T> {
    /// The value that is wrapped.
    pub closed spec fn wrapped(&self) -> Ref<T> {
        self.0
    }
}

impl<T: Value> Options<T> for OptionsWrapper<T> {
    /// The wrapped value is handed out, and the wrapper stays as it is.
    open spec fn valued(&self, result: Result<Ref<T>, ValidationOutcome>, after: Self) -> bool {
        result == Ok::<Ref<T>, ValidationOutcome>(self.wrapped()) && after == *self
    }

    fn value(&mut self) -> (r: Result<Ref<T>, ValidateOptionsResult>) {
        Ok(self.0.clone())
    }
}

/// Creates a wrapper around a value to return itself as options.
pub fn create<T: Value>(options: T) -> (r: OptionsWrapper<T>)
    ensures
        *r.wrapped() == options,
{
    OptionsWrapper(Ref::new(options))
}

} // verus!
