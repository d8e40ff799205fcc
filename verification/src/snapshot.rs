use crate::cache::fetched;
use crate::names::name_of;
use crate::validate::{ValidateOptionsResult, ValidationOutcome};
use crate::{Ref, Value};
use vstd::prelude::*;

verus! {

/// Defines the behavior for a snapshot of configuration options.
pub trait OptionsSnapshot<T: Value>: Sized + Send + Sync {
    /// Whether asking for the options of `name` may come to `result` and
    /// leave the snapshot as `after`.
    spec fn got(
        &self,
        name: Option<Seq<char>>,
        result: Result<Ref<T>, ValidationOutcome>,
        after: Self,
    ) -> bool;

    /// Gets the configuration options with the specified name.
    fn get(&mut self, name: Option<&str>) -> (r: Result<Ref<T>, ValidateOptionsResult>)
        ensures
            old(self).got(name_of(name), fetched(r), *final(self)),
    ;
}

} // verus!
