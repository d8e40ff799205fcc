use crate::names::{name_of, Text};
use crate::Value;
use vstd::prelude::*;

verus! {

/// A source of change notifications for the options of one name.
///
/// What the source hands out to be notified by is not the library's concern:
/// whoever is notified tells the monitor which of its sources has changed.
pub trait OptionsChangeTokenSource<T: Value>: Send + Sync {
    /// The name of the options that the source reports changes of, if any.
    spec fn source_name(&self) -> Option<Text>;

    /// Gets the name of the option instance being changed, if any.
    fn name(&self) -> (r: Option<&str>)
        ensures
            name_of(r) == self.source_name(),
    ;
}

} // verus!
