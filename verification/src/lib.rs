//! Strongly typed configuration values ("options"): how they are built,
//! validated, cached by name and refreshed when their source changes.

use vstd::prelude::*;

pub mod cache;
pub mod configure;
pub mod factory;
pub mod manager;
pub mod monitor;
pub mod names;
pub mod option;
pub mod snapshot;
pub mod token;
pub mod tracker;
pub mod validate;

pub use cache::{
    apart, fetched, fetches, found, get_or_create, got_or_added, key, key_of, same_name,
    tried_add, tried_remove, without, Entries, OptionsCache, OptionsMonitorCache,
};
pub use configure::{
    applies, configure, post_configure, ConfigureOptions, PostConfigureOptions,
    _Configure, _ConfigureOptions,
};
pub use factory::{
    collected, conclude, concluded, configured_through, created, outcomes_of,
    post_configured_through, validated_by, DefaultOptionsFactory, OptionsFactory,
};
pub use manager::OptionsManager;
pub use monitor::{names_of_sources, DefaultOptionsMonitor, OptionsMonitor, Subscription};
pub use names::{
    byte_len, folded_names_equal, folds_match, lowercase, name_of, name_ref, names_equal,
    names_match, owned_name_of, uppercase, Text,
};
pub use option::{create, Options, OptionsWrapper};
pub use snapshot::OptionsSnapshot;
pub use token::OptionsChangeTokenSource;
pub use tracker::{
    all_listen, callbacks, cancel, cancelled, capture, changed, delivered, except, ids, listens,
    live,
    numbered, purge, refreshes, registered, Change, ChangeTracker, Listener,
};
pub use validate::{
    default_message, joined, message_or_default, message_or_default_spec, texts,
    verdict, ValidateOptions, ValidateOptionsResult, ValidationOutcome, _Validate,
};

verus! {

/// Represents the type alias for an options reference.
pub type Ref<T> = std::sync::Arc<T>;

/// Marks the types that can serve as options: those that can be shared
/// between threads.
pub trait Value: Sized + Send + Sync {

}

impl<T: Send + Sync> Value for T {

}

} // verus!
