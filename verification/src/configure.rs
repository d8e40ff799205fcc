use crate::names::{name_of, name_ref, names_equal, names_match, owned_name_of};
use std::marker::PhantomData;
use vstd::prelude::*;

verus! {

/// Defines the behavior of something that configures options.
///
/// These are all run first.
pub trait ConfigureOptions<T>: Send + Sync {
    /// Whether a call for `name` may turn the options `before` into `after`.
    ///
    /// An action that says nothing of itself may change the options as it likes.
    open spec fn configures(&self, name: Option<Seq<char>>, before: T, after: T) -> bool {
        true
    }

    /// Configures the corresponding options.
    fn configure(&self, name: Option<&str>, options: &mut T)
        ensures
            self.configures(name_of(name), *old(options), *final(options)),
    ;
}

/// Defines the behavior of something that configures options.
///
/// These are all run last.
pub trait PostConfigureOptions<T>: Send + Sync {
    /// Whether a call for `name` may turn the options `before` into `after`.
    ///
    /// An action that says nothing of itself may change the options as it likes.
    open spec fn post_configures(&self, name: Option<Seq<char>>, before: T, after: T) -> bool {
        true
    }

    /// Configures the corresponding options.
    fn post_configure(&self, name: Option<&str>, options: &mut T)
        ensures
            self.post_configures(name_of(name), *old(options), *final(options)),
    ;
}

/// An action that is applied to the options of every name it is asked for.
pub struct _ConfigureOptions<TOptions, TAction: Fn(Option<&str>, &mut TOptions)> {
    action: TAction,
    _marker: PhantomData<TOptions>,
}

impl<TOptions, TAction: Fn(Option<&str>, &mut TOptions)> _ConfigureOptions<TOptions, TAction> {
    /// The action can be called with every name and every value of the options.
    #[verifier::type_invariant]
    spec fn callable(&self) -> bool {
        forall|name: Option<&str>, options: &mut TOptions|
            call_requires(self.action, (name, options))
    }

    /// The action itself.
    pub closed spec fn action(&self) -> TAction {
        self.action
    }

    /// Wraps an action that accepts every name and every value of the options.
    pub fn new(action: TAction) -> (r: Self)
        requires
            forall|name: Option<&str>, options: &mut TOptions|
                call_requires(action, (name, options)),
        ensures
            r.action() == action,
    {
        Self { action, _marker: PhantomData }
    }

    fn run(&self, name: Option<&str>, options: &mut TOptions)
        ensures
            exists|o: &mut TOptions| #[trigger]
                call_ensures(self.action(), (name, o), ()) && *o == *old(options) && *final(o)
                    == *final(options),
    {
        proof {
            use_type_invariant(self);
        }
        (self.action)(name, options);
        assert(self.action() == self.action);
    }
}

impl<
    TOptions: Send + Sync,
    TAction: Fn(Option<&str>, &mut TOptions) + Send + Sync,
> ConfigureOptions<TOptions> for _ConfigureOptions<TOptions, TAction> {
    /// The action is free to change the options as it likes.
    open spec fn configures(&self, name: Option<Seq<char>>, before: TOptions, after: TOptions) -> bool {
        true
    }

    /// The options are left as one call of the action with the name leaves them.
    fn configure(&self, name: Option<&str>, options: &mut TOptions)
        ensures
            exists|o: &mut TOptions| #[trigger]
                call_ensures(self.action(), (name, o), ()) && *o == *old(options) && *final(o)
                    == *final(options),
    {
        self.run(name, options)
    }
}

impl<
    TOptions: Send + Sync,
    TAction: Fn(Option<&str>, &mut TOptions) + Send + Sync,
> PostConfigureOptions<TOptions> for _ConfigureOptions<TOptions, TAction> {
    /// The action is free to change the options as it likes.
    open spec fn post_configures(
        &self,
        name: Option<Seq<char>>,
        before: TOptions,
        after: TOptions,
    ) -> bool {
        true
    }

    /// The options are left as one call of the action with the name leaves them.
    fn post_configure(&self, name: Option<&str>, options: &mut TOptions)
        ensures
            exists|o: &mut TOptions| #[trigger]
                call_ensures(self.action(), (name, o), ()) && *o == *old(options) && *final(o)
                    == *final(options),
    {
        self.run(name, options)
    }
}

/// Creates and returns options configuration for the specified action.
pub fn configure<T, F>(action: F) -> (r: _ConfigureOptions<T, F>) where
    F: Fn(Option<&str>, &mut T),

    requires
        forall|name: Option<&str>, options: &mut T| call_requires(action, (name, options)),
    ensures
        r.action() == action,
{
    _ConfigureOptions::new(action)
}

/// Creates and returns options post-configuration for the specified action.
pub fn post_configure<T, F>(action: F) -> (r: _ConfigureOptions<T, F>) where
    F: Fn(Option<&str>, &mut T),

    requires
        forall|name: Option<&str>, options: &mut T| call_requires(action, (name, options)),
    ensures
        r.action() == action,
{
    _ConfigureOptions::new(action)
}

/// Whether a request for `name` with an action registered for `own` may
/// turn `before` into `after`: a request that does not match changes nothing.
pub open spec fn applies<T>(
    own: Option<Seq<char>>,
    name: Option<Seq<char>>,
    before: T,
    after: T,
) -> bool {
    !names_match(own, name) ==> after == before
}

/// An action that is applied only to the options whose name matches its own.
pub struct _Configure<TOptions, TAction: Fn(&mut TOptions)> {
    name: Option<String>,
    action: TAction,
    _marker: PhantomData<TOptions>,
}

impl<TOptions, TAction: Fn(&mut TOptions)> _Configure<TOptions, TAction> {
    /// The action can be called with every value of the options.
    #[verifier::type_invariant]
    spec fn callable(&self) -> bool {
        forall|options: &mut TOptions| call_requires(self.action, (options,))
    }

    /// The name that the action was registered for, if any.
    pub closed spec fn name(&self) -> Option<Seq<char>> {
        owned_name_of(self.name)
    }

    /// The action itself.
    pub closed spec fn action(&self) -> TAction {
        self.action
    }

    /// Registers an action for a name; without a name it applies to every request.
    pub fn new(name: Option<String>, action: TAction) -> (r: Self)
        requires
            forall|options: &mut TOptions| call_requires(action, (options,)),
        ensures
            r.name() == owned_name_of(name),
            r.action() == action,
    {
        Self { name, action, _marker: PhantomData }
    }

    fn run(&self, name: Option<&str>, options: &mut TOptions)
        ensures
            applies(self.name(), name_of(name), *old(options), *final(options)),
            names_match(self.name(), name_of(name)) ==> exists|o: &mut TOptions| #[trigger]
                call_ensures(self.action(), (o,), ()) && *o == *old(options) && *final(o)
                    == *final(options),
    {
        proof {
            use_type_invariant(self);
        }
        if names_equal(name_ref(&self.name), name) {
                (self.action)(options);
            assert(self.action() == self.action);
        }
    }
}

impl<TOptions: Send + Sync, TAction: Fn(&mut TOptions) + Send + Sync> ConfigureOptions<
    TOptions,
> for _Configure<TOptions, TAction> {
    open spec fn configures(&self, name: Option<Seq<char>>, before: TOptions, after: TOptions) -> bool {
        applies(self.name(), name, before, after)
    }

    /// Where the names match, the options are left as one call of the
    /// action leaves them.
    fn configure(&self, name: Option<&str>, options: &mut TOptions)
        ensures
            names_match(self.name(), name_of(name)) ==> exists|o: &mut TOptions| #[trigger]
                call_ensures(self.action(), (o,), ()) && *o == *old(options) && *final(o)
                    == *final(options),
    {
        self.run(name, options)
    }
}

impl<TOptions: Send + Sync, TAction: Fn(&mut TOptions) + Send + Sync> PostConfigureOptions<
    TOptions,
> for _Configure<TOptions, TAction> {
    open spec fn post_configures(
        &self,
        name: Option<Seq<char>>,
        before: TOptions,
        after: TOptions,
    ) -> bool {
        applies(self.name(), name, before, after)
    }

    /// Where the names match, the options are left as one call of the
    /// action leaves them.
    fn post_configure(&self, name: Option<&str>, options: &mut TOptions)
        ensures
            names_match(self.name(), name_of(name)) ==> exists|o: &mut TOptions| #[trigger]
                call_ensures(self.action(), (o,), ()) && *o == *old(options) && *final(o)
                    == *final(options),
    {
        self.run(name, options)
    }
}

} // verus!
