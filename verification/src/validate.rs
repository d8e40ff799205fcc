use crate::names::{name_of, name_ref, names_equal, names_match, owned_name_of};
use std::marker::PhantomData;
use vstd::prelude::*;
use vstd::string::StringExecFns;

verus! {

/// What a validation came to, as a mathematical value.
pub enum ValidationOutcome {
    /// The options were checked and accepted.
    Succeeded,
    /// The validator was registered for another name and did not look at the options.
    Skipped,
    /// The options were rejected, for the reasons given.
    Failed(Seq<Seq<char>>),
}

/// The texts that a sequence of string slices holds.
pub open spec fn texts(parts: Seq<&str>) -> Seq<Seq<char>> {
    parts.map_values(|s: &str| s@)
}

/// `parts` written one after the other with `sep` between each two neighbours.
pub open spec fn joined(parts: Seq<Seq<char>>, sep: Seq<char>) -> Seq<char>
    decreases parts.len(),
{
    if parts.len() == 0 {
        Seq::empty()
    } else if parts.len() == 1 {
        parts[0]
    } else {
        joined(parts.drop_last(), sep) + sep + parts.last()
    }
}

/// Represents the result of options validation.
#[derive(Debug)]
pub struct ValidateOptionsResult {
    succeeded: bool,
    skipped: bool,
    failed: bool,
    failures: Vec<String>,
}

impl View for ValidateOptionsResult {
    type V = ValidationOutcome;

    closed spec fn view(&self) -> ValidationOutcome {
        if self.failed {
            ValidationOutcome::Failed(self.failures@.map_values(|s: String| s@))
        } else if self.skipped {
            ValidationOutcome::Skipped
        } else {
            ValidationOutcome::Succeeded
        }
    }
}

impl Clone for ValidateOptionsResult {
    /// The copy stands for the same outcome.
    fn clone(&self) -> (r: Self)
        ensures
            r@ == self@,
    {
        proof {
            use_type_invariant(self);
        }
        let mut failures: Vec<String> = Vec::new();
        let mut i: usize = 0;
        while i < self.failures.len()
            invariant
                i <= self.failures.len(),
                failures@.len() == i,
                forall|j: int| 0 <= j < i ==> (#[trigger] failures@[j])@ == self.failures@[j]@,
            decreases self.failures.len() - i,
        {
            failures.push(self.failures[i].clone());
            i += 1;
        }
        proof {
            assert(failures@.map_values(|s: String| s@) =~= self.failures@.map_values(
                |s: String| s@,
            ));
        }
        Self { succeeded: self.succeeded, skipped: self.skipped, failed: self.failed, failures }
    }
}

impl ValidateOptionsResult {
    /// Exactly one of the three states holds, and only a failure carries messages.
    #[verifier::type_invariant]
    spec fn well_formed(&self) -> bool {
        &&& self.succeeded <==> !self.skipped && !self.failed
        &&& !(self.skipped && self.failed)
        &&& !self.failed ==> self.failures@.len() == 0
    }

    /// The failure messages of an outcome; none unless it failed.
    pub open spec fn messages(outcome: ValidationOutcome) -> Seq<Seq<char>> {
        match outcome {
            ValidationOutcome::Failed(messages) => messages,
            _ => Seq::empty(),
        }
    }

    /// Gets a value indicating whether the validation was successful.
    pub fn succeeded(&self) -> (r: bool)
        ensures
            r == (self@ is Succeeded),
    {
        proof {
            use_type_invariant(self);
        }
        self.succeeded
    }

    /// Gets a value indicating whether the validation was skipped.
    pub fn skipped(&self) -> (r: bool)
        ensures
            r == (self@ is Skipped),
    {
        proof {
            use_type_invariant(self);
        }
        self.skipped
    }

    /// Gets a value indicating whether the validation failed.
    pub fn failed(&self) -> (r: bool)
        ensures
            r == (self@ is Failed),
    {
        proof {
            use_type_invariant(self);
        }
        self.failed
    }

    /// Gets the validation failure description: the messages joined by `"; "`.
    pub fn failure_message(&self) -> (r: String)
        ensures
            r@ == joined(Self::messages(self@), "; "@),
    {
        proof {
            use_type_invariant(self);
        }
        let ghost all = self.failures@.map_values(|s: String| s@);
        let mut message = String::new();
        let mut i: usize = 0;
        while i < self.failures.len()
            invariant
                i <= self.failures.len(),
                all == self.failures@.map_values(|s: String| s@),
                message@ == joined(all.take(i as int), "; "@),
            decreases self.failures.len() - i,
        {
            proof {
                let next = all.take(i + 1);
                assert(next.drop_last() == all.take(i as int));
                assert(next.last() == self.failures@[i as int]@);
                if i == 0 {
                    assert(message@ == Seq::<char>::empty());
                    assert(joined(next, "; "@) == next[0]);
                }
            }
            if i > 0 {
                message.append("; ");
            }
            message.append(self.failures[i].as_str());
            i += 1;
        }
        proof {
            assert(all.take(i as int) == all);
        }
        message
    }

    /// Gets the full list of validation failures.
    pub fn failures(&self) -> (r: &[String])
        ensures
            r@.map_values(|s: String| s@) == Self::messages(self@),
    {
        proof {
            use_type_invariant(self);
        }
        self.failures.as_slice()
    }

    /// Creates a result when validation was skipped due to not matching.
    pub fn skip() -> (r: Self)
        ensures
            r@ == ValidationOutcome::Skipped,
    {
        Self { succeeded: false, skipped: true, failed: false, failures: Vec::new() }
    }

    /// Creates a result when validation was successful.
    pub fn success() -> (r: Self)
        ensures
            r@ == ValidationOutcome::Succeeded,
    {
        Self { succeeded: true, skipped: false, failed: false, failures: Vec::new() }
    }

    /// Creates a result when validation failed.
    pub fn fail(failure: &str) -> (r: Self)
        ensures
            r@ == ValidationOutcome::Failed(seq![failure@]),
    {
        let mut failures: Vec<String> = Vec::new();
        failures.push(String::from_str(failure));
        proof {
            assert(failures@.map_values(|s: String| s@) == seq![failure@]);
        }
        Self { succeeded: false, skipped: false, failed: true, failures }
    }

    /// Creates a result when validation failed for many reasons.
    pub fn fail_many(failures: &[&str]) -> (r: Self)
        ensures
            r@ == ValidationOutcome::Failed(texts(failures@)),
    {
        let mut owned: Vec<String> = Vec::new();
        let mut i: usize = 0;
        while i < failures.len()
            invariant
                i <= failures.len(),
                owned@.len() == i,
                forall|j: int| 0 <= j < i ==> (#[trigger] owned@[j])@ == failures@[j]@,
            decreases failures.len() - i,
        {
            owned.push(String::from_str(failures[i]));
            i += 1;
        }
        proof {
            assert(owned@.map_values(|s: String| s@) =~= texts(failures@));
        }
        Self { succeeded: false, skipped: false, failed: true, failures: owned }
    }

    /// The failure description, as `failure_message` gives it.
    pub fn to_string(&self) -> (r: String)
        ensures
            r@ == joined(Self::messages(self@), "; "@),
    {
        self.failure_message()
    }
}

/// Defines the behavior of an object that validates configuration options.
pub trait ValidateOptions<T>: Send + Sync {
    /// Whether validating `options` for `name` may come to `outcome`.
    ///
    /// A validator that says nothing of itself may come to any outcome.
    open spec fn validates(
        &self,
        name: Option<Seq<char>>,
        options: T,
        outcome: ValidationOutcome,
    ) -> bool {
        true
    }

    /// Validates named options or all options if no name is specified.
    fn validate(&self, name: Option<&str>, options: &T) -> (r: ValidateOptionsResult)
        ensures
            self.validates(name_of(name), *options, r@),
    ;
}

/// The message that is reported when none was given.
pub open spec fn default_message() -> Seq<char> {
    "A validation error has occurred."@
}

/// The message to report: the one given, or the default where it is empty.
pub open spec fn message_or_default_spec(message: Seq<char>) -> Seq<char> {
    if message.len() == 0 {
        default_message()
    } else {
        message
    }
}

/// Returns the message given, or the default message where it is empty.
pub fn message_or_default(message: &str) -> (r: String)
    ensures
        r@ == message_or_default_spec(message@),
{
    if message.is_empty() {
        String::from_str("A validation error has occurred.")
    } else {
        String::from_str(message)
    }
}

/// What a check registered for `own` reports on a request for `name`, the
/// check having answered `accepted` where the names match.
pub open spec fn verdict(
    own: Option<Seq<char>>,
    message: Seq<char>,
    name: Option<Seq<char>>,
    accepted: bool,
) -> ValidationOutcome {
    if !names_match(own, name) {
        ValidationOutcome::Skipped
    } else if accepted {
        ValidationOutcome::Succeeded
    } else {
        ValidationOutcome::Failed(seq![message])
    }
}

/// A check that is applied only to the options whose name matches its own.
pub struct _Validate<TOptions, TAction: Fn(&TOptions) -> bool> {
    name: Option<String>,
    failure_message: String,
    action: TAction,
    _marker: PhantomData<TOptions>,
}

impl<TOptions, TAction: Fn(&TOptions) -> bool> _Validate<TOptions, TAction> {
    /// The check can be called with every value of the options.
    #[verifier::type_invariant]
    spec fn callable(&self) -> bool {
        forall|options: &TOptions| call_requires(self.action, (options,))
    }

    /// The name that the check was registered for, if any.
    pub closed spec fn name(&self) -> Option<Seq<char>> {
        owned_name_of(self.name)
    }

    /// The message that is reported when the check fails.
    pub closed spec fn message(&self) -> Seq<char> {
        self.failure_message@
    }

    /// The check itself.
    pub closed spec fn action(&self) -> TAction {
        self.action
    }

    /// Registers a check for a name, with the message to report when it fails.
    pub fn new(name: Option<String>, failure_message: String, action: TAction) -> (r: Self)
        requires
            forall|options: &TOptions| call_requires(action, (options,)),
        ensures
            r.name() == owned_name_of(name),
            r.message() == failure_message@,
            r.action() == action,
    {
        Self { name, failure_message, action, _marker: PhantomData }
    }

}

impl<TOptions: Send + Sync, TAction: Fn(&TOptions) -> bool + Send + Sync> ValidateOptions<
    TOptions,
> for _Validate<TOptions, TAction> {
    open spec fn validates(
        &self,
        name: Option<Seq<char>>,
        options: TOptions,
        outcome: ValidationOutcome,
    ) -> bool {
        exists|accepted: bool|
            {
                &&& names_match(self.name(), name) ==> call_ensures(
                    self.action(),
                    (&options,),
                    accepted,
                )
                &&& outcome == verdict(self.name(), self.message(), name, accepted)
            }
    }

    fn validate(&self, name: Option<&str>, options: &TOptions) -> (r: ValidateOptionsResult) {
        proof {
            use_type_invariant(self);
        }
        if names_equal(name_ref(&self.name), name) {
            let accepted = (self.action)(options);
            proof {
                assert(call_ensures(self.action(), (options,), accepted));
            }
            if accepted {
                return ValidateOptionsResult::success();
            } else {
                let failure = ValidateOptionsResult::fail(self.failure_message.as_str());
                proof {
                    assert(failure@ == verdict(
                        self.name(),
                        self.message(),
                        name_of(name),
                        false,
                    ));
                }
                return failure;
            }
        }
        proof {
            assert(ValidationOutcome::Skipped == verdict(
                self.name(),
                self.message(),
                name_of(name),
                true,
            ));
        }
        return ValidateOptionsResult::skip();
    }
}

} // verus!
