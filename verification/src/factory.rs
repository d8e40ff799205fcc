use crate::configure::{ConfigureOptions, PostConfigureOptions};
use crate::names::name_of;
use crate::validate::{joined, texts, ValidateOptions, ValidateOptionsResult, ValidationOutcome};
use crate::{Ref, Value};
use vstd::prelude::*;

verus! {

/// What a factory returned, with a failure taken as a mathematical value.
pub open spec fn created<T>(result: Result<T, ValidateOptionsResult>) -> Result<
    T,
    ValidationOutcome,
> {
    match result {
        Ok(options) => Ok(options),
        Err(failure) => Err(failure@),
    }
}

/// Defines the behavior of an object that creates configuration options.
pub trait OptionsFactory<T: Value>: Send + Sync {
    /// Whether creating the options for `name` may come to `outcome`.
    ///
    /// A factory that says nothing of itself may come to any outcome.
    open spec fn creates(&self, name: Option<Seq<char>>, outcome: Result<T, ValidationOutcome>) -> bool {
        true
    }

    /// Creates and returns new configuration options.
    fn create(&self, name: Option<&str>) -> (r: Result<T, ValidateOptionsResult>)
        ensures
            self.creates(name_of(name), created(r)),
    ;
}

/// Whether the actions, run one after the other for `name`, may take the
/// options through `states`: from the first state to the last, one step for
/// each action.
pub open spec fn configured_through<T>(
    actions: Seq<Ref<dyn ConfigureOptions<T>>>,
    name: Option<Seq<char>>,
    states: Seq<T>,
) -> bool {
    &&& states.len() == actions.len() + 1
    &&& forall|i: int|
        0 <= i < actions.len() ==> (#[trigger] actions[i]).configures(
            name,
            states[i],
            states[i + 1],
        )
}

/// Whether the actions, run one after the other for `name`, may take the
/// options through `states`: from the first state to the last, one step for
/// each action.
pub open spec fn post_configured_through<T>(
    actions: Seq<Ref<dyn PostConfigureOptions<T>>>,
    name: Option<Seq<char>>,
    states: Seq<T>,
) -> bool {
    &&& states.len() == actions.len() + 1
    &&& forall|i: int|
        0 <= i < actions.len() ==> (#[trigger] actions[i]).post_configures(
            name,
            states[i],
            states[i + 1],
        )
}

/// Whether the validators, each asked about `options` for `name`, may come to
/// `outcomes`, one outcome for each validator and in their order.
pub open spec fn validated_by<T>(
    validators: Seq<Ref<dyn ValidateOptions<T>>>,
    name: Option<Seq<char>>,
    options: T,
    outcomes: Seq<ValidationOutcome>,
) -> bool {
    &&& outcomes.len() == validators.len()
    &&& forall|i: int|
        0 <= i < validators.len() ==> (#[trigger] validators[i]).validates(
            name,
            options,
            outcomes[i],
        )
}

/// The failure messages of all outcomes, in the order of the outcomes and,
/// within one outcome, in its own order.
pub open spec fn collected(outcomes: Seq<ValidationOutcome>) -> Seq<Seq<char>>
    decreases outcomes.len(),
{
    if outcomes.len() == 0 {
        Seq::empty()
    } else {
        collected(outcomes.drop_last()) + ValidateOptionsResult::messages(outcomes.last())
    }
}

/// What is returned for options that were validated with `outcomes`: the
/// options where no message was collected, else a failure with all messages.
pub open spec fn concluded<T>(options: T, outcomes: Seq<ValidationOutcome>) -> Result<
    T,
    ValidationOutcome,
> {
    if collected(outcomes).len() == 0 {
        Ok(options)
    } else {
        Err(ValidationOutcome::Failed(collected(outcomes)))
    }
}

/// The outcomes that a sequence of results stands for.
pub open spec fn outcomes_of(results: Seq<ValidateOptionsResult>) -> Seq<ValidationOutcome> {
    results.map_values(|r: ValidateOptionsResult| r@)
}

/// Decides what is returned for `options` once every validator has reported:
/// the options themselves, or one failure that carries every message.
pub fn conclude<T>(options: T, results: &Vec<ValidateOptionsResult>) -> (r: Result<
    T,
    ValidateOptionsResult,
>)
    ensures
        created(r) == concluded(options, outcomes_of(results@)),
{
    let ghost outcomes = outcomes_of(results@);
    let mut failures: Vec<&str> = Vec::new();
    let mut i: usize = 0;
    while i < results.len()
        invariant
            i <= results.len(),
            outcomes == outcomes_of(results@),
            texts(failures@) == collected(outcomes.take(i as int)),
        decreases results.len() - i,
    {
        let ghost before = texts(failures@);
        let messages = results[i].failures();
        let mut j: usize = 0;
        while j < messages.len()
            invariant
                j <= messages.len(),
                0 <= i < outcomes.len(),
                messages@.map_values(|s: String| s@) == ValidateOptionsResult::messages(
                    outcomes[i as int],
                ),
                texts(failures@) == before + ValidateOptionsResult::messages(
                    outcomes[i as int],
                ).take(j as int),
            decreases messages.len() - j,
        {
            let ghost earlier = failures@;
            failures.push(messages[j].as_str());
            proof {
                let all = ValidateOptionsResult::messages(outcomes[i as int]);
                assert(all.len() == messages@.len());
                assert(all[j as int] == messages@[j as int]@);
                assert(all.take(j + 1) =~= all.take(j as int).push(all[j as int]));
                assert(texts(failures@) =~= texts(earlier).push(all[j as int]));
                assert(texts(failures@) =~= before + all.take(j + 1));
            }
            j += 1;
        }
        proof {
            let all = ValidateOptionsResult::messages(outcomes[i as int]);
            assert(all.take(j as int) == all);
            assert(outcomes.take(i + 1).drop_last() == outcomes.take(i as int));
            assert(outcomes.take(i + 1).last() == outcomes[i as int]);
        }
        i += 1;
    }
    proof {
        assert(outcomes.take(i as int) == outcomes);
    }
    if failures.is_empty() {
        Ok(options)
    } else {
        Err(ValidateOptionsResult::fail_many(failures.as_slice()))
    }
}

/// Represents the default factory used to create configuration options.
#[verifier::reject_recursive_types(T)]
pub struct DefaultOptionsFactory<T: Value + Default> {
    configurations: Vec<Ref<dyn ConfigureOptions<T>>>,
    post_configurations: Vec<Ref<dyn PostConfigureOptions<T>>>,
    validations: Vec<Ref<dyn ValidateOptions<T>>>,
}

impl<T: Value + Default> Default for DefaultOptionsFactory<T> {
    /// A factory without actions and without validators.
    fn default() -> (r: Self)
        ensures
            r.configurations().len() == 0,
            r.post_configurations().len() == 0,
            r.validations().len() == 0,
    {
        Self::new(Vec::new(), Vec::new(), Vec::new())
    }
}

impl<T: Value + Default> DefaultOptionsFactory<T> {
    /// The actions that are run first, in their order.
    pub closed spec fn configurations(&self) -> Seq<Ref<dyn ConfigureOptions<T>>> {
        self.configurations@
    }

    /// The actions that are run after all the others, in their order.
    pub closed spec fn post_configurations(&self) -> Seq<Ref<dyn PostConfigureOptions<T>>> {
        self.post_configurations@
    }

    /// The validators, in their order.
    pub closed spec fn validations(&self) -> Seq<Ref<dyn ValidateOptions<T>>> {
        self.validations@
    }

    /// Initializes a new options factory.
    pub fn new(
        configurations: Vec<Ref<dyn ConfigureOptions<T>>>,
        post_configurations: Vec<Ref<dyn PostConfigureOptions<T>>>,
        validations: Vec<Ref<dyn ValidateOptions<T>>>,
    ) -> (r: Self)
        ensures
            r.configurations() == configurations@,
            r.post_configurations() == post_configurations@,
            r.validations() == validations@,
    {
        Self { configurations, post_configurations, validations }
    }

    /// Whether one run of the factory for `name` may pass through these
    /// values: `configuring` from the default value through the first actions,
    /// `finishing` from there through the last ones, and `outcomes` from the
    /// validators, which see the options as the last action left them.
    pub open spec fn runs(
        &self,
        name: Option<Seq<char>>,
        configuring: Seq<T>,
        finishing: Seq<T>,
        outcomes: Seq<ValidationOutcome>,
    ) -> bool {
        &&& configured_through(self.configurations(), name, configuring)
        &&& post_configured_through(self.post_configurations(), name, finishing)
        &&& call_ensures(T::default, (), configuring.first())
        &&& finishing.first() == configuring.last()
        &&& validated_by(self.validations(), name, finishing.last(), outcomes)
    }
}

impl<T: Value + Default> OptionsFactory<T> for DefaultOptionsFactory<T> {
    /// The outcome is what `concluded` gives for the options at the end of
    /// some run and for what the validators said of them.
    open spec fn creates(&self, name: Option<Seq<char>>, outcome: Result<T, ValidationOutcome>) -> bool {
        exists|configuring: Seq<T>, finishing: Seq<T>, outcomes: Seq<ValidationOutcome>|
            #[trigger] self.runs(name, configuring, finishing, outcomes) && outcome == concluded(
                finishing.last(),
                outcomes,
            )
    }

    fn create(&self, name: Option<&str>) -> (r: Result<T, ValidateOptionsResult>) {
        let mut options: T = Default::default();
        let ghost mut configuring: Seq<T> = seq![options];

        let mut i: usize = 0;
        while i < self.configurations.len()
            invariant
                i <= self.configurations.len(),
                configuring.len() == i + 1,
                configuring.last() == options,
                call_ensures(T::default, (), configuring.first()),
                forall|k: int|
                    0 <= k < i ==> (#[trigger] self.configurations@[k]).configures(
                        name_of(name),
                        configuring[k],
                        configuring[k + 1],
                    ),
            decreases self.configurations.len() - i,
        {
            self.configurations[i].configure(name, &mut options);
            proof {
                configuring = configuring.push(options);
            }
            i += 1;
        }

        let ghost mut finishing: Seq<T> = seq![options];
        let mut i: usize = 0;
        while i < self.post_configurations.len()
            invariant
                i <= self.post_configurations.len(),
                finishing.len() == i + 1,
                finishing.last() == options,
                finishing.first() == configuring.last(),
                forall|k: int|
                    0 <= k < i ==> (#[trigger] self.post_configurations@[k]).post_configures(
                        name_of(name),
                        finishing[k],
                        finishing[k + 1],
                    ),
            decreases self.post_configurations.len() - i,
        {
            self.post_configurations[i].post_configure(name, &mut options);
            proof {
                finishing = finishing.push(options);
            }
            i += 1;
        }

        let mut results: Vec<ValidateOptionsResult> = Vec::new();
        let mut i: usize = 0;
        while i < self.validations.len()
            invariant
                i <= self.validations.len(),
                results@.len() == i,
                forall|k: int|
                    0 <= k < i ==> (#[trigger] self.validations@[k]).validates(
                        name_of(name),
                        options,
                        outcomes_of(results@)[k],
                    ),
            decreases self.validations.len() - i,
        {
            let result = self.validations[i].validate(name, &options);
            let ghost before = results@;
            results.push(result);
            proof {
                assert forall|k: int| 0 <= k < i implies outcomes_of(results@)[k] == outcomes_of(
                    before,
                )[k] by {}
            }
            i += 1;
        }
        proof {
            assert(self.runs(name_of(name), configuring, finishing, outcomes_of(results@)));
        }
        conclude(options, &results)
    }
}

/// The messages of outcomes written one after the other are the messages of
/// the first ones followed by those of the later ones.
pub proof fn lemma_collected_of_concatenation(
    first: Seq<ValidationOutcome>,
    second: Seq<ValidationOutcome>,
)
    ensures
        collected(first + second) == collected(first) + collected(second),
    decreases second.len(),
{
    if second.len() == 0 {
        assert(first + second == first);
        assert(collected(first) + collected(second) == collected(first));
    } else {
        lemma_collected_of_concatenation(first, second.drop_last());
        assert((first + second).drop_last() == first + second.drop_last());
        assert((first + second).last() == second.last());
        assert(collected(first) + (collected(second.drop_last())
            + ValidateOptionsResult::messages(second.last())) == (collected(first) + collected(
            second.drop_last(),
        )) + ValidateOptionsResult::messages(second.last()));
    }
}

/// Where no validator failed, whether it succeeded or was skipped, the
/// options are returned.
pub proof fn lemma_options_are_returned_unless_a_validator_fails<T>(
    options: T,
    outcomes: Seq<ValidationOutcome>,
)
    requires
        forall|i: int| 0 <= i < outcomes.len() ==> !(#[trigger] outcomes[i] is Failed),
    ensures
        concluded(options, outcomes) == Ok::<T, ValidationOutcome>(options),
    decreases outcomes.len(),
{
    if outcomes.len() > 0 {
        assert(!(outcomes[outcomes.len() - 1] is Failed));
        lemma_options_are_returned_unless_a_validator_fails(options, outcomes.drop_last());
    }
}

/// Where a validator failed with a message, a failure is returned, and the
/// message is among those it carries.
pub proof fn lemma_a_failure_with_a_message_is_reported<T>(
    options: T,
    outcomes: Seq<ValidationOutcome>,
    index: int,
    message: int,
)
    requires
        0 <= index < outcomes.len(),
        outcomes[index] is Failed,
        0 <= message < ValidateOptionsResult::messages(outcomes[index]).len(),
    ensures
        concluded(options, outcomes) == Err::<T, ValidationOutcome>(
            ValidationOutcome::Failed(collected(outcomes)),
        ),
        collected(outcomes).contains(ValidateOptionsResult::messages(outcomes[index])[message]),
{
    let before = outcomes.take(index);
    let one = seq![outcomes[index]];
    let after = outcomes.skip(index + 1);
    assert(outcomes == before + one + after);
    lemma_collected_of_concatenation(before + one, after);
    lemma_collected_of_concatenation(before, one);
    assert(one.drop_last() == Seq::<ValidationOutcome>::empty());
    assert(collected(one.drop_last()) == Seq::<Seq<char>>::empty());
    assert(collected(one) == ValidateOptionsResult::messages(outcomes[index]));
    let all = collected(outcomes);
    assert(all[collected(before).len() + message] == ValidateOptionsResult::messages(
        outcomes[index],
    )[message]);
}

/// Two validators that fail with one message each yield a failure with both
/// messages, in the order of the validators, and its description is the
/// first message, `"; "`, and the second message.
pub proof fn lemma_two_failures_are_reported_together<T>(
    options: T,
    first: Seq<char>,
    second: Seq<char>,
)
    ensures
        concluded(
            options,
            seq![
                ValidationOutcome::Failed(seq![first]),
                ValidationOutcome::Failed(seq![second]),
            ],
        ) == Err::<T, ValidationOutcome>(ValidationOutcome::Failed(seq![first, second])),
        joined(seq![first, second], "; "@) == first + "; "@ + second,
{
    let one = seq![ValidationOutcome::Failed(seq![first])];
    let other = seq![ValidationOutcome::Failed(seq![second])];
    let both = seq![ValidationOutcome::Failed(seq![first]), ValidationOutcome::Failed(seq![second])];
    assert(both == one + other);
    lemma_collected_of_concatenation(one, other);
    assert(one.drop_last() == Seq::<ValidationOutcome>::empty());
    assert(other.drop_last() == Seq::<ValidationOutcome>::empty());
    assert(collected(one.drop_last()) == Seq::<Seq<char>>::empty());
    assert(collected(one) == seq![first]);
    assert(collected(other) == seq![second]);
    assert(seq![first] + seq![second] == seq![first, second]);
    let parts = seq![first, second];
    assert(parts.drop_last() == seq![first]);
    assert(joined(parts.drop_last(), "; "@) == first);
}

} // verus!
