use options::{
    conclude, ConfigureOptions, DefaultOptionsFactory, OptionsFactory, PostConfigureOptions, Ref,
    ValidateOptions, ValidateOptionsResult, _Configure, _Validate,
};
use std::sync::atomic::{AtomicUsize, Ordering};
use std::sync::Mutex;

#[derive(Default, Debug, PartialEq, Eq)]
struct TestOptions {
    enabled: bool,
    setting: usize,
}

fn setup<F: Fn(&mut TestOptions) + Send + Sync + 'static>(
    name: Option<&str>,
    action: F,
) -> Ref<dyn ConfigureOptions<TestOptions>> {
    Ref::new(_Configure::new(name.map(str::to_owned), action))
}

fn finish<F: Fn(&mut TestOptions) + Send + Sync + 'static>(
    name: Option<&str>,
    action: F,
) -> Ref<dyn PostConfigureOptions<TestOptions>> {
    Ref::new(_Configure::new(name.map(str::to_owned), action))
}

fn check<F: Fn(&TestOptions) -> bool + Send + Sync + 'static>(
    name: Option<&str>,
    message: &str,
    action: F,
) -> Ref<dyn ValidateOptions<TestOptions>> {
    Ref::new(_Validate::new(name.map(str::to_owned), message.to_owned(), action))
}

struct Failing(Vec<&'static str>);

impl ValidateOptions<TestOptions> for Failing {
    fn validate(&self, _name: Option<&str>, _options: &TestOptions) -> ValidateOptionsResult {
        ValidateOptionsResult::fail_many(&self.0)
    }
}

#[test]
fn create_without_actions_returns_the_default_value() {
    let factory = DefaultOptionsFactory::<TestOptions>::new(vec![], vec![], vec![]);
    assert_eq!(factory.create(None).ok(), Some(TestOptions::default()));
    assert_eq!(factory.create(Some("x")).ok(), Some(TestOptions::default()));
}

#[test]
fn create_should_apply_all_configurations() {
    let factory = DefaultOptionsFactory::new(
        vec![setup(None, |o| o.setting = 1), setup(None, |o| o.enabled = true)],
        vec![finish(None, |o| o.setting = 2)],
        vec![],
    );

    let options = factory.create(None).ok().unwrap();

    assert!(options.enabled);
    assert_eq!(options.setting, 2);
    assert_eq!(options, TestOptions { enabled: true, setting: 2 });
}

#[test]
fn actions_run_in_the_order_of_their_registration() {
    let factory = DefaultOptionsFactory::new(
        vec![
            setup(None, |o| o.setting = o.setting * 10 + 1),
            setup(None, |o| o.setting = o.setting * 10 + 2),
            setup(None, |o| o.setting = o.setting * 10 + 3),
        ],
        vec![
            finish(None, |o| o.setting = o.setting * 10 + 4),
            finish(None, |o| o.setting = o.setting * 10 + 5),
        ],
        vec![],
    );
    assert_eq!(factory.create(None).ok().unwrap().setting, 12345);
}

#[test]
fn post_configuration_runs_after_all_configuration() {
    let log = Ref::new(Mutex::new(Vec::<&'static str>::new()));
    let (a, b, c) = (log.clone(), log.clone(), log.clone());
    let factory = DefaultOptionsFactory::new(
        vec![
            setup(None, move |_| a.lock().unwrap().push("A")),
            setup(None, move |_| b.lock().unwrap().push("B")),
        ],
        vec![finish(None, move |_| c.lock().unwrap().push("C"))],
        vec![],
    );
    assert!(factory.create(None).is_ok());
    assert_eq!(*log.lock().unwrap(), vec!["A", "B", "C"]);
}

#[test]
fn named_actions_apply_only_to_their_name() {
    let factory = DefaultOptionsFactory::new(
        vec![setup(Some("a"), |o| o.setting = 1), setup(None, |o| o.enabled = true)],
        vec![finish(Some("b"), |o| o.setting = 2)],
        vec![],
    );
    assert_eq!(
        factory.create(Some("A")).ok().unwrap(),
        TestOptions { enabled: true, setting: 1 }
    );
    assert_eq!(
        factory.create(Some("b")).ok().unwrap(),
        TestOptions { enabled: true, setting: 2 }
    );
    assert_eq!(
        factory.create(None).ok().unwrap(),
        TestOptions { enabled: true, setting: 0 }
    );
}

#[test]
fn two_failures_are_reported_together() {
    let factory = DefaultOptionsFactory::<TestOptions>::new(
        vec![],
        vec![],
        vec![check(None, "X", |_| false), check(None, "Y", |_| false)],
    );

    let failure = factory.create(None).err().unwrap();

    assert!(failure.failed());
    assert_eq!(failure.failure_message(), "X; Y");
    assert_eq!(failure.failures(), &["X", "Y"][..]);
}

#[test]
fn every_validator_runs_even_after_a_failure() {
    let calls = Ref::new(AtomicUsize::new(0));
    let (first, second, third) = (calls.clone(), calls.clone(), calls.clone());
    let factory = DefaultOptionsFactory::<TestOptions>::new(
        vec![],
        vec![],
        vec![
            check(None, "one", move |_| {
                first.fetch_add(1, Ordering::SeqCst);
                false
            }),
            check(None, "two", move |_| {
                second.fetch_add(1, Ordering::SeqCst);
                true
            }),
            check(None, "three", move |_| {
                third.fetch_add(1, Ordering::SeqCst);
                false
            }),
        ],
    );

    let failure = factory.create(None).err().unwrap();

    assert_eq!(calls.load(Ordering::SeqCst), 3);
    assert_eq!(failure.failure_message(), "one; three");
}

#[test]
fn messages_of_one_validator_keep_their_order() {
    let factory = DefaultOptionsFactory::<TestOptions>::new(
        vec![],
        vec![],
        vec![
            Ref::new(Failing(vec!["a", "b"])) as Ref<dyn ValidateOptions<TestOptions>>,
            check(None, "c", |_| false),
            Ref::new(Failing(vec!["d", "e"])),
        ],
    );
    let failure = factory.create(None).err().unwrap();
    assert_eq!(failure.failures(), &["a", "b", "c", "d", "e"][..]);
    assert_eq!(failure.failure_message(), "a; b; c; d; e");
}

#[test]
fn skipped_validators_contribute_nothing() {
    let factory = DefaultOptionsFactory::<TestOptions>::new(
        vec![],
        vec![],
        vec![check(Some("other"), "never", |_| false), check(None, "always", |o| o.enabled)],
    );
    let failure = factory.create(Some("this")).err().unwrap();
    assert_eq!(failure.failures(), &["always"][..]);
    let failure = factory.create(Some("OTHER")).err().unwrap();
    assert_eq!(failure.failures(), &["never", "always"][..]);
}

#[test]
fn create_should_succeed_when_configured_options_are_valid() {
    let factory = DefaultOptionsFactory::new(
        vec![setup(None, |o| {
            o.enabled = true;
            o.setting = 1;
        })],
        vec![],
        vec![check(None, "Setting must be zero when disabled", |o| {
            o.enabled || o.setting == 0
        })],
    );
    assert_eq!(
        factory.create(None).ok(),
        Some(TestOptions { enabled: true, setting: 1 })
    );
}

#[test]
fn create_should_fail_when_configured_options_are_invalid() {
    let factory = DefaultOptionsFactory::new(
        vec![setup(None, |o| {
            o.enabled = false;
            o.setting = 1;
        })],
        vec![],
        vec![check(None, "Setting must be zero when disabled", |o| {
            o.enabled || o.setting == 0
        })],
    );
    let failure = factory.create(None).err().unwrap();
    assert_eq!(failure.to_string(), "Setting must be zero when disabled");
}

#[test]
fn validators_see_the_options_after_post_configuration() {
    let factory = DefaultOptionsFactory::new(
        vec![setup(None, |o| o.setting = 1)],
        vec![finish(None, |o| o.setting = 0)],
        vec![check(None, "Setting must be zero when disabled", |o| {
            o.enabled || o.setting == 0
        })],
    );
    assert!(factory.create(None).is_ok());
}

#[test]
fn a_failed_validation_without_messages_still_yields_the_options() {
    let factory = DefaultOptionsFactory::<TestOptions>::new(
        vec![],
        vec![],
        vec![Ref::new(Failing(vec![])) as Ref<dyn ValidateOptions<TestOptions>>],
    );
    assert!(factory.create(None).is_ok());
}

#[test]
fn conclude_returns_the_options_when_nothing_failed() {
    let results = vec![ValidateOptionsResult::success(), ValidateOptionsResult::skip()];
    assert_eq!(conclude(5u8, &results).ok(), Some(5u8));
    assert_eq!(conclude(5u8, &Vec::new()).ok(), Some(5u8));
}

#[test]
fn conclude_collects_every_message_in_order() {
    let results = vec![
        ValidateOptionsResult::fail("X"),
        ValidateOptionsResult::success(),
        ValidateOptionsResult::fail_many(&["Y", "Z"]),
        ValidateOptionsResult::skip(),
    ];
    let failure = conclude(5u8, &results).err().unwrap();
    assert!(failure.failed());
    assert_eq!(failure.failures(), &["X", "Y", "Z"][..]);
    assert_eq!(failure.failure_message(), "X; Y; Z");
}
