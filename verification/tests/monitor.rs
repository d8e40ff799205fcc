use options::{
    ConfigureOptions, DefaultOptionsFactory, DefaultOptionsMonitor, OptionsCache,
    OptionsChangeTokenSource, OptionsFactory, OptionsMonitor, OptionsMonitorCache, Ref,
    Subscription, Text, ValidateOptions, _Validate,
};
use std::cell::RefCell;
use std::sync::atomic::{AtomicBool, AtomicU8, AtomicUsize, Ordering};
use std::sync::{Arc, Mutex, Weak};
use tokens::{ChangeToken, SharedChangeToken, SingleChangeToken};

#[derive(Default)]
struct Config {
    retries: u8,
}

type Listener = Box<dyn Fn(Option<&str>, Ref<Config>) + Send + Sync>;

type Core =
    DefaultOptionsMonitor<Config, OptionsCache<Config>, dyn OptionsFactory<Config>, Listener>;

/// A source that can also hand out the token it is watched by.
trait TokenSource: OptionsChangeTokenSource<Config> {
    fn token(&self) -> Box<dyn ChangeToken>;
}

/// Keeps a listener registered until it is dropped.
struct Handle {
    core: Weak<Mutex<Core>>,
    subscription: Option<Subscription<Config>>,
}

impl Drop for Handle {
    fn drop(&mut self) {
        if let (Some(core), Some(subscription)) = (self.core.upgrade(), self.subscription.take()) {
            core.lock().unwrap().unsubscribe(subscription);
        }
    }
}

/// The monitor as the threads of a program share it: the state behind a lock,
/// and one token subscription for each source.
struct Monitor {
    core: Arc<Mutex<Core>>,
    _subscriptions: Vec<Box<dyn tokens::Subscription>>,
}

fn fire(core: &Arc<Mutex<Core>>, index: usize) {
    let change = core.lock().unwrap().source_changed(index);
    // the lock is released: a callback may come back to the monitor
    change.unwrap().deliver();
}

fn subscribe(core: &Arc<Mutex<Core>>, listener: Listener) -> Handle {
    let subscription = core.lock().unwrap().on_change(listener);
    Handle {
        core: Arc::downgrade(core),
        subscription: Some(subscription),
    }
}

impl Monitor {
    fn new(
        cache: OptionsCache<Config>,
        sources: Vec<Arc<dyn TokenSource>>,
        factory: Ref<dyn OptionsFactory<Config>>,
    ) -> Self {
        let names: Vec<Ref<dyn OptionsChangeTokenSource<Config>>> = sources
            .iter()
            .map(|s| {
                let source: Ref<dyn OptionsChangeTokenSource<Config>> = s.clone();
                source
            })
            .collect();
        let core = Arc::new(Mutex::new(DefaultOptionsMonitor::new(cache, names, factory)));
        let mut subscriptions = Vec::new();

        for (index, source) in sources.into_iter().enumerate() {
            let consumer = core.clone();
            let subscription: Box<dyn tokens::Subscription> = Box::new(tokens::on_change(
                move || source.token(),
                move |state: Option<Arc<usize>>| fire(&consumer, *state.unwrap()),
                Some(Arc::new(index)),
            ));
            subscriptions.push(subscription);
        }

        Self {
            core,
            _subscriptions: subscriptions,
        }
    }

    fn current_value(&self) -> Ref<Config> {
        self.core.lock().unwrap().current_value().unwrap()
    }

    fn get(&self, name: Option<&str>) -> Ref<Config> {
        self.core.lock().unwrap().get(name).unwrap()
    }

    fn on_change(&self, listener: Listener) -> Handle {
        subscribe(&self.core, listener)
    }
}

pub struct OptionsState {
    dirty: AtomicBool,
}

impl OptionsState {
    fn is_dirty(&self) -> bool {
        self.dirty.load(Ordering::SeqCst)
    }

    fn mark_dirty(&self) {
        self.dirty.store(true, Ordering::SeqCst)
    }

    fn reset(&self) {
        self.dirty.store(false, Ordering::SeqCst)
    }
}

impl Default for OptionsState {
    fn default() -> Self {
        Self {
            dirty: AtomicBool::new(true),
        }
    }
}

#[derive(Default)]
struct ConfigSetup {
    counter: AtomicU8,
}

impl ConfigureOptions<Config> for ConfigSetup {
    fn configure(&self, name: Option<&str>, options: &mut Config) {
        if name.is_none() {
            let retries = self.counter.fetch_add(1, Ordering::SeqCst) + 1;
            options.retries = retries;
        }
    }
}

#[derive(Default)]
struct ConfigSource {
    token: SharedChangeToken<SingleChangeToken>,
}

impl ConfigSource {
    fn changed(&self) {
        self.token.notify()
    }
}

impl OptionsChangeTokenSource<Config> for ConfigSource {
    fn source_name(&self) -> Option<Text> {
        unreachable!()
    }

    fn name(&self) -> Option<&str> {
        None
    }
}

impl TokenSource for ConfigSource {
    fn token(&self) -> Box<dyn ChangeToken> {
        Box::new(self.token.clone())
    }
}

/// A source that hands out a fresh token after each change.
struct RenewingSource {
    name: Option<String>,
    token: Mutex<SharedChangeToken<SingleChangeToken>>,
}

impl RenewingSource {
    fn new(name: Option<&str>) -> Self {
        Self {
            name: name.map(str::to_owned),
            token: Mutex::default(),
        }
    }

    fn changed(&self) {
        let fired = std::mem::take(&mut *self.token.lock().unwrap());
        fired.notify()
    }
}

impl OptionsChangeTokenSource<Config> for RenewingSource {
    fn source_name(&self) -> Option<Text> {
        unreachable!()
    }

    fn name(&self) -> Option<&str> {
        self.name.as_deref()
    }
}

impl TokenSource for RenewingSource {
    fn token(&self) -> Box<dyn ChangeToken> {
        Box::new(self.token.lock().unwrap().clone())
    }
}

struct Foo {
    monitor: Ref<Monitor>,
    _sub: Handle,
    state: Arc<OptionsState>,
    retries: RefCell<u8>,
}

impl Foo {
    fn new(monitor: Ref<Monitor>) -> Self {
        let state = Arc::new(OptionsState::default());
        let other = state.clone();

        Self {
            monitor: monitor.clone(),
            _sub: monitor.on_change(Box::new(
                move |_name: Option<&str>, _options: Ref<Config>| other.mark_dirty(),
            )),
            state,
            retries: RefCell::default(),
        }
    }

    fn retries(&self) -> u8 {
        if self.state.is_dirty() {
            *self.retries.borrow_mut() = self.monitor.current_value().retries;
            self.state.reset();
        }

        self.retries.borrow().clone()
    }
}

fn counting_factory() -> Ref<dyn OptionsFactory<Config>> {
    let setup: Ref<dyn ConfigureOptions<Config>> = Ref::new(ConfigSetup::default());
    Ref::new(DefaultOptionsFactory::new(
        vec![setup],
        Vec::default(),
        Vec::default(),
    ))
}

#[test]
fn monitored_options_should_update_when_source_changes() {
    // arrange
    let cache = OptionsCache::<Config>::default();
    let factory = counting_factory();
    let source = Ref::new(ConfigSource::default());
    let monitor = Ref::new(Monitor::new(cache, vec![source.clone()], factory));
    let foo = Foo::new(monitor);
    let initial = foo.retries();

    // act
    source.changed();

    // assert
    assert_eq!(initial, 1);
    assert_eq!(foo.retries(), 2);
}

#[test]
fn monitored_options_should_update_each_time_the_source_changes() {
    let source = Ref::new(RenewingSource::new(None));
    let monitor = Monitor::new(OptionsCache::default(), vec![source.clone()], counting_factory());
    let notified = Arc::new(AtomicUsize::new(0));
    let seen = Arc::new(AtomicU8::new(0));
    let (count, last) = (notified.clone(), seen.clone());
    let _sub = monitor.on_change(Box::new(move |name: Option<&str>, options: Ref<Config>| {
        assert!(name.is_none());
        count.fetch_add(1, Ordering::SeqCst);
        last.store(options.retries, Ordering::SeqCst);
    }));

    assert_eq!(monitor.current_value().retries, 1);
    assert_eq!(monitor.current_value().retries, 1);
    assert_eq!(notified.load(Ordering::SeqCst), 0);

    source.changed();
    assert_eq!(notified.load(Ordering::SeqCst), 1);
    assert_eq!(seen.load(Ordering::SeqCst), 2);
    assert_eq!(monitor.current_value().retries, 2);

    source.changed();
    assert_eq!(notified.load(Ordering::SeqCst), 2);
    assert_eq!(seen.load(Ordering::SeqCst), 3);
    assert_eq!(monitor.current_value().retries, 3);
    assert_eq!(monitor.get(None).retries, 3);
}

#[test]
fn dropped_subscription_should_not_be_notified() {
    let source = Ref::new(RenewingSource::new(None));
    let monitor = Monitor::new(OptionsCache::default(), vec![source.clone()], counting_factory());
    let kept = Arc::new(AtomicUsize::new(0));
    let dropped = Arc::new(AtomicUsize::new(0));
    let (k, d) = (kept.clone(), dropped.clone());
    let first = monitor.on_change(Box::new(move |_: Option<&str>, _: Ref<Config>| {
        d.fetch_add(1, Ordering::SeqCst);
    }));
    let _second = monitor.on_change(Box::new(move |_: Option<&str>, _: Ref<Config>| {
        k.fetch_add(1, Ordering::SeqCst);
    }));

    source.changed();
    drop(first);
    source.changed();
    source.changed();

    assert_eq!(dropped.load(Ordering::SeqCst), 1);
    assert_eq!(kept.load(Ordering::SeqCst), 3);
    // each change created the options once, and the last ones are cached
    assert_eq!(monitor.current_value().retries, 3);
}

#[test]
fn listener_may_register_another_listener_while_notified() {
    let source = Ref::new(RenewingSource::new(None));
    let monitor = Monitor::new(OptionsCache::default(), vec![source.clone()], counting_factory());
    let core = monitor.core.clone();
    let added: Arc<Mutex<Vec<Handle>>> = Arc::default();
    let late = Arc::new(AtomicUsize::new(0));
    let early = Arc::new(AtomicUsize::new(0));
    let (handles, late_calls, early_calls) = (added.clone(), late.clone(), early.clone());

    let _first = monitor.on_change(Box::new(move |_: Option<&str>, _: Ref<Config>| {
        early_calls.fetch_add(1, Ordering::SeqCst);
        if handles.lock().unwrap().is_empty() {
            let calls = late_calls.clone();
            let handle = subscribe(
                &core,
                Box::new(move |_: Option<&str>, _: Ref<Config>| {
                    calls.fetch_add(1, Ordering::SeqCst);
                }),
            );
            handles.lock().unwrap().push(handle);
        }
    }));

    source.changed();
    assert_eq!(early.load(Ordering::SeqCst), 1);
    assert_eq!(late.load(Ordering::SeqCst), 0);
    assert_eq!(added.lock().unwrap().len(), 1);

    source.changed();
    assert_eq!(early.load(Ordering::SeqCst), 2);
    assert_eq!(late.load(Ordering::SeqCst), 1);
}

#[test]
fn listener_may_read_the_current_value_while_notified() {
    let source = Ref::new(RenewingSource::new(None));
    let monitor = Monitor::new(OptionsCache::default(), vec![source.clone()], counting_factory());
    let core = monitor.core.clone();
    let read = Arc::new(AtomicU8::new(0));
    let value = read.clone();
    let _sub = monitor.on_change(Box::new(move |_: Option<&str>, options: Ref<Config>| {
        let current = core.lock().unwrap().current_value().unwrap();
        assert!(Ref::ptr_eq(&current, &options));
        value.store(current.retries, Ordering::SeqCst);
    }));

    assert_eq!(monitor.current_value().retries, 1);
    source.changed();
    assert_eq!(read.load(Ordering::SeqCst), 2);
}

#[test]
fn a_change_renews_only_the_options_of_its_name() {
    let first = Ref::new(RenewingSource::new(Some("first")));
    let second = Ref::new(RenewingSource::new(None));
    let count: Ref<dyn ConfigureOptions<Config>> = Ref::new(Counter::default());
    let factory: Ref<dyn OptionsFactory<Config>> =
        Ref::new(DefaultOptionsFactory::new(vec![count], vec![], vec![]));
    let monitor = Monitor::new(
        OptionsCache::default(),
        vec![first.clone(), second.clone()],
        factory,
    );
    let names: Arc<Mutex<Vec<Option<String>>>> = Arc::default();
    let log = names.clone();
    let _sub = monitor.on_change(Box::new(move |name: Option<&str>, _: Ref<Config>| {
        log.lock().unwrap().push(name.map(str::to_owned));
    }));

    assert_eq!(monitor.get(Some("first")).retries, 1);
    assert_eq!(monitor.current_value().retries, 2);

    first.changed();
    assert_eq!(monitor.get(Some("first")).retries, 3);
    assert_eq!(monitor.current_value().retries, 2);

    second.changed();
    assert_eq!(monitor.get(Some("first")).retries, 3);
    assert_eq!(monitor.current_value().retries, 4);

    assert_eq!(
        *names.lock().unwrap(),
        vec![Some("first".to_owned()), None]
    );
}

#[test]
fn dropped_monitor_is_no_longer_reached_by_its_sources() {
    let source = Ref::new(RenewingSource::new(None));
    let monitor = Monitor::new(OptionsCache::default(), vec![source.clone()], counting_factory());
    let calls = Arc::new(AtomicUsize::new(0));
    let count = calls.clone();
    let sub = monitor.on_change(Box::new(move |_: Option<&str>, _: Ref<Config>| {
        count.fetch_add(1, Ordering::SeqCst);
    }));

    source.changed();
    drop(monitor);
    source.changed();
    drop(sub);

    assert_eq!(calls.load(Ordering::SeqCst), 1);
}

/// Counts every configuration, whatever the name.
#[derive(Default)]
struct Counter(AtomicU8);

impl ConfigureOptions<Config> for Counter {
    fn configure(&self, _name: Option<&str>, options: &mut Config) {
        options.retries = self.0.fetch_add(1, Ordering::SeqCst) + 1;
    }
}

fn plain_monitor() -> Core {
    DefaultOptionsMonitor::new(OptionsCache::default(), vec![], counting_factory())
}

#[test]
fn monitor_without_sources_serves_cached_options() {
    let mut monitor = plain_monitor();
    assert_eq!(monitor.source_count(), 0);
    let first = monitor.current_value().unwrap();
    let second = monitor.get(None).unwrap();
    assert_eq!(first.retries, 1);
    assert!(Ref::ptr_eq(&first, &second));
}

#[test]
fn monitor_keeps_one_registration_for_each_source() {
    let sources: Vec<Ref<dyn OptionsChangeTokenSource<Config>>> = vec![
        Ref::new(RenewingSource::new(Some("a"))),
        Ref::new(RenewingSource::new(None)),
        Ref::new(RenewingSource::new(Some("b"))),
    ];
    let monitor: Core =
        DefaultOptionsMonitor::new(OptionsCache::default(), sources, counting_factory());
    assert_eq!(monitor.source_count(), 3);
    assert_eq!(monitor.source_name(0), Some("a"));
    assert_eq!(monitor.source_name(1), None);
    assert_eq!(monitor.source_name(2), Some("b"));
}

#[test]
fn source_changed_captures_the_live_listeners_in_order() {
    let sources: Vec<Ref<dyn OptionsChangeTokenSource<Config>>> =
        vec![Ref::new(RenewingSource::new(None))];
    let mut monitor: Core =
        DefaultOptionsMonitor::new(OptionsCache::default(), sources, counting_factory());
    let order: Arc<Mutex<Vec<u8>>> = Arc::default();
    let mut subscriptions = Vec::new();
    for id in 1..=4u8 {
        let log = order.clone();
        subscriptions.push(monitor.on_change(Box::new(
            move |_: Option<&str>, _: Ref<Config>| log.lock().unwrap().push(id),
        )));
    }
    // give up the second one
    let second = subscriptions.remove(1);
    assert_eq!(second.id(), 1);
    monitor.unsubscribe(second);

    let change = monitor.source_changed(0).unwrap();
    assert_eq!(change.len(), 3);
    assert_eq!(change.changed_name(), None);
    assert_eq!(change.value().retries, 1);
    // a listener registered after the change was noticed is not part of it
    let log = order.clone();
    let late = monitor.on_change(Box::new(move |_: Option<&str>, _: Ref<Config>| {
        log.lock().unwrap().push(9)
    }));
    assert_eq!(late.id(), 4);
    change.deliver();
    assert_eq!(*order.lock().unwrap(), vec![1, 3, 4]);

    order.lock().unwrap().clear();
    let change = monitor.source_changed(0).unwrap();
    assert_eq!(change.value().retries, 2);
    change.deliver();
    assert_eq!(*order.lock().unwrap(), vec![1, 3, 4, 9]);
}

#[test]
fn failed_validation_after_a_change_is_reported_and_nothing_is_cached() {
    let valid = Arc::new(AtomicBool::new(true));
    let flag = valid.clone();
    let check: Ref<dyn ValidateOptions<Config>> = Ref::new(_Validate::new(
        None,
        "Retries are not allowed".to_owned(),
        move |_: &Config| flag.load(Ordering::SeqCst),
    ));
    let factory: Ref<dyn OptionsFactory<Config>> =
        Ref::new(DefaultOptionsFactory::new(vec![], vec![], vec![check]));
    let sources: Vec<Ref<dyn OptionsChangeTokenSource<Config>>> =
        vec![Ref::new(RenewingSource::new(None))];
    let mut monitor: Core = DefaultOptionsMonitor::new(OptionsCache::default(), sources, factory);
    let calls = Arc::new(AtomicUsize::new(0));
    let count = calls.clone();
    let _sub = monitor.on_change(Box::new(move |_: Option<&str>, _: Ref<Config>| {
        count.fetch_add(1, Ordering::SeqCst);
    }));

    assert!(monitor.current_value().is_ok());
    valid.store(false, Ordering::SeqCst);
    // the cached options are still served
    assert!(monitor.current_value().is_ok());

    let failure = monitor.source_changed(0).err().unwrap();
    assert_eq!(failure.failure_message(), "Retries are not allowed");
    assert_eq!(calls.load(Ordering::SeqCst), 0);
    // the stale options are gone
    assert!(monitor.current_value().is_err());

    valid.store(true, Ordering::SeqCst);
    assert!(monitor.current_value().is_ok());
}

#[test]
fn cache_handed_to_the_monitor_is_served_first() {
    let mut cache = OptionsCache::<Config>::default();
    assert!(cache.try_add(None, Config { retries: 42 }));
    let sources: Vec<Ref<dyn OptionsChangeTokenSource<Config>>> =
        vec![Ref::new(RenewingSource::new(None))];
    let mut monitor: Core = DefaultOptionsMonitor::new(cache, sources, counting_factory());

    assert_eq!(monitor.current_value().unwrap().retries, 42);
    let change = monitor.source_changed(0).unwrap();
    assert_eq!(change.value().retries, 1);
    assert_eq!(monitor.current_value().unwrap().retries, 1);
}

#[test]
fn a_change_carries_the_name_of_its_source() {
    let sources: Vec<Ref<dyn OptionsChangeTokenSource<Config>>> = vec![
        Ref::new(RenewingSource::new(Some("first"))),
        Ref::new(RenewingSource::new(None)),
    ];
    let count: Ref<dyn ConfigureOptions<Config>> = Ref::new(Counter::default());
    let factory: Ref<dyn OptionsFactory<Config>> =
        Ref::new(DefaultOptionsFactory::new(vec![count], vec![], vec![]));
    let mut monitor: Core = DefaultOptionsMonitor::new(OptionsCache::default(), sources, factory);
    let seen: Arc<Mutex<Vec<(Option<String>, u8)>>> = Arc::default();
    let log = seen.clone();
    let _sub = monitor.on_change(Box::new(move |name: Option<&str>, options: Ref<Config>| {
        log.lock().unwrap().push((name.map(str::to_owned), options.retries));
    }));
    assert_eq!(monitor.get(Some("FIRST")).unwrap().retries, 1);

    let change = monitor.source_changed(0).unwrap();
    assert_eq!(change.changed_name(), Some("first"));
    change.deliver();
    let change = monitor.source_changed(1).unwrap();
    assert_eq!(change.changed_name(), None);
    change.deliver();

    assert_eq!(
        *seen.lock().unwrap(),
        vec![(Some("first".to_owned()), 2), (None, 3)]
    );
    // the options of a name are renewed under every spelling of it
    assert_eq!(monitor.get(Some("First")).unwrap().retries, 2);
}
