use crate::factory::OptionsFactory;
use crate::names::{name_of, names_equal, names_match, Text};
use crate::validate::{ValidateOptionsResult, ValidationOutcome};
use crate::{Ref, Value};
use vstd::prelude::*;

verus! {

/// The key under which the options of a name are cached: the name itself,
/// and the empty text for the options without a name.
pub open spec fn key_of(name: Option<Text>) -> Text {
    match name {
        Some(n) => n,
        None => Seq::empty(),
    }
}

/// Whether two keys stand for one name: they have the same length in bytes
/// and are equal once both are upper-cased, or once both are lower-cased.
pub open spec fn same_name(key: Text, other: Text) -> bool {
    names_match(Some(key), Some(other))
}

/// What a cache holds: the key and the options of each entry, in the order
/// in which the entries were added.
pub type Entries<T> = Seq<(Text, Ref<T>)>;

/// The options that are cached for a key: those of the first entry whose key
/// stands for the same name, if there is one.
pub open spec fn found<T>(entries: Entries<T>, key: Text) -> Option<Ref<T>>
    decreases entries.len(),
{
    if entries.len() == 0 {
        None
    } else if found(entries.drop_last(), key) is Some {
        found(entries.drop_last(), key)
    } else if same_name(entries.last().0, key) {
        Some(entries.last().1)
    } else {
        None
    }
}

/// The entries but those whose key stands for the same name as `key`.
pub open spec fn without<T>(entries: Entries<T>, key: Text) -> Entries<T>
    decreases entries.len(),
{
    if entries.len() == 0 {
        Seq::empty()
    } else if same_name(entries.last().0, key) {
        without(entries.drop_last(), key)
    } else {
        without(entries.drop_last(), key).push(entries.last())
    }
}

/// No two entries have keys that stand for the same name.
pub open spec fn apart<T>(entries: Entries<T>) -> bool {
    forall|i: int, j: int|
        0 <= i < j < entries.len() ==> !same_name(
            (#[trigger] entries[i]).0,
            (#[trigger] entries[j]).0,
        )
}

/// What `get_or_add` does to the entries: cached options are handed out and
/// nothing changes, missing ones are added as they are handed out.
pub open spec fn got_or_added<T>(
    before: Entries<T>,
    key: Text,
    value: Ref<T>,
    after: Entries<T>,
) -> bool {
    match found(before, key) {
        Some(cached) => value == cached && after == before,
        None => after == before.push((key, value)),
    }
}

/// What `try_add` does to the entries: the options are added where nothing
/// was cached for the name, and only there.
pub open spec fn tried_add<T>(
    before: Entries<T>,
    key: Text,
    value: T,
    added: bool,
    after: Entries<T>,
) -> bool {
    &&& added == (found(before, key) is None)
    &&& after == if added {
        before.push((key, Ref::new(value)))
    } else {
        before
    }
}

/// What `try_remove` does to the entries: nothing is cached for the name
/// afterwards, and the answer says whether something was.
pub open spec fn tried_remove<T>(
    before: Entries<T>,
    key: Text,
    removed: bool,
    after: Entries<T>,
) -> bool {
    &&& removed == (found(before, key) is Some)
    &&& after == without(before, key)
}

/// Defines the behavior of an options monitor cache.
///
/// Names are told apart without regard to case, and no name is the same as
/// the empty name: at most one value is cached for a name.
pub trait OptionsMonitorCache<T: Value>: Send + Sync {
    /// The cached options with their keys.
    spec fn entries(&self) -> Entries<T>;

    /// Gets the options cached under the specified name, if any.
    fn try_get(&self, name: Option<&str>) -> (r: Option<Ref<T>>)
        ensures
            r == found(self.entries(), key_of(name_of(name))),
    ;

    /// Gets or adds options with the specified name.
    fn get_or_add<F: FnOnce(Option<&str>) -> T>(
        &mut self,
        name: Option<&str>,
        create_options: F,
    ) -> (r: Ref<T>)
        requires
            found(old(self).entries(), key_of(name_of(name))) is None ==> call_requires(
                create_options,
                (name,),
            ),
        ensures
            got_or_added(
                old(self).entries(),
                key_of(name_of(name)),
                r,
                final(self).entries(),
            ),
            found(old(self).entries(), key_of(name_of(name))) is None ==> call_ensures(
                create_options,
                (name,),
                *r,
            ),
            found(final(self).entries(), key_of(name_of(name))) == Some(r),
    ;

    /// Attempts to add options with the specified name.
    fn try_add(&mut self, name: Option<&str>, options: T) -> (r: bool)
        ensures
            tried_add(
                old(self).entries(),
                key_of(name_of(name)),
                options,
                r,
                final(self).entries(),
            ),
            found(final(self).entries(), key_of(name_of(name))) is Some,
    ;

    /// Attempts to remove options with the specified name.
    fn try_remove(&mut self, name: Option<&str>) -> (r: bool)
        ensures
            tried_remove(
                old(self).entries(),
                key_of(name_of(name)),
                r,
                final(self).entries(),
            ),
            found(final(self).entries(), key_of(name_of(name))) is None,
    ;

    /// Clears all options from the cache.
    fn clear(&mut self)
        ensures
            final(self).entries() == Entries::<T>::empty(),
    ;
}

/// The key of a name, as a string slice.
pub fn key(name: Option<&str>) -> (r: &str)
    ensures
        r@ == key_of(name_of(name)),
{
    match name {
        Some(n) => n,
        None => {
            proof {
                reveal_strlit("");
            }
            ""
        },
    }
}

/// Where a key is found among the first entries, it is found among all of
/// them, and the same options with it.
pub proof fn lemma_found_among_the_first<T>(entries: Entries<T>, count: int, key: Text)
    requires
        0 <= count <= entries.len(),
        found(entries.take(count), key) is Some,
    ensures
        found(entries, key) == found(entries.take(count), key),
    decreases entries.len() - count,
{
    if count == entries.len() {
        assert(entries.take(count) == entries);
    } else {
        assert(entries.drop_last().take(count) == entries.take(count));
        lemma_found_among_the_first(entries.drop_last(), count, key);
    }
}

/// Represents a cache for configured options.
#[verifier::reject_recursive_types(T)]
pub struct OptionsCache<T> {
    cache: Vec<(String, Ref<T>)>,
}

impl<T: Value> OptionsCache<T> {
    /// Creates a cache without entries.
    pub fn new() -> (r: Self)
        ensures
            r.entries() == Entries::<T>::empty(),
    {
        let cache: Vec<(String, Ref<T>)> = Vec::new();
        proof {
            assert(cache@.map_values(|e: (String, Ref<T>)| (e.0@, e.1)) == Entries::<T>::empty());
        }
        Self { cache }
    }

    /// Finds the first entry whose key stands for the same name as `key`.
    fn position(&self, key: &str) -> (r: Option<usize>)
        ensures
            match r {
                Some(index) => index < self.cache@.len() && found(self.entries(), key@) == Some(
                    self.cache@[index as int].1,
                ),
                None => found(self.entries(), key@) is None,
            },
    {
        let ghost entries = self.entries();
        let mut i: usize = 0;
        while i < self.cache.len()
            invariant
                i <= self.cache.len(),
                entries == self.entries(),
                entries.len() == self.cache@.len(),
                found(entries.take(i as int), key@) is None,
            decreases self.cache.len() - i,
        {
            proof {
                let next = entries.take(i + 1);
                assert(next.drop_last() == entries.take(i as int));
                assert(next.last() == (self.cache@[i as int].0@, self.cache@[i as int].1));
            }
            if names_equal(Some(self.cache[i].0.as_str()), Some(key)) {
                proof {
                    lemma_found_among_the_first(entries, i + 1, key@);
                }
                return Some(i);
            }
            i += 1;
        }
        proof {
            assert(entries.take(i as int) == entries);
        }
        None
    }
}

impl<T: Value> Default for OptionsCache<T> {
    fn default() -> (r: Self)
        ensures
            r.entries() == Entries::<T>::empty(),
    {
        Self::new()
    }
}

impl<T: Value> OptionsMonitorCache<T> for OptionsCache<T> {
    closed spec fn entries(&self) -> Entries<T> {
        self.cache@.map_values(|e: (String, Ref<T>)| (e.0@, e.1))
    }

    fn try_get(&self, name: Option<&str>) -> (r: Option<Ref<T>>) {
        match self.position(key(name)) {
            Some(index) => Some(self.cache[index].1.clone()),
            None => None,
        }
    }

    fn get_or_add<F: FnOnce(Option<&str>) -> T>(
        &mut self,
        name: Option<&str>,
        create_options: F,
    ) -> (r: Ref<T>) {
        let key = key(name);
        match self.position(key) {
            Some(index) => self.cache[index].1.clone(),
            None => {
                let options = Ref::new(create_options(name));
                let ghost before = self.entries();
                self.cache.push((key.to_owned(), options.clone()));
                proof {
                    assert(self.entries() == before.push((key@, options)));
                    assert(self.entries().drop_last() == before);
                }
                options
            },
        }
    }

    fn try_add(&mut self, name: Option<&str>, options: T) -> (r: bool) {
        let key = key(name);
        match self.position(key) {
            Some(_) => false,
            None => {
                let ghost before = self.entries();
                self.cache.push((key.to_owned(), Ref::new(options)));
                proof {
                    assert(self.entries() == before.push((key@, Ref::new(options))));
                    assert(self.entries().drop_last() == before);
                }
                true
            },
        }
    }

    fn try_remove(&mut self, name: Option<&str>) -> (r: bool) {
        let key = key(name);
        let ghost entries = self.entries();
        let mut kept: Vec<(String, Ref<T>)> = Vec::new();
        let mut removed = false;
        let mut i: usize = 0;
        while i < self.cache.len()
            invariant
                i <= self.cache.len(),
                entries == self.entries(),
                entries.len() == self.cache@.len(),
                removed == (found(entries.take(i as int), key@) is Some),
                kept@.map_values(|e: (String, Ref<T>)| (e.0@, e.1)) == without(
                    entries.take(i as int),
                    key@,
                ),
            decreases self.cache.len() - i,
        {
            proof {
                let next = entries.take(i + 1);
                assert(next.drop_last() == entries.take(i as int));
                assert(next.last() == (self.cache@[i as int].0@, self.cache@[i as int].1));
            }
            if names_equal(Some(self.cache[i].0.as_str()), Some(key)) {
                removed = true;
            } else {
                let ghost earlier = kept@.map_values(|e: (String, Ref<T>)| (e.0@, e.1));
                kept.push((self.cache[i].0.clone(), self.cache[i].1.clone()));
                proof {
                    assert(kept@.map_values(|e: (String, Ref<T>)| (e.0@, e.1)) == earlier.push(
                        (self.cache@[i as int].0@, self.cache@[i as int].1),
                    ));
                }
            }
            i += 1;
        }
        proof {
            assert(entries.take(i as int) == entries);
            lemma_nothing_is_found_without(entries, key@);
        }
        self.cache = kept;
        removed
    }

    fn clear(&mut self) {
        self.cache.clear();
        proof {
            assert(self.entries() == Entries::<T>::empty());
        }
    }
}

/// What was fetched, with a failure taken as a mathematical value.
pub open spec fn fetched<T>(result: Result<Ref<T>, ValidateOptionsResult>) -> Result<
    Ref<T>,
    ValidationOutcome,
> {
    match result {
        Ok(options) => Ok(options),
        Err(failure) => Err(failure@),
    }
}

/// What fetching the options of a name does: cached options are handed out
/// and nothing changes; missing ones are created by the factory and cached as
/// they are handed out; and where the factory fails, its failure is handed
/// out and nothing is cached.
pub open spec fn fetches<T: Value, F: OptionsFactory<T> + ?Sized>(
    factory: &F,
    before: Entries<T>,
    name: Option<Text>,
    result: Result<Ref<T>, ValidationOutcome>,
    after: Entries<T>,
) -> bool {
    match found(before, key_of(name)) {
        Some(cached) => result == Ok::<Ref<T>, ValidationOutcome>(cached) && after == before,
        None => match result {
            Ok(options) => factory.creates(name, Ok(*options)) && after == before.push(
                (key_of(name), options),
            ),
            Err(failure) => factory.creates(name, Err(failure)) && after == before,
        },
    }
}

/// Gets the options with the specified name from the cache, or has the
/// factory create them and adds them to the cache.
///
/// Where the factory fails, its failure is returned and nothing is cached:
/// whether it fails is known only once it was asked.
pub fn get_or_create<T: Value, C: OptionsMonitorCache<T>, F: OptionsFactory<T> + ?Sized>(
    cache: &mut C,
    factory: &F,
    name: Option<&str>,
) -> (r: Result<Ref<T>, ValidateOptionsResult>)
    ensures
        fetches(factory, old(cache).entries(), name_of(name), fetched(r), final(cache).entries()),
{
    match cache.try_get(name) {
        Some(options) => Ok(options),
        None => match factory.create(name) {
            Ok(options) => {
                let create = move |_name: Option<&str>| -> (made: T)
                    ensures
                        made == options,
                    { options };
                Ok(cache.get_or_add(name, create))
            },
            Err(failure) => Err(failure),
        },
    }
}

/// Every key stands for the same name as itself.
pub proof fn lemma_same_name_is_reflexive(key: Text)
    ensures
        same_name(key, key),
{
}

/// Standing for the same name does not depend on the order of the keys.
pub proof fn lemma_same_name_is_symmetric(key: Text, other: Text)
    ensures
        same_name(key, other) == same_name(other, key),
{
}

/// Nothing is found for a key once the entries of its name are taken out,
/// and the entries of other names stay, in their order.
pub proof fn lemma_nothing_is_found_without<T>(entries: Entries<T>, key: Text)
    ensures
        found(without(entries, key), key) is None,
        without(entries, key).len() <= entries.len(),
        forall|i: int|
            0 <= i < without(entries, key).len() ==> !same_name(
                (#[trigger] without(entries, key)[i]).0,
                key,
            ) && entries.contains(without(entries, key)[i]),
        forall|i: int|
            0 <= i < entries.len() && !same_name((#[trigger] entries[i]).0, key) ==> without(
                entries,
                key,
            ).contains(entries[i]),
    decreases entries.len(),
{
    if entries.len() > 0 {
        let rest = entries.drop_last();
        let last = entries.last();
        lemma_nothing_is_found_without(rest, key);
        let kept = without(entries, key);
        if !same_name(last.0, key) {
            assert(kept.drop_last() == without(rest, key));
        }
        assert forall|i: int| 0 <= i < kept.len() implies !same_name((#[trigger] kept[i]).0, key)
            && entries.contains(kept[i]) by {
            if i < without(rest, key).len() {
                let k = choose|k: int| 0 <= k < rest.len() && rest[k] == without(rest, key)[i];
                assert(entries[k] == kept[i]);
            } else {
                assert(entries[entries.len() - 1] == kept[i]);
            }
        }
        assert forall|i: int|
            0 <= i < entries.len() && !same_name((#[trigger] entries[i]).0, key) implies kept.contains(
            entries[i],
        ) by {
            if i < rest.len() {
                assert(rest[i] == entries[i]);
                let k = choose|k: int|
                    0 <= k < without(rest, key).len() && without(rest, key)[k] == rest[i];
                assert(kept[k] == entries[i]);
            } else {
                assert(kept[kept.len() - 1] == last);
            }
        }
    }
}

/// Asking twice for one name gives the same value both times, and the second
/// call leaves the cache as the first one left it, whatever would have been
/// created the second time.
pub proof fn lemma_get_or_add_is_idempotent<T>(
    before: Entries<T>,
    key: Text,
    first: Ref<T>,
    between: Entries<T>,
    second: Ref<T>,
    after: Entries<T>,
)
    requires
        got_or_added(before, key, first, between),
        got_or_added(between, key, second, after),
    ensures
        second == first,
        after == between,
        found(after, key) == Some(first),
{
    if found(before, key) is None {
        assert(between.drop_last() == before);
    }
}

/// Options that were added under a name are served under every key that
/// stands for the same name, unless other options were served under that
/// key before.
pub proof fn lemma_added_options_are_served_under_the_same_name<T>(
    before: Entries<T>,
    key: Text,
    value: Ref<T>,
    other: Text,
)
    requires
        found(before, key) is None,
        same_name(key, other),
    ensures
        found(before.push((key, value)), other) == if found(before, other) is Some {
            found(before, other)
        } else {
            Some(value)
        },
{
    assert(before.push((key, value)).drop_last() == before);
}

/// Once options were added under a name, adding under a key that stands for
/// the same name fails and changes nothing: the name keeps its one value.
pub proof fn lemma_try_add_fails_for_the_same_name<T>(
    before: Entries<T>,
    key: Text,
    value: T,
    between: Entries<T>,
    other: Text,
    again: T,
    added: bool,
    after: Entries<T>,
)
    requires
        tried_add(before, key, value, true, between),
        same_name(key, other),
        tried_add(between, other, again, added, after),
    ensures
        !added,
        after == between,
{
    assert(between.drop_last() == before);
}

/// The operations of the cache keep the names apart: where no two entries
/// stood for one name before, none do afterwards.
pub proof fn lemma_names_stay_apart<T>(before: Entries<T>, key: Text, value: Ref<T>)
    requires
        apart(before),
    ensures
        found(before, key) is None ==> apart(before.push((key, value))),
        apart(without(before, key)),
{
    lemma_nothing_is_found_without(before, key);
    lemma_without_keeps_the_order(before, key);
    if found(before, key) is None {
        lemma_nothing_found_means_no_entry_matches(before, key);
        let after = before.push((key, value));
        assert forall|i: int, j: int| 0 <= i < j < after.len() implies !same_name(
            (#[trigger] after[i]).0,
            (#[trigger] after[j]).0,
        ) by {
            if j < before.len() {
                assert(after[i] == before[i] && after[j] == before[j]);
            } else {
                assert(after[i] == before[i]);
            }
        }
    }
}

/// Where nothing is found for a key, no entry stands for its name; and where
/// something is found, it is the value of an entry that does.
pub proof fn lemma_nothing_found_means_no_entry_matches<T>(entries: Entries<T>, key: Text)
    ensures
        found(entries, key) is None ==> forall|i: int|
            0 <= i < entries.len() ==> !same_name((#[trigger] entries[i]).0, key),
        found(entries, key) is Some ==> exists|i: int|
            0 <= i < entries.len() && same_name((#[trigger] entries[i]).0, key) && found(
                entries,
                key,
            ) == Some(entries[i].1),
    decreases entries.len(),
{
    if entries.len() > 0 {
        let rest = entries.drop_last();
        lemma_nothing_found_means_no_entry_matches(rest, key);
        if found(rest, key) is Some {
            let i = choose|i: int|
                0 <= i < rest.len() && same_name((#[trigger] rest[i]).0, key) && found(rest, key)
                    == Some(rest[i].1);
            assert(entries[i] == rest[i]);
        } else if same_name(entries.last().0, key) {
            assert(entries[entries.len() - 1] == entries.last());
        } else {
            assert forall|i: int| 0 <= i < entries.len() implies !same_name(
                (#[trigger] entries[i]).0,
                key,
            ) by {
                if i < rest.len() {
                    assert(entries[i] == rest[i]);
                }
            }
        }
    }
}

/// Taking the entries of a name out keeps the other names apart.
pub proof fn lemma_without_keeps_the_order<T>(entries: Entries<T>, key: Text)
    ensures
        apart(entries) ==> apart(without(entries, key)),
    decreases entries.len(),
{
    if entries.len() > 0 && apart(entries) {
        let rest = entries.drop_last();
        let last = entries.last();
        assert(apart(rest)) by {
            assert forall|i: int, j: int| 0 <= i < j < rest.len() implies !same_name(
                (#[trigger] rest[i]).0,
                (#[trigger] rest[j]).0,
            ) by {
                assert(rest[i] == entries[i] && rest[j] == entries[j]);
            }
        }
        lemma_without_keeps_the_order(rest, key);
        lemma_nothing_is_found_without(rest, key);
        let kept = without(entries, key);
        if !same_name(last.0, key) {
            assert forall|i: int, j: int| 0 <= i < j < kept.len() implies !same_name(
                (#[trigger] kept[i]).0,
                (#[trigger] kept[j]).0,
            ) by {
                if j < without(rest, key).len() {
                    assert(kept[i] == without(rest, key)[i] && kept[j] == without(rest, key)[j]);
                } else {
                    assert(kept[i] == without(rest, key)[i]);
                    let k = choose|k: int| 0 <= k < rest.len() && rest[k] == without(rest, key)[i];
                    assert(entries[k] == rest[k]);
                    assert(entries[entries.len() - 1] == last);
                }
            }
        }
    }
}

/// Once the entry of a name is removed, the next value asked for under that
/// name is the one that is then created, not the one that was cached.
pub proof fn lemma_removed_entry_is_created_anew<T>(
    before: Entries<T>,
    key: Text,
    removed: bool,
    between: Entries<T>,
    value: Ref<T>,
    after: Entries<T>,
)
    requires
        tried_remove(before, key, removed, between),
        got_or_added(between, key, value, after),
    ensures
        found(between, key) is None,
        after == between.push((key, value)),
        found(after, key) == Some(value),
{
    lemma_nothing_is_found_without(before, key);
    assert(after.drop_last() == between);
}

/// Adding under a name that was just added fails and changes nothing, and
/// removing it afterwards succeeds exactly once.
pub proof fn lemma_try_add_then_try_remove<T>(
    before: Entries<T>,
    key: Text,
    value: T,
    added: bool,
    between: Entries<T>,
    again: T,
    added_again: bool,
    then: Entries<T>,
    removed: bool,
    after: Entries<T>,
    removed_again: bool,
    at_last: Entries<T>,
)
    requires
        tried_add(before, key, value, added, between),
        tried_add(between, key, again, added_again, then),
        tried_remove(then, key, removed, after),
        tried_remove(after, key, removed_again, at_last),
    ensures
        found(between, key) is Some,
        added ==> found(between, key) == Some(Ref::new(value)),
        !added ==> found(between, key) == found(before, key),
        !added_again,
        then == between,
        removed,
        found(after, key) is None,
        !removed_again,
        at_last == after,
{
    if added {
        assert(between.drop_last() == before);
    }
    lemma_nothing_is_found_without(then, key);
    lemma_nothing_found_means_no_entry_matches(after, key);
    lemma_without_of_unmatched(after, key);
}

/// Taking the entries of a name out changes nothing where none stands for it.
pub proof fn lemma_without_of_unmatched<T>(entries: Entries<T>, key: Text)
    requires
        found(entries, key) is None,
    ensures
        without(entries, key) == entries,
    decreases entries.len(),
{
    if entries.len() > 0 {
        lemma_without_of_unmatched(entries.drop_last(), key);
        assert(entries.drop_last().push(entries.last()) == entries);
    }
}

} // verus!
