//! In-memory key-value store backed by a sharded concurrent hash map
//! (`DashMap`), with exact, prefix, suffix and regex key lookup.

use std::sync::Arc;

use dashmap::DashMap;
use vstd::prelude::*;

use crate::pattern::{KeyPattern, compile_key_pattern, key_pattern_matches, regex_compiles, regex_is_match};
use crate::text::{ends_with, starts_with};

verus! {

// ---------------------------------------------------------------------------
// The outside collection and its trusted interface
// ---------------------------------------------------------------------------

#[verifier::external_type_specification]
#[verifier::external_body]
#[verifier::reject_recursive_types(K)]
#[verifier::reject_recursive_types(V)]
#[verifier::reject_recursive_types(S)]
pub struct ExDashMap<K, V, S>(DashMap<K, V, S>);

/// What a `DashMap` of string keys and values holds, as a map of texts.
pub uninterp spec fn store_contents(m: DashMap<Arc<str>, Arc<str>>) -> Map<Seq<char>, Seq<char>>;

/// `DashMap::new`: an empty map.
#[verifier::external_body]
fn store_new() -> (m: DashMap<Arc<str>, Arc<str>>)
    ensures
        store_contents(m) == empty_store(),
{
    DashMap::new()
}

/// `DashMap::with_capacity`: an empty map with room for `capacity` entries.
#[verifier::external_body]
fn store_with_capacity(capacity: usize) -> (m: DashMap<Arc<str>, Arc<str>>)
    ensures
        store_contents(m) == empty_store(),
{
    DashMap::with_capacity(capacity)
}

/// `DashMap::insert`: binds `key` to `value`, replacing an earlier binding.
#[verifier::external_body]
fn store_insert(m: &mut DashMap<Arc<str>, Arc<str>>, key: &str, value: &str)
    ensures
        store_contents(*final(m)) == store_contents(*old(m)).insert(key@, value@),
{
    m.insert(Arc::from(key), Arc::from(value));
}

/// `DashMap::remove`: unbinds `key` and hands back the removed entry.
#[verifier::external_body]
fn store_remove(m: &mut DashMap<Arc<str>, Arc<str>>, key: &str) -> (r: Option<(String, String)>)
    ensures
        store_contents(*final(m)) == store_contents(*old(m)).remove(key@),
        r is Some <==> store_contents(*old(m)).contains_key(key@),
        r matches Some((k, v)) ==> k@ == key@ && v@ == store_contents(*old(m))[key@],
{
    m.remove(key).map(|(k, v)| (k.to_string(), v.to_string()))
}

/// `DashMap::get`: the entry bound to `key`, if any.
#[verifier::external_body]
fn store_get(m: &DashMap<Arc<str>, Arc<str>>, key: &str) -> (r: Option<(String, String)>)
    ensures
        r is Some <==> store_contents(*m).contains_key(key@),
        r matches Some((k, v)) ==> k@ == key@ && v@ == store_contents(*m)[key@],
{
    m.get(key).map(|e| (e.key().to_string(), e.value().to_string()))
}

/// `DashMap::len`: the number of entries, of which there are finitely many.
#[verifier::external_body]
fn store_len(m: &DashMap<Arc<str>, Arc<str>>) -> (n: usize)
    ensures
        counts_bindings(store_contents(*m), n),
{
    m.len()
}

/// `DashMap::iter`, collected: every entry once, in an order that the
/// map's randomly seeded hasher decides.
#[verifier::external_body]
fn store_entries(m: &DashMap<Arc<str>, Arc<str>>) -> (r: Vec<(String, String)>)
    ensures
        lists_exactly(r@, store_contents(*m)),
{
    m.iter().map(|e| (e.key().to_string(), e.value().to_string())).collect()
}

// ---------------------------------------------------------------------------
// Specification
// ---------------------------------------------------------------------------

/// `m` holds finitely many bindings, `n` of them.
pub open spec fn counts_bindings(m: Map<Seq<char>, Seq<char>>, n: usize) -> bool {
    m.dom().finite() && n == m.len()
}

/// The store with no binding.
pub open spec fn empty_store() -> Map<Seq<char>, Seq<char>> {
    Map::empty()
}

/// `entries` lists every binding of `m` exactly once.
pub open spec fn lists_exactly(entries: Seq<(String, String)>, m: Map<Seq<char>, Seq<char>>) -> bool {
    &&& entries.len() == m.len()
    &&& forall|i: int|
        0 <= i < entries.len() ==> m.contains_key(#[trigger] entries[i].0@) && m[entries[i].0@]
            == entries[i].1@
    &&& forall|i: int, j: int|
        0 <= i < j < entries.len() ==> #[trigger] entries[i].0@ != #[trigger] entries[j].0@
    &&& forall|k: Seq<char>|
        #[trigger] m.contains_key(k) ==> exists|i: int| 0 <= i < entries.len() && entries[i].0@ == k
}

/// How a lookup pattern is compared with the keys.
#[derive(Clone, Copy, Debug, PartialEq, Eq, Structural)]
pub enum MatchType {
    /// The key equals the pattern.
    Exact,
    /// The key starts with the pattern.
    Prefix,
    /// The key ends with the pattern.
    Suffix,
    /// The pattern is a regular expression that matches somewhere in the key.
    Regex,
}

/// Whether `key` is selected by `pattern` under `match_type`.
pub open spec fn key_matches(pattern: Seq<char>, match_type: MatchType, key: Seq<char>) -> bool {
    match match_type {
        MatchType::Exact => key == pattern,
        MatchType::Prefix => pattern.is_prefix_of(key),
        MatchType::Suffix => pattern.is_suffix_of(key),
        MatchType::Regex => regex_compiles(pattern) && regex_is_match(pattern, key),
    }
}

/// Some key of `m` is selected by `pattern` under `match_type`.
pub open spec fn some_key_matches(
    m: Map<Seq<char>, Seq<char>>,
    pattern: Seq<char>,
    match_type: MatchType,
) -> bool {
    exists|k: Seq<char>| #[trigger] m.contains_key(k) && key_matches(pattern, match_type, k)
}

/// The map built by inserting `pairs` in order; a later pair with the
/// same key wins.
pub open spec fn map_of_pairs(pairs: Seq<(String, String)>) -> Map<Seq<char>, Seq<char>>
    decreases pairs.len(),
{
    if pairs.len() == 0 {
        Map::empty()
    } else {
        map_of_pairs(pairs.drop_last()).insert(pairs.last().0@, pairs.last().1@)
    }
}

// ---------------------------------------------------------------------------
// InMemoryKvBackend
// ---------------------------------------------------------------------------

/// In-memory key-value store over a sharded concurrent hash map.
pub struct InMemoryKvBackend {
    data: DashMap<Arc<str>, Arc<str>>,
}

impl View for InMemoryKvBackend {
    type V = Map<Seq<char>, Seq<char>>;

    closed spec fn view(&self) -> Map<Seq<char>, Seq<char>> {
        store_contents(self.data)
    }
}

impl InMemoryKvBackend {
    /// Create an empty store.
    pub fn new() -> (s: Self)
        ensures
            s@ == empty_store(),
    {
        InMemoryKvBackend { data: store_new() }
    }

    /// Create a store pre-populated from key-value pairs; a later pair with
    /// the same key overrides an earlier one.
    pub fn from_pairs(pairs: Vec<(String, String)>) -> (s: Self)
        ensures
            s@ == map_of_pairs(pairs@),
    {
        let mut data = store_with_capacity(pairs.len());
        let mut i: usize = 0;
        while i < pairs.len()
            invariant
                i <= pairs@.len(),
                store_contents(data) == map_of_pairs(pairs@.take(i as int)),
            decreases pairs@.len() - i,
        {
            let (k, v) = &pairs[i];
            store_insert(&mut data, k.as_str(), v.as_str());
            assert(pairs@.take(i + 1).drop_last() =~= pairs@.take(i as int));
            i = i + 1;
        }
        assert(pairs@.take(pairs@.len() as int) =~= pairs@);
        InMemoryKvBackend { data }
    }

    /// The value bound to `key`, if any.
    pub fn get(&self, key: &str) -> (r: Option<String>)
        ensures
            r is Some <==> self@.contains_key(key@),
            r matches Some(v) ==> v@ == self@[key@],
    {
        match store_get(&self.data, key) {
            Some((_, v)) => Some(v),
            None => None,
        }
    }

    /// Bind `key` to `value`, replacing any earlier value.
    pub fn set(&mut self, key: &str, value: &str)
        ensures
            final(self)@ == old(self)@.insert(key@, value@),
    {
        store_insert(&mut self.data, key, value);
    }

    /// Remove `key`; answers whether it was present.
    pub fn delete(&mut self, key: &str) -> (removed: bool)
        ensures
            removed == old(self)@.contains_key(key@),
            final(self)@ == old(self)@.remove(key@),
    {
        store_remove(&mut self.data, key).is_some()
    }

    /// Every key-value pair, each once, in no particular order.
    pub fn entries(&self) -> (r: Vec<(String, String)>)
        ensures
            lists_exactly(r@, self@),
    {
        store_entries(&self.data)
    }

    /// Find one entry whose key is selected by `pattern` under
    /// `match_type`. An invalid regular expression finds nothing.
    pub fn lookup(&self, pattern: &str, match_type: MatchType) -> (r: Option<(String, String)>)
        ensures
            r is Some <==> some_key_matches(self@, pattern@, match_type),
            r matches Some((k, v)) ==> self@.contains_key(k@) && key_matches(
                pattern@,
                match_type,
                k@,
            ) && v@ == self@[k@],
    {
        match match_type {
            MatchType::Exact => {
                let r = store_get(&self.data, pattern);
                proof {
                    if !(r is Some) {
                        assert forall|k: Seq<char>| #[trigger]
                            self@.contains_key(k) implies !key_matches(pattern@, match_type, k) by {}
                    }
                }
                r
            },
            MatchType::Prefix | MatchType::Suffix => {
                let entries = store_entries(&self.data);
                self.find_entry(&entries, pattern, match_type, None)
            },
            MatchType::Regex => {
                match compile_key_pattern(pattern) {
                    Some(p) => {
                        let entries = store_entries(&self.data);
                        self.find_entry(&entries, pattern, match_type, Some(&p))
                    },
                    None => {
                        proof {
                            assert forall|k: Seq<char>| #[trigger]
                                self@.contains_key(k) implies !key_matches(pattern@, match_type, k) by {}
                        }
                        None
                    },
                }
            },
        }
    }

    /// The first listed entry whose key is selected by `pattern`.
    fn find_entry(
        &self,
        entries: &Vec<(String, String)>,
        pattern: &str,
        match_type: MatchType,
        compiled: Option<&KeyPattern>,
    ) -> (r: Option<(String, String)>)
        requires
            match_type != MatchType::Exact,
            lists_exactly(entries@, self@),
            match_type == MatchType::Regex ==> (compiled matches Some(p) && p.source() == pattern@
                && regex_compiles(pattern@)),
        ensures
            r is Some <==> some_key_matches(self@, pattern@, match_type),
            r matches Some((k, v)) ==> self@.contains_key(k@) && key_matches(
                pattern@,
                match_type,
                k@,
            ) && v@ == self@[k@],
    {
        let mut i: usize = 0;
        while i < entries.len()
            invariant
                match_type != MatchType::Exact,
                lists_exactly(entries@, self@),
                match_type == MatchType::Regex ==> (compiled matches Some(p) && p.source()
                    == pattern@ && regex_compiles(pattern@)),
                i <= entries@.len(),
                forall|j: int| 0 <= j < i ==> !key_matches(pattern@, match_type, #[trigger] entries@[j].0@),
            decreases entries@.len() - i,
        {
            let (k, v) = &entries[i];
            let hit = match match_type {
                MatchType::Prefix => starts_with(k.as_str(), pattern),
                MatchType::Suffix => ends_with(k.as_str(), pattern),
                _ => match compiled {
                    Some(p) => key_pattern_matches(p, k.as_str()),
                    None => false,
                },
            };
            if hit {
                assert(self@.contains_key(entries@[i as int].0@));
                return Some((k.clone(), v.clone()));
            }
            i = i + 1;
        }
        proof {
            assert forall|k: Seq<char>| #[trigger]
                self@.contains_key(k) implies !key_matches(pattern@, match_type, k) by {
                let j = choose|j: int| 0 <= j < entries@.len() && entries@[j].0@ == k;
                assert(!key_matches(pattern@, match_type, entries@[j].0@));
            }
        }
        None
    }

    /// The number of entries.
    pub fn len(&self) -> (n: usize)
        ensures
            n == self@.len(),
            self@.dom().finite(),
    {
        store_len(&self.data)
    }

    /// Whether the store holds no entry.
    pub fn is_empty(&self) -> (b: bool)
        ensures
            b == (self@.len() == 0),
            self@.dom().finite(),
    {
        store_len(&self.data) == 0
    }
}

impl Default for InMemoryKvBackend {
    fn default() -> (s: Self)
        ensures
            s@ == empty_store(),
    {
        Self::new()
    }
}

// ---------------------------------------------------------------------------
// Laws
// ---------------------------------------------------------------------------

/// A read after a write gives back the written value (a later write to the
/// same key overwrites an earlier one), and the write leaves every other
/// key as it was.
pub proof fn get_after_set(store: Map<Seq<char>, Seq<char>>, key: Seq<char>, value: Seq<char>, other: Seq<char>)
    ensures
        store.insert(key, value).contains_key(key),
        store.insert(key, value)[key] == value,
        other != key ==> store.insert(key, value).contains_key(other) == store.contains_key(other),
        other != key && store.contains_key(other) ==> store.insert(key, value)[other] == store[other],
{
}

/// After a delete the key is absent, a second delete of it reports that
/// nothing was removed, and every other key is left as it was.
pub proof fn get_after_delete(store: Map<Seq<char>, Seq<char>>, key: Seq<char>, other: Seq<char>)
    ensures
        !store.remove(key).contains_key(key),
        store.remove(key).remove(key) == store.remove(key),
        other != key ==> store.remove(key).contains_key(other) == store.contains_key(other),
        other != key && store.contains_key(other) ==> store.remove(key)[other] == store[other],
{
    assert(store.remove(key).remove(key) =~= store.remove(key));
}

/// Writing a new key adds one entry; overwriting an existing key keeps the
/// count; deleting a present key removes one entry.
pub proof fn len_after_set_and_delete(store: Map<Seq<char>, Seq<char>>, key: Seq<char>, value: Seq<char>)
    requires
        store.dom().finite(),
    ensures
        !store.contains_key(key) ==> store.insert(key, value).len() == store.len() + 1,
        store.contains_key(key) ==> store.insert(key, value).len() == store.len(),
        store.contains_key(key) ==> store.remove(key).len() == store.len() - 1,
        !store.contains_key(key) ==> store.remove(key).len() == store.len(),
{
    if store.contains_key(key) {
        assert(store.insert(key, value).dom() =~= store.dom());
    } else {
        assert(store.remove(key).dom() =~= store.dom());
    }
}

/// An exact lookup finds an entry exactly when a read of the same key does.
pub proof fn exact_lookup_agrees_with_get(store: Map<Seq<char>, Seq<char>>, key: Seq<char>)
    ensures
        some_key_matches(store, key, MatchType::Exact) <==> store.contains_key(key),
{
    if store.contains_key(key) {
        assert(key_matches(key, MatchType::Exact, key));
    }
}

/// An invalid regular expression never finds an entry.
pub proof fn invalid_regex_finds_nothing(store: Map<Seq<char>, Seq<char>>, pattern: Seq<char>)
    requires
        !regex_compiles(pattern),
    ensures
        !some_key_matches(store, pattern, MatchType::Regex),
{
}

/// An empty store finds nothing under any match type.
pub proof fn empty_store_finds_nothing(pattern: Seq<char>, match_type: MatchType)
    ensures
        !some_key_matches(empty_store(), pattern, match_type),
{
}

/// A store built from pairs binds exactly the keys that occur in the pairs.
pub proof fn from_pairs_binds_their_keys(pairs: Seq<(String, String)>, k: Seq<char>)
    ensures
        map_of_pairs(pairs).dom().finite(),
        map_of_pairs(pairs).contains_key(k) <==> exists|i: int|
            0 <= i < pairs.len() && #[trigger] pairs[i].0@ == k,
    decreases pairs.len(),
{
    if pairs.len() > 0 {
        let init = pairs.drop_last();
        from_pairs_binds_their_keys(init, k);
        if map_of_pairs(pairs).contains_key(k) && pairs.last().0@ != k {
            let i = choose|i: int| 0 <= i < init.len() && #[trigger] init[i].0@ == k;
            assert(pairs[i].0@ == k);
        }
        if exists|i: int| 0 <= i < pairs.len() && #[trigger] pairs[i].0@ == k {
            let i = choose|i: int| 0 <= i < pairs.len() && #[trigger] pairs[i].0@ == k;
            if i < pairs.len() - 1 {
                assert(init[i].0@ == k);
            }
        }
    }
}

/// A key of a store built from pairs is bound to the value of the last
/// pair with that key.
pub proof fn from_pairs_last_value_wins(pairs: Seq<(String, String)>, i: int)
    requires
        0 <= i < pairs.len(),
        forall|j: int| i < j < pairs.len() ==> #[trigger] pairs[j].0@ != pairs[i].0@,
    ensures
        map_of_pairs(pairs).contains_key(pairs[i].0@),
        map_of_pairs(pairs)[pairs[i].0@] == pairs[i].1@,
    decreases pairs.len(),
{
    if i < pairs.len() - 1 {
        let init = pairs.drop_last();
        assert(pairs[pairs.len() - 1].0@ != pairs[i].0@);
        assert forall|j: int| i < j < init.len() implies #[trigger] init[j].0@ != init[i].0@ by {
            assert(init[j] == pairs[j]);
        }
        from_pairs_last_value_wins(init, i);
    }
}

} // verus!
