use praxis::kv::{InMemoryKvBackend, MatchType};

#[test]
fn get_returns_none_for_missing_key() {
    let store = InMemoryKvBackend::new();
    assert!(store.get("missing").is_none(), "missing key should return None");
}

#[test]
fn set_then_get_returns_value() {
    let mut store = InMemoryKvBackend::new();
    store.set("key", "value");
    assert_eq!(
        store.get("key").as_deref(),
        Some("value"),
        "set value should be retrievable"
    );
}

#[test]
fn set_overwrites_existing() {
    let mut store = InMemoryKvBackend::new();
    store.set("key", "v1");
    store.set("key", "v2");
    assert_eq!(store.get("key").as_deref(), Some("v2"), "second set should overwrite");
}

#[test]
fn delete_existing_returns_true() {
    let mut store = InMemoryKvBackend::new();
    store.set("key", "val");
    assert!(store.delete("key"), "deleting existing key should return true");
    assert!(store.get("key").is_none(), "deleted key should be gone");
}

#[test]
fn delete_missing_returns_false() {
    let mut store = InMemoryKvBackend::new();
    assert!(!store.delete("missing"), "deleting missing key should return false");
}

#[test]
fn len_and_is_empty() {
    let mut store = InMemoryKvBackend::new();
    assert!(store.is_empty(), "new store should be empty");
    assert_eq!(store.len(), 0, "new store length should be 0");

    store.set("a", "1");
    assert_eq!(store.len(), 1, "store should have 1 entry");
    assert!(!store.is_empty(), "store with entries should not be empty");
}

#[test]
fn entries_returns_all_pairs() {
    let mut store = InMemoryKvBackend::new();
    store.set("a", "1");
    store.set("b", "2");

    let mut entries = store.entries();
    entries.sort_by(|a, b| a.0.cmp(&b.0));
    assert_eq!(entries.len(), 2, "should have 2 entries");
    assert_eq!(entries[0].0.as_str(), "a");
    assert_eq!(entries[0].1.as_str(), "1");
    assert_eq!(entries[1].0.as_str(), "b");
    assert_eq!(entries[1].1.as_str(), "2");
}

#[test]
fn from_pairs_populates_store() {
    let store = InMemoryKvBackend::from_pairs(vec![
        ("x".to_owned(), "10".to_owned()),
        ("y".to_owned(), "20".to_owned()),
    ]);
    assert_eq!(store.len(), 2, "from_pairs should populate 2 entries");
    assert_eq!(store.get("x").as_deref(), Some("10"));
    assert_eq!(store.get("y").as_deref(), Some("20"));
}

#[test]
fn lookup_exact() {
    let mut store = InMemoryKvBackend::new();
    store.set("route.api", "cluster_a");

    let result = store.lookup("route.api", MatchType::Exact);
    assert_eq!(
        result.as_ref().map(|(_, v)| v.as_str()),
        Some("cluster_a"),
        "exact lookup should find the key"
    );

    assert!(
        store.lookup("route.ap", MatchType::Exact).is_none(),
        "partial key should not match exact"
    );
}

#[test]
fn lookup_prefix() {
    let mut store = InMemoryKvBackend::new();
    store.set("route.api.users", "users_cluster");
    store.set("route.web.home", "web_cluster");

    let result = store.lookup("route.api", MatchType::Prefix);
    assert!(result.is_some(), "prefix lookup should find matching key");
    assert_eq!(result.unwrap().1.as_str(), "users_cluster");
}

#[test]
fn lookup_suffix() {
    let mut store = InMemoryKvBackend::new();
    store.set("us-east.backend", "east");
    store.set("us-west.frontend", "west");

    let result = store.lookup(".backend", MatchType::Suffix);
    assert!(result.is_some(), "suffix lookup should find matching key");
    assert_eq!(result.unwrap().1.as_str(), "east");
}

#[test]
fn lookup_regex() {
    let mut store = InMemoryKvBackend::new();
    store.set("model-gpt4", "openai");
    store.set("model-mistral", "mistralai");

    let result = store.lookup("model-gpt\\d", MatchType::Regex);
    assert!(result.is_some(), "regex lookup should find matching key");
    assert_eq!(result.unwrap().1.as_str(), "openai");
}

#[test]
fn lookup_regex_invalid_pattern_returns_none() {
    let mut store = InMemoryKvBackend::new();
    store.set("key", "val");
    assert!(
        store.lookup("[invalid", MatchType::Regex).is_none(),
        "invalid regex should return None"
    );
}

#[test]
fn lookup_no_match_returns_none() {
    let mut store = InMemoryKvBackend::new();
    store.set("key", "val");
    assert!(store.lookup("other", MatchType::Prefix).is_none());
    assert!(store.lookup("other", MatchType::Suffix).is_none());
    assert!(store.lookup("other", MatchType::Regex).is_none());
}

#[test]
fn default_creates_empty_store() {
    let store = InMemoryKvBackend::default();
    assert!(store.is_empty(), "default store should be empty");
}

#[test]
fn empty_string_key_and_value() {
    let mut store = InMemoryKvBackend::new();
    store.set("", "");
    assert_eq!(store.get("").as_deref(), Some(""), "empty key/value should work");
    assert_eq!(store.len(), 1, "empty key counts as an entry");
}

#[test]
fn unicode_keys_and_values() {
    let mut store = InMemoryKvBackend::new();
    store.set("\u{6a21}\u{578b}", "\u{30af}\u{30e9}\u{30b9}\u{30bf}");
    assert_eq!(
        store.get("\u{6a21}\u{578b}").as_deref(),
        Some("\u{30af}\u{30e9}\u{30b9}\u{30bf}"),
        "unicode should roundtrip"
    );
}

#[test]
fn lookup_exact_returns_none_on_empty_store() {
    let store = InMemoryKvBackend::new();
    assert!(store.lookup("any", MatchType::Exact).is_none());
    assert!(store.lookup("any", MatchType::Prefix).is_none());
    assert!(store.lookup("any", MatchType::Suffix).is_none());
    assert!(store.lookup("any", MatchType::Regex).is_none());
}

#[test]
fn lookup_prefix_does_not_match_substring() {
    let mut store = InMemoryKvBackend::new();
    store.set("api.users", "v1");
    assert!(
        store.lookup("users", MatchType::Prefix).is_none(),
        "prefix should match start, not substring"
    );
}

#[test]
fn lookup_suffix_does_not_match_substring() {
    let mut store = InMemoryKvBackend::new();
    store.set("api.users.list", "v1");
    assert!(
        store.lookup("users", MatchType::Suffix).is_none(),
        "suffix should match end, not substring"
    );
}

#[test]
fn lookup_regex_anchored() {
    let mut store = InMemoryKvBackend::new();
    store.set("model-gpt4", "openai");
    let result = store.lookup("^model-", MatchType::Regex);
    assert!(result.is_some(), "anchored regex should match");
}

#[test]
fn delete_then_lookup_returns_none() {
    let mut store = InMemoryKvBackend::new();
    store.set("temp", "val");
    store.delete("temp");
    assert!(
        store.lookup("temp", MatchType::Exact).is_none(),
        "deleted key should not match"
    );
}

#[test]
fn from_pairs_empty_vec() {
    let store = InMemoryKvBackend::from_pairs(vec![]);
    assert!(store.is_empty(), "from_pairs with empty vec should be empty");
}

#[test]
fn from_pairs_later_pair_wins() {
    let store = InMemoryKvBackend::from_pairs(vec![
        ("k".to_owned(), "first".to_owned()),
        ("k".to_owned(), "second".to_owned()),
    ]);
    assert_eq!(store.len(), 1);
    assert_eq!(store.get("k").as_deref(), Some("second"));
}

#[test]
fn lookup_returns_the_stored_key() {
    let mut store = InMemoryKvBackend::new();
    store.set("alpha.beta", "1");
    assert_eq!(
        store.lookup("alpha", MatchType::Prefix),
        Some(("alpha.beta".to_owned(), "1".to_owned()))
    );
    assert_eq!(
        store.lookup("beta", MatchType::Suffix),
        Some(("alpha.beta".to_owned(), "1".to_owned()))
    );
    assert_eq!(
        store.lookup("a\\.b", MatchType::Regex),
        Some(("alpha.beta".to_owned(), "1".to_owned()))
    );
}

#[test]
fn delete_twice_reports_absence_and_len_tracks() {
    let mut store = InMemoryKvBackend::new();
    store.set("a", "1");
    store.set("b", "2");
    store.set("a", "3");
    assert_eq!(store.len(), 2);
    assert!(store.delete("a"));
    assert!(!store.delete("a"));
    assert_eq!(store.len(), 1);
    assert_eq!(store.get("b").as_deref(), Some("2"));
}
