//! A YAML document tree, with the lookups that filter configurations use:
//! a string key of a mapping, a sequence, a string, each seen through any
//! number of tags.

use vstd::prelude::*;

use crate::text::str_eq;

verus! {

/// A YAML value. Numbers are kept in their textual form; a mapping keeps
/// its entries in document order, each key once.
pub enum YamlValue {
    /// `null` or `~`.
    Null,
    /// `true` or `false`.
    Bool(bool),
    /// A number, in its textual form.
    Number(String),
    /// A string scalar.
    String(String),
    /// A sequence of values.
    Sequence(Vec<YamlValue>),
    /// A mapping from keys to values.
    Mapping(Vec<(YamlValue, YamlValue)>),
    /// A value with a tag (`!tag value`).
    Tagged(String, Box<YamlValue>),
}

/// The value under all its tags.
pub open spec fn untag(v: YamlValue) -> YamlValue
    decreases v,
{
    match v {
        YamlValue::Tagged(_, inner) => untag(*inner),
        _ => v,
    }
}

/// The value bound to the string key `key` among mapping entries.
pub open spec fn entry_for_key(entries: Seq<(YamlValue, YamlValue)>, key: Seq<char>) -> Option<YamlValue>
    decreases entries.len(),
{
    if entries.len() == 0 {
        None
    } else if entries[0].0 matches YamlValue::String(s) && s@ == key {
        Some(entries[0].1)
    } else {
        entry_for_key(entries.skip(1), key)
    }
}

/// `v[key]` when `v` is (a tagged) mapping holding the string key `key`.
pub open spec fn yaml_get(v: YamlValue, key: Seq<char>) -> Option<YamlValue> {
    match untag(v) {
        YamlValue::Mapping(entries) => entry_for_key(entries@, key),
        _ => None,
    }
}

/// The items of `v` when it is (a tagged) sequence.
pub open spec fn yaml_as_sequence(v: YamlValue) -> Option<Seq<YamlValue>> {
    match untag(v) {
        YamlValue::Sequence(items) => Some(items@),
        _ => None,
    }
}

/// The text of `v` when it is (a tagged) string.
pub open spec fn yaml_as_str(v: YamlValue) -> Option<Seq<char>> {
    match untag(v) {
        YamlValue::String(s) => Some(s@),
        _ => None,
    }
}

impl YamlValue {
    /// The value under all its tags.
    pub fn untag_ref(&self) -> (r: &YamlValue)
        ensures
            *r == untag(*self),
        decreases self,
    {
        match self {
            YamlValue::Tagged(_, inner) => inner.untag_ref(),
            _ => self,
        }
    }

    /// Index into a mapping by a string key. `None` if the value is not a
    /// mapping or holds no such key.
    pub fn get(&self, key: &str) -> (r: Option<&YamlValue>)
        ensures
            r is Some <==> yaml_get(*self, key@) is Some,
            r matches Some(v) ==> yaml_get(*self, key@) == Some(*v),
    {
        match self.untag_ref() {
            YamlValue::Mapping(entries) => {
                let mut i: usize = 0;
                assert(entries@.skip(0) =~= entries@);
                while i < entries.len()
                    invariant
                        i <= entries@.len(),
                        yaml_get(*self, key@) == entry_for_key(entries@, key@),
                        entry_for_key(entries@, key@) == entry_for_key(entries@.skip(i as int), key@),
                    decreases entries@.len() - i,
                {
                    assert(entries@.skip(i as int).skip(1) =~= entries@.skip(i + 1));
                    assert(entries@.skip(i as int)[0] == entries@[i as int]);
                    if let YamlValue::String(s) = &entries[i].0 {
                        if str_eq(s.as_str(), key) {
                            return Some(&entries[i].1);
                        }
                    }
                    i = i + 1;
                }
                None
            },
            _ => None,
        }
    }

    /// The items, when the value is a sequence.
    pub fn as_sequence(&self) -> (r: Option<&Vec<YamlValue>>)
        ensures
            r is Some <==> yaml_as_sequence(*self) is Some,
            r matches Some(items) ==> yaml_as_sequence(*self) == Some(items@),
    {
        match self.untag_ref() {
            YamlValue::Sequence(items) => Some(items),
            _ => None,
        }
    }

    /// The text, when the value is a string.
    pub fn as_str(&self) -> (r: Option<&str>)
        ensures
            r is Some <==> yaml_as_str(*self) is Some,
            r matches Some(s) ==> yaml_as_str(*self) == Some(s@),
    {
        match self.untag_ref() {
            YamlValue::String(s) => Some(s.as_str()),
            _ => None,
        }
    }
}

} // verus!
