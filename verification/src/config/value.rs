//! A plain representation of the YAML-shaped configuration fragments that
//! plugin and cluster builders consume. The front-end parses the raw
//! configuration file and hands these values to the library.

use vstd::prelude::*;

verus! {

/// A configuration value: the subset of YAML that the builders read.
/// Mappings keep their keys in document order.
pub enum ConfValue {
    Null,
    Bool(bool),
    Int(i64),
    Str(String),
    Sequence(Vec<ConfValue>),
    Mapping(Vec<(String, ConfValue)>),
}

impl ConfValue {
    /// The value bound to `key` in a mapping: the first binding wins.
    pub open spec fn spec_get(&self, key: Seq<char>) -> Option<ConfValue> {
        match self {
            ConfValue::Mapping(entries) => ConfValue::spec_lookup(entries@, key),
            _ => None,
        }
    }

    pub open spec fn spec_lookup(
        entries: Seq<(String, ConfValue)>,
        key: Seq<char>,
    ) -> Option<ConfValue>
        decreases entries.len(),
    {
        if entries.len() == 0 {
            None
        } else if entries[0].0@ == key {
            Some(entries[0].1)
        } else {
            ConfValue::spec_lookup(entries.skip(1), key)
        }
    }

    /// Look a key up in a mapping; `None` when `self` is not a mapping or
    /// the key is absent.
    pub fn get<'a>(&'a self, key: &str) -> (r: Option<&'a ConfValue>)
        ensures
            r is Some ==> self.spec_get(key@) == Some(*r.unwrap()),
            r is None ==> self.spec_get(key@) is None,
    {
        match self {
            ConfValue::Mapping(entries) => {
                let n: usize = entries.len();
                assert(entries@.skip(0) =~= entries@);
                for i in 0..n
                    invariant
                        n == entries@.len(),
                        self.spec_get(key@) == ConfValue::spec_lookup(entries@, key@),
                        ConfValue::spec_lookup(entries@, key@) == ConfValue::spec_lookup(
                            entries@.skip(i as int),
                            key@,
                        ),
                {
                    assert(entries@.skip(i as int)[0] == entries@[i as int]);
                    if crate::utils::str_eq(entries[i].0.as_str(), key) {
                        assert(ConfValue::spec_lookup(entries@.skip(i as int), key@) == Some(
                            entries@[i as int].1,
                        ));
                        let e: &ConfValue = &entries[i].1;
                        assert(self.spec_get(key@) == Some(*e));
                        return Some(e);
                    }
                    assert(entries@.skip(i as int).skip(1) =~= entries@.skip(i + 1));
                }
                assert(entries@.skip(n as int).len() == 0);
                None
            },
            _ => None,
        }
    }

    /// The string held by a `Str` value.
    pub fn as_str(&self) -> (r: Option<&String>)
        ensures
            r == (match self {
                ConfValue::Str(s) => Some(s),
                _ => None::<&String>,
            }),
    {
        match self {
            ConfValue::Str(s) => Some(s),
            _ => None,
        }
    }

    /// The integer held by an `Int` value.
    pub fn as_int(&self) -> (r: Option<i64>)
        ensures
            r == (match self {
                ConfValue::Int(n) => Some(*n),
                _ => None::<i64>,
            }),
    {
        match self {
            ConfValue::Int(n) => Some(*n),
            _ => None,
        }
    }

    /// The elements of a `Seq` value.
    pub fn as_seq(&self) -> (r: Option<&Vec<ConfValue>>)
        ensures
            r == (match self {
                ConfValue::Sequence(items) => Some(items),
                _ => None::<&Vec<ConfValue>>,
            }),
    {
        match self {
            ConfValue::Sequence(items) => Some(items),
            _ => None,
        }
    }

    /// The entries of a `Map` value.
    pub fn as_map(&self) -> (r: Option<&Vec<(String, ConfValue)>>)
        ensures
            r == (match self {
                ConfValue::Mapping(entries) => Some(entries),
                _ => None::<&Vec<(String, ConfValue)>>,
            }),
    {
        match self {
            ConfValue::Mapping(entries) => Some(entries),
            _ => None,
        }
    }
}

} // verus!
