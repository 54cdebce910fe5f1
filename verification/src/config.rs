//! The configuration mapping (option name to option value) and the state
//! snapshot the host hands to every widget at render time.

use vstd::prelude::*;
use vstd::string::*;
use crate::text::str_eq;

verus! {

/// A key/value mapping of option name to option value. Later entries for the
/// same key override earlier ones.
pub struct ConfigMap {
    pub entries: Vec<(String, String)>,
}

/// The value of the latest entry of `entries` whose key reads `key`.
pub open spec fn spec_lookup(entries: Seq<(String, String)>, key: Seq<char>) -> Option<Seq<char>>
    decreases entries.len(),
{
    if entries.len() == 0 {
        None
    } else if entries.last().0@ == key {
        Some(entries.last().1@)
    } else {
        spec_lookup(entries.drop_last(), key)
    }
}

/// The configured value for `key`, or `default` where none is set.
pub open spec fn spec_lookup_or(
    entries: Seq<(String, String)>,
    key: Seq<char>,
    default: Seq<char>,
) -> Seq<char> {
    match spec_lookup(entries, key) {
        Some(v) => v,
        None => default,
    }
}

impl ConfigMap {
    pub open spec fn view(&self) -> Seq<(String, String)> {
        self.entries@
    }

    /// An empty configuration: every option keeps its default.
    pub fn new() -> (r: Self)
        ensures
            r@ =~= Seq::<(String, String)>::empty(),
    {
        ConfigMap { entries: Vec::new() }
    }

    /// Sets `key` to `value`, overriding any earlier value for `key`.
    pub fn set(&mut self, key: String, value: String)
        ensures
            final(self)@ =~= old(self)@.push((key, value)),
    {
        self.entries.push((key, value));
    }

    /// The configured value for `key`, if any.
    pub fn get(&self, key: &str) -> (r: Option<&String>)
        ensures
            match r {
                Some(v) => spec_lookup(self@, key@) == Some(v@),
                None => spec_lookup(self@, key@) is None,
            },
    {
        let n = self.entries.len();
        let mut i: usize = n;
        proof {
            assert(self@.take(n as int) =~= self@);
        }
        while i > 0
            invariant
                n == self@.len(),
                0 <= i <= n,
                spec_lookup(self@, key@) == spec_lookup(self@.take(i as int), key@),
            decreases i,
        {
            i = i - 1;
            let entry = &self.entries[i];
            proof {
                assert(self@.take(i + 1).drop_last() =~= self@.take(i as int));
                assert(self@.take(i + 1).last() == self@[i as int]);
            }
            if str_eq(entry.0.as_str(), key) {
                return Some(&entry.1);
            }
        }
        proof {
            assert(self@.take(0) =~= Seq::<(String, String)>::empty());
        }
        None
    }

    /// The configured value for `key`, or a copy of `default` where none is
    /// set.
    pub fn get_or(&self, key: &str, default: &str) -> (r: String)
        ensures
            r@ == spec_lookup_or(self@, key@, default@),
    {
        match self.get(key) {
            Some(v) => v.clone(),
            None => String::from_str(default),
        }
    }
}

/// One tab descriptor of the state snapshot: a name and an active flag.
pub struct Tab {
    pub name: String,
    pub active: bool,
}

/// The read-only state snapshot supplied by the host for one render call.
pub struct ZellijState {
    pub tabs: Vec<Tab>,
}

} // verus!
