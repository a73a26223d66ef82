//! Managed state: one owned value for each type identity.
//!
//! Values are added while an instance is built. Ignition freezes the set:
//! what was a `Container` becomes a `Frozen`, which can only be read.

use vstd::prelude::*;

verus! {

/// An owned value of any type. The library keeps such a value and hands it
/// back; it never looks inside.
#[verifier::external_body]
pub struct Value(pub Box<dyn core::any::Any + Send + Sync>);

struct Entry {
    key: u64,
    value: Value,
}

spec fn entries_map(s: Seq<Entry>) -> Map<u64, Value>
    decreases s.len(),
{
    if s.len() == 0 {
        Map::empty()
    } else {
        entries_map(s.drop_last()).insert(s.last().key, s.last().value)
    }
}

spec fn distinct(s: Seq<Entry>) -> bool {
    forall|i: int, j: int| 0 <= i < j < s.len() ==> s[i].key != s[j].key
}

proof fn lemma_entries_map(s: Seq<Entry>)
    requires
        distinct(s),
    ensures
        forall|k: u64|
            entries_map(s).dom().contains(k) <==> exists|i: int|
                0 <= i < s.len() && #[trigger] s[i].key == k,
        forall|i: int| 0 <= i < s.len() ==> entries_map(s)[#[trigger] s[i].key] == s[i].value,
    decreases s.len(),
{
    if s.len() > 0 {
        let t = s.drop_last();
        lemma_entries_map(t);
        assert forall|k: u64|
            entries_map(s).dom().contains(k) <==> exists|i: int|
                0 <= i < s.len() && #[trigger] s[i].key == k by {
            if entries_map(t).dom().contains(k) {
                let i = choose|i: int| 0 <= i < t.len() && #[trigger] t[i].key == k;
                assert(s[i].key == k);
            }
            if exists|i: int| 0 <= i < s.len() && #[trigger] s[i].key == k {
                let i = choose|i: int| 0 <= i < s.len() && #[trigger] s[i].key == k;
                if i < t.len() {
                    assert(t[i].key == k);
                }
            }
        }
        assert forall|i: int| 0 <= i < s.len() implies entries_map(s)[#[trigger] s[i].key]
            == s[i].value by {
            if i < t.len() {
                assert(t[i].key == s[i].key);
            }
        }
    }
}

/// The managed values of an instance that is being built, by type identity.
pub struct Container {
    entries: Vec<Entry>,
}

/// The managed values of an ignited instance. Nothing can be added.
pub struct Frozen {
    values: Container,
}

impl View for Frozen {
    type V = Map<u64, Value>;

    closed spec fn view(&self) -> Map<u64, Value> {
        self.values@
    }
}

impl Frozen {
    /// Whether a value is managed for `key`.
    pub fn contains(&self, key: u64) -> (r: bool)
        ensures
            r == self@.dom().contains(key),
    {
        self.values.contains(key)
    }

    /// The value managed for `key`, if there is one.
    pub fn try_get(&self, key: u64) -> (r: Option<&Value>)
        ensures
            match r {
                Some(v) => self@.dom().contains(key) && *v == self@[key],
                None => !self@.dom().contains(key),
            },
    {
        self.values.try_get(key)
    }
}

impl View for Container {
    type V = Map<u64, Value>;

    closed spec fn view(&self) -> Map<u64, Value> {
        entries_map(self.entries@)
    }
}

impl Container {
    #[verifier::type_invariant]
    spec fn well_formed(&self) -> bool {
        distinct(self.entries@)
    }

    /// An empty set.
    pub fn new() -> (r: Container)
        ensures
            r@ == Map::<u64, Value>::empty(),
    {
        Container { entries: Vec::new() }
    }

    /// Whether a value is managed for `key`.
    pub fn contains(&self, key: u64) -> (r: bool)
        ensures
            r == self@.dom().contains(key),
    {
        self.try_get(key).is_some()
    }

    /// Adds `value` for `key`, unless the set holds a value for `key`
    /// already: then nothing changes and the result is `false`.
    pub fn set(&mut self, key: u64, value: Value) -> (added: bool)
        ensures
            added == !old(self)@.dom().contains(key),
            added ==> final(self)@ == old(self)@.insert(key, value),
            !added ==> final(self)@ == old(self)@,
    {
        if self.contains(key) {
            return false;
        }
        proof {
            use_type_invariant(&*self);
            lemma_entries_map(self.entries@);
            assert(self.entries@.push(Entry { key, value }).drop_last() == self.entries@);
        }
        let mut entries = Vec::new();
        core::mem::swap(&mut self.entries, &mut entries);
        entries.push(Entry { key, value });
        self.entries = entries;
        true
    }

    /// The value managed for `key`, if there is one.
    pub fn try_get(&self, key: u64) -> (r: Option<&Value>)
        ensures
            match r {
                Some(v) => self@.dom().contains(key) && *v == self@[key],
                None => !self@.dom().contains(key),
            },
    {
        let mut i: usize = 0;
        while i < self.entries.len()
            invariant
                i <= self.entries.len(),
                forall|k: int| 0 <= k < i ==> (#[trigger] self.entries@[k]).key != key,
            decreases self.entries.len() - i,
        {
            if self.entries[i].key == key {
                proof {
                    use_type_invariant(self);
                    lemma_entries_map(self.entries@);
                }
                return Some(&self.entries[i].value);
            }
            i = i + 1;
        }
        proof {
            use_type_invariant(self);
            lemma_entries_map(self.entries@);
        }
        None
    }

    /// Freezes the set. The values stay as they are.
    pub fn freeze(self) -> (r: Frozen)
        ensures
            r@ == self@,
    {
        Frozen { values: self }
    }
}

} // verus!
