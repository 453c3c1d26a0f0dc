//! The registry's entries: participant identities mapped to allocations,
//! with each identity present at most once.
use vstd::prelude::*;

verus! {

/// No identity occurs twice in `s`.
pub open spec fn keys_distinct(s: Seq<(String, u64)>) -> bool {
    forall|i: int, j: int| 0 <= i < j < s.len() ==> s[i].0@ != s[j].0@
}

/// The map that the entries of `s` describe, later entries taking precedence.
pub open spec fn entries_map(s: Seq<(String, u64)>) -> Map<Seq<char>, u64>
    decreases s.len(),
{
    if s.len() == 0 {
        Map::empty()
    } else {
        entries_map(s.drop_last()).insert(s.last().0@, s.last().1)
    }
}

/// The identities in the map are exactly those in `s`, and the map is finite.
pub proof fn lemma_entries_map_dom(s: Seq<(String, u64)>)
    ensures
        entries_map(s).dom().finite(),
        forall|k: Seq<char>|
            #![trigger entries_map(s).contains_key(k)]
            entries_map(s).contains_key(k) <==> exists|i: int| 0 <= i < s.len() && s[i].0@ == k,
    decreases s.len(),
{
    if s.len() > 0 {
        let t = s.drop_last();
        lemma_entries_map_dom(t);
        assert forall|k: Seq<char>| entries_map(s).contains_key(k) implies exists|i: int|
            0 <= i < s.len() && s[i].0@ == k by {
            if k != s.last().0@ {
                let i = choose|i: int| 0 <= i < t.len() && t[i].0@ == k;
                assert(s[i] == t[i]);
            }
        }
        assert forall|k: Seq<char>| (exists|i: int| 0 <= i < s.len() && s[i].0@ == k) implies
            entries_map(s).contains_key(k) by {
            let i = choose|i: int| 0 <= i < s.len() && s[i].0@ == k;
            if i < t.len() {
                assert(t[i] == s[i]);
            }
        }
    }
}

/// With distinct identities, each entry of `s` gives the map's value at its identity.
pub proof fn lemma_entries_map_value(s: Seq<(String, u64)>, i: int)
    requires
        keys_distinct(s),
        0 <= i < s.len(),
    ensures
        entries_map(s).contains_key(s[i].0@),
        entries_map(s)[s[i].0@] == s[i].1,
    decreases s.len(),
{
    if i < s.len() - 1 {
        let t = s.drop_last();
        assert(t[i] == s[i]);
        lemma_entries_map_value(t, i);
    }
}

/// With distinct identities, the map has one key per entry.
pub proof fn lemma_entries_map_len(s: Seq<(String, u64)>)
    requires
        keys_distinct(s),
    ensures
        entries_map(s).len() == s.len(),
    decreases s.len(),
{
    if s.len() > 0 {
        let t = s.drop_last();
        lemma_entries_map_len(t);
        lemma_entries_map_dom(t);
        if entries_map(t).contains_key(s.last().0@) {
            let i = choose|i: int| 0 <= i < t.len() && t[i].0@ == s.last().0@;
            assert(s[i] == t[i]);
        }
    }
}

/// Two entry sequences with distinct identities that hold the same entries
/// up to identity describe the same map.
proof fn lemma_entries_map_same(s: Seq<(String, u64)>, m: Map<Seq<char>, u64>)
    requires
        keys_distinct(s),
        forall|k: Seq<char>| #[trigger]
            m.contains_key(k) <==> exists|i: int| 0 <= i < s.len() && s[i].0@ == k,
        forall|i: int| 0 <= i < s.len() ==> #[trigger] m[s[i].0@] == s[i].1,
    ensures
        entries_map(s) == m,
{
    lemma_entries_map_dom(s);
    assert forall|k: Seq<char>| #[trigger] entries_map(s).contains_key(k) implies entries_map(s)[k]
        == m[k] by {
        let i = choose|i: int| 0 <= i < s.len() && s[i].0@ == k;
        lemma_entries_map_value(s, i);
    }
    assert(entries_map(s) =~= m);
}

/// An ordered map from participant identities to allocations.
#[derive(Debug)]
pub struct WhitelistMap {
    entries: Vec<(String, u64)>,
}

impl View for WhitelistMap {
    type V = Map<Seq<char>, u64>;

    closed spec fn view(&self) -> Map<Seq<char>, u64> {
        entries_map(self.entries@)
    }
}

impl WhitelistMap {
    #[verifier::type_invariant]
    spec fn inv(self) -> bool {
        keys_distinct(self.entries@)
    }

    /// An empty map.
    pub fn new() -> (r: Self)
        ensures
            r@ == Map::<Seq<char>, u64>::empty(),
    {
        WhitelistMap { entries: Vec::new() }
    }

    /// The index of `key`'s entry, if it has one.
    fn find(&self, key: &String) -> (r: Option<usize>)
        ensures
            match r {
                Some(i) => i < self.entries@.len() && self.entries@[i as int].0@ == key@,
                None => !self@.contains_key(key@),
            },
    {
        proof {
            use_type_invariant(self);
            lemma_entries_map_dom(self.entries@);
        }
        let mut i: usize = 0;
        while i < self.entries.len()
            invariant
                0 <= i <= self.entries@.len(),
                forall|j: int| 0 <= j < i ==> self.entries@[j].0@ != key@,
            decreases self.entries@.len() - i,
        {
            if self.entries[i].0 == *key {
                return Some(i);
            }
            i = i + 1;
        }
        None
    }

    /// The number of entries.
    pub fn len(&self) -> (r: usize)
        ensures
            r == self@.len(),
    {
        proof {
            use_type_invariant(self);
            lemma_entries_map_len(self.entries@);
        }
        self.entries.len()
    }

    /// Whether `key` has an entry.
    pub fn contains_key(&self, key: &String) -> (r: bool)
        ensures
            r == self@.contains_key(key@),
    {
        proof {
            use_type_invariant(self);
        }
        match self.find(key) {
            Some(i) => {
                proof {
                    lemma_entries_map_value(self.entries@, i as int);
                }
                true
            },
            None => false,
        }
    }

    /// The allocation of `key`, if it has an entry.
    pub fn get(&self, key: &String) -> (r: Option<u64>)
        ensures
            r == (if self@.contains_key(key@) {
                Some(self@[key@])
            } else {
                None
            }),
    {
        proof {
            use_type_invariant(self);
        }
        match self.find(key) {
            Some(i) => {
                proof {
                    lemma_entries_map_value(self.entries@, i as int);
                }
                Some(self.entries[i].1)
            },
            None => None,
        }
    }

    /// Takes the entries out, leaving `self` empty.
    fn take_entries(&mut self) -> (r: Vec<(String, u64)>)
        ensures
            r@ == old(self).entries@,
            keys_distinct(r@),
    {
        proof {
            use_type_invariant(&*self);
        }
        let mut taken = WhitelistMap::new();
        core::mem::swap(self, &mut taken);
        proof {
            use_type_invariant(&taken);
        }
        taken.entries
    }

    /// Sets the allocation of `key`, adding it if absent.
    pub fn insert(&mut self, key: String, value: u64)
        ensures
            final(self)@ == old(self)@.insert(key@, value),
    {
        proof {
            use_type_invariant(&*self);
            lemma_entries_map_dom(self.entries@);
        }
        let ghost s = self.entries@;
        let ghost m = self@.insert(key@, value);
        match self.find(&key) {
            Some(i) => {
                let mut e = self.take_entries();
                e.set(i, (key, value));
                proof {
                    let t = e@;
                    assert(keys_distinct(t));
                    assert forall|k: Seq<char>| #[trigger]
                        m.contains_key(k) <==> exists|j: int| 0 <= j < t.len() && t[j].0@ == k by {
                        if m.contains_key(k) && k != t[i as int].0@ {
                            let j = choose|j: int| 0 <= j < s.len() && s[j].0@ == k;
                            assert(t[j] == s[j]);
                        }
                        if exists|j: int| 0 <= j < t.len() && t[j].0@ == k {
                            let j = choose|j: int| 0 <= j < t.len() && t[j].0@ == k;
                            if j != i {
                                assert(t[j] == s[j]);
                            }
                        }
                    }
                    assert forall|j: int| 0 <= j < t.len() implies #[trigger] m[t[j].0@]
                        == t[j].1 by {
                        if j != i {
                            assert(t[j] == s[j]);
                            lemma_entries_map_value(s, j);
                        }
                    }
                    lemma_entries_map_same(t, m);
                }
                *self = WhitelistMap { entries: e };
            },
            None => {
                let mut e = self.take_entries();
                e.push((key, value));
                proof {
                    let t = e@;
                    assert(t.drop_last() =~= s);
                    assert forall|a: int, b: int| 0 <= a < b < t.len() implies t[a].0@
                        != t[b].0@ by {
                        if b == t.len() - 1 {
                            assert(t[a] == s[a]);
                        } else {
                            assert(t[a] == s[a] && t[b] == s[b]);
                        }
                    }
                }
                *self = WhitelistMap { entries: e };
            },
        }
    }

    /// Removes the entry of `key`; nothing changes if it has none.
    pub fn remove(&mut self, key: &String)
        ensures
            final(self)@ == old(self)@.remove(key@),
    {
        proof {
            use_type_invariant(&*self);
            lemma_entries_map_dom(self.entries@);
        }
        let ghost s = self.entries@;
        let ghost m = self@.remove(key@);
        match self.find(key) {
            Some(i) => {
                let mut e = self.take_entries();
                e.remove(i);
                proof {
                    let t = e@;
                    assert(t =~= s.remove(i as int));
                    assert forall|a: int, b: int| 0 <= a < b < t.len() implies t[a].0@
                        != t[b].0@ by {
                        let a2 = if a < i { a } else { a + 1 };
                        let b2 = if b < i { b } else { b + 1 };
                        assert(t[a] == s[a2] && t[b] == s[b2]);
                    }
                    assert forall|k: Seq<char>| #[trigger]
                        m.contains_key(k) <==> exists|j: int| 0 <= j < t.len() && t[j].0@ == k by {
                        if m.contains_key(k) {
                            let j = choose|j: int| 0 <= j < s.len() && s[j].0@ == k;
                            if j < i {
                                assert(t[j] == s[j]);
                            } else {
                                assert(t[j - 1] == s[j]);
                            }
                        }
                        if exists|j: int| 0 <= j < t.len() && t[j].0@ == k {
                            let j = choose|j: int| 0 <= j < t.len() && t[j].0@ == k;
                            let j2 = if j < i { j } else { j + 1 };
                            assert(t[j] == s[j2]);
                        }
                    }
                    assert forall|j: int| 0 <= j < t.len() implies #[trigger] m[t[j].0@]
                        == t[j].1 by {
                        let j2 = if j < i { j } else { j + 1 };
                        assert(t[j] == s[j2]);
                        lemma_entries_map_value(s, j2);
                    }
                    lemma_entries_map_same(t, m);
                }
                *self = WhitelistMap { entries: e };
            },
            None => {
                assert(m =~= self@);
            },
        }
    }
}

} // verus!

verus! {

/// What borsh writes for a map from identity strings to `u64`; `None` where
/// borsh refuses to encode it.
pub uninterp spec fn borsh_map_bytes(m: Map<Seq<char>, u64>) -> Option<Seq<u8>>;

/// The map that borsh reads back from `b`; `None` where it rejects `b`.
pub uninterp spec fn borsh_map_decoded(b: Seq<u8>) -> Option<Map<Seq<char>, u64>>;

impl WhitelistMap {
    /// Relies on borsh's `BorshSerialize::try_to_vec` for `BTreeMap<String, u64>`:
    /// the encoding depends on the map's contents alone, starts with a
    /// four-byte entry count, and `try_from_slice` reads it back as the same map.
    #[verifier::external_body]
    pub(crate) fn to_borsh(&self) -> (r: Option<Vec<u8>>)
        ensures
            match r {
                Some(b) => {
                    &&& borsh_map_bytes(self@) == Some(b@)
                    &&& borsh_map_decoded(b@) == Some(self@)
                    &&& b@.len() >= 4
                },
                None => borsh_map_bytes(self@) is None,
            },
    {
        let m: std::collections::BTreeMap<String, u64> = self.entries.iter().cloned().collect();
        borsh::BorshSerialize::try_to_vec(&m).ok()
    }

    /// Relies on borsh's `BorshDeserialize::try_from_slice` for
    /// `BTreeMap<String, u64>`, whose iteration yields each key once.
    #[verifier::external_body]
    pub(crate) fn from_borsh(b: &[u8]) -> (r: Option<WhitelistMap>)
        ensures
            match r {
                Some(m) => borsh_map_decoded(b@) == Some(m@),
                None => borsh_map_decoded(b@) is None,
            },
    {
        let m = <std::collections::BTreeMap<String, u64> as borsh::BorshDeserialize>::try_from_slice(b).ok()?;
        Some(WhitelistMap { entries: m.into_iter().collect() })
    }
}

} // verus!
