//! A table of values keyed by name, where a later entry for a key replaces
//! an earlier one.

use vstd::prelude::*;
use crate::text::{owned, str_eq};

verus! {

/// Values keyed by name.
#[derive(Debug)]
pub struct Table<T> {
    entries: Vec<(String, T)>,
}

/// The keys of a sequence of entries.
pub open spec fn keys_of<T>(s: Seq<(String, T)>) -> Seq<Seq<char>> {
    s.map_values(|e: (String, T)| e.0@)
}

/// The contents of a sequence of entries by key, a later entry for a key
/// replacing an earlier one.
pub open spec fn table_map<T: View>(s: Seq<(String, T)>) -> Map<Seq<char>, T::V>
    decreases s.len(),
{
    if s.len() == 0 {
        Map::empty()
    } else {
        table_map(s.drop_last()).insert(s.last().0@, s.last().1@)
    }
}

proof fn lemma_table_dom<T: View>(s: Seq<(String, T)>, k: Seq<char>)
    ensures
        table_map(s).dom().contains(k) <==> exists|i: int| 0 <= i < s.len() && #[trigger] s[i].0@ == k,
    decreases s.len(),
{
    if s.len() > 0 {
        lemma_table_dom(s.drop_last(), k);
        if table_map(s.drop_last()).dom().contains(k) {
            let i = choose|i: int| 0 <= i < s.drop_last().len() && #[trigger] s.drop_last()[i].0@ == k;
            assert(s[i].0@ == k);
        }
        if exists|i: int| 0 <= i < s.len() && #[trigger] s[i].0@ == k {
            let i = choose|i: int| 0 <= i < s.len() && #[trigger] s[i].0@ == k;
            if i < s.len() - 1 {
                assert(s.drop_last()[i].0@ == k);
            }
        }
    }
}

/// No key occurs twice.
pub open spec fn unique_keys<T>(s: Seq<(String, T)>) -> bool {
    forall|i: int, j: int| 0 <= i < s.len() && 0 <= j < s.len() && i != j ==> #[trigger] s[i].0@ != #[trigger] s[j].0@
}

proof fn lemma_table_value<T: View>(s: Seq<(String, T)>, i: int)
    requires
        unique_keys(s),
        0 <= i < s.len(),
    ensures
        table_map(s).dom().contains(s[i].0@),
        table_map(s)[s[i].0@] == s[i].1@,
    decreases s.len(),
{
    lemma_table_dom(s, s[i].0@);
    if i < s.len() - 1 {
        let p = s.drop_last();
        assert(unique_keys(p)) by {
            assert forall|a: int, b: int| 0 <= a < p.len() && 0 <= b < p.len() && a != b implies #[trigger] p[a].0@ != #[trigger] p[b].0@ by {
                assert(p[a] == s[a] && p[b] == s[b]);
            }
        }
        assert(p[i] == s[i]);
        lemma_table_value(p, i);
        assert(s.last().0@ != s[i].0@);
    }
}

impl<T> Table<T> {
    /// The invariant: no key occurs twice.
    #[verifier::type_invariant]
    pub closed spec fn wf(&self) -> bool {
        unique_keys(self.entries@)
    }
}

impl<T: View> Table<T> {

    /// The contents by key.
    pub closed spec fn map(&self) -> Map<Seq<char>, T::V> {
        table_map(self.entries@)
    }

    /// An empty table.
    pub fn new() -> (r: Self)
        ensures
            r.map() == Map::<Seq<char>, T::V>::empty(),
    {
        Table { entries: Vec::new() }
    }

    fn position(entries: &Vec<(String, T)>, key: &str) -> (r: Option<usize>)
        ensures
            match r {
                Some(p) => p < entries@.len() && entries@[p as int].0@ == key@,
                None => forall|i: int| 0 <= i < entries@.len() ==> #[trigger] entries@[i].0@ != key@,
            },
    {
        let mut i: usize = 0;
        while i < entries.len()
            invariant
                i <= entries@.len(),
                forall|k: int| 0 <= k < i ==> #[trigger] entries@[k].0@ != key@,
            decreases entries.len() - i,
        {
            if str_eq(entries[i].0.as_str(), key) {
                return Some(i);
            }
            i = i + 1;
        }
        None
    }

    /// Whether a value is kept under `key`.
    pub fn contains_key(&self, key: &str) -> (r: bool)
        ensures
            r == self.map().dom().contains(key@),
    {
        proof {
            use_type_invariant(self);
        }
        proof {
            lemma_table_dom(self.entries@, key@);
        }
        match Self::position(&self.entries, key) {
            Some(p) => true,
            None => false,
        }
    }

    /// The value kept under `key`.
    pub fn get(&self, key: &str) -> (r: Option<&T>)
        ensures
            match r {
                Some(v) => self.map().dom().contains(key@) && self.map()[key@] == v@,
                None => !self.map().dom().contains(key@),
            },
    {
        proof {
            use_type_invariant(self);
        }
        proof {
            lemma_table_dom(self.entries@, key@);
        }
        match Self::position(&self.entries, key) {
            Some(p) => {
                proof {
                    lemma_table_value(self.entries@, p as int);
                }
                Some(&self.entries[p].1)
            },
            None => None,
        }
    }

    /// Keeps `value` under `key`, replacing what was kept under it.
    pub fn insert(&mut self, key: &str, value: T)
        ensures
            final(self).map() == old(self).map().insert(key@, value@),
    {
        proof {
            use_type_invariant(&*self);
        }
        let mut entries: Vec<(String, T)> = Vec::new();
        std::mem::swap(&mut entries, &mut self.entries);
        let ghost s0 = entries@;
        let ghost vv = value@;
        match Self::position(&entries, key) {
            Some(p) => {
                entries.set(p, (owned(key), value));
                let ghost s1 = entries@;
                assert(s1 =~= s0.update(p as int, s1[p as int]));
                assert(unique_keys(s1)) by {
                    assert forall|a: int, b: int| 0 <= a < s1.len() && 0 <= b < s1.len() && a != b implies #[trigger] s1[a].0@ != #[trigger] s1[b].0@ by {
                        assert(s1[a].0@ == s0[a].0@ && s1[b].0@ == s0[b].0@);
                    }
                }
                assert(table_map(s1) =~= table_map(s0).insert(key@, vv)) by {
                    assert forall|k: Seq<char>| #[trigger] table_map(s1).dom().contains(k) <==> table_map(s0).insert(key@, vv).dom().contains(k) by {
                        lemma_table_dom(s1, k);
                        lemma_table_dom(s0, k);
                        if exists|i: int| 0 <= i < s0.len() && #[trigger] s0[i].0@ == k {
                            let i = choose|i: int| 0 <= i < s0.len() && #[trigger] s0[i].0@ == k;
                            assert(s1[i].0@ == k);
                        }
                        if exists|i: int| 0 <= i < s1.len() && #[trigger] s1[i].0@ == k {
                            let i = choose|i: int| 0 <= i < s1.len() && #[trigger] s1[i].0@ == k;
                            assert(s0[i].0@ == k);
                        }
                    }
                    assert forall|k: Seq<char>| #[trigger] table_map(s1).dom().contains(k) implies table_map(s1)[k] == table_map(s0).insert(key@, vv)[k] by {
                        lemma_table_dom(s1, k);
                        let i = choose|i: int| 0 <= i < s1.len() && #[trigger] s1[i].0@ == k;
                        lemma_table_value(s1, i);
                        if i != p {
                            lemma_table_value(s0, i);
                        }
                    }
                }
            },
            None => {
                entries.push((owned(key), value));
                let ghost s1 = entries@;
                assert(s1.drop_last() =~= s0);
                assert(unique_keys(s1)) by {
                    assert forall|a: int, b: int| 0 <= a < s1.len() && 0 <= b < s1.len() && a != b implies #[trigger] s1[a].0@ != #[trigger] s1[b].0@ by {
                        if a < s0.len() && b < s0.len() {
                            assert(s1[a] == s0[a] && s1[b] == s0[b]);
                        } else if a < s0.len() {
                            assert(s1[a] == s0[a]);
                        } else {
                            assert(s1[b] == s0[b]);
                        }
                    }
                }
            },
        }
        self.entries = entries;
    }

    /// The number of keys.
    pub fn len(&self) -> (r: usize)
        ensures
            r == self.map().dom().len(),
    {
        proof {
            use_type_invariant(self);
        }
        proof {
            lemma_table_len(self.entries@);
        }
        self.entries.len()
    }

    /// The keys, in the order they were first inserted.
    pub fn keys(&self) -> (r: Vec<String>)
        ensures
            crate::text::strings_view(r@).to_set() == self.map().dom(),
            r@.len() == self.map().dom().len(),
    {
        proof {
            use_type_invariant(self);
        }
        let mut r: Vec<String> = Vec::new();
        let mut i: usize = 0;
        while i < self.entries.len()
            invariant
                i <= self.entries@.len(),
                crate::text::strings_view(r@) == keys_of(self.entries@).subrange(0, i as int),
            decreases self.entries.len() - i,
        {
            let ghost rb = r@;
            r.push(owned(self.entries[i].0.as_str()));
            assert(crate::text::strings_view(r@) =~= crate::text::strings_view(rb).push(self.entries@[i as int].0@));
            assert(keys_of(self.entries@).subrange(0, i + 1) =~= keys_of(self.entries@).subrange(0, i as int).push(self.entries@[i as int].0@));
            i = i + 1;
        }
        proof {
            assert(keys_of(self.entries@).subrange(0, self.entries@.len() as int) =~= keys_of(self.entries@));
            assert forall|k: Seq<char>| #[trigger] keys_of(self.entries@).to_set().contains(k) <==> self.map().dom().contains(k) by {
                lemma_table_dom(self.entries@, k);
                if keys_of(self.entries@).contains(k) {
                    let i = choose|i: int| 0 <= i < keys_of(self.entries@).len() && #[trigger] keys_of(self.entries@)[i] == k;
                    assert(self.entries@[i].0@ == k);
                }
                if exists|i: int| 0 <= i < self.entries@.len() && #[trigger] self.entries@[i].0@ == k {
                    let i = choose|i: int| 0 <= i < self.entries@.len() && #[trigger] self.entries@[i].0@ == k;
                    assert(keys_of(self.entries@)[i] == k);
                }
            }
            assert(keys_of(self.entries@).to_set() =~= self.map().dom());
            lemma_table_len(self.entries@);
        }
        r
    }
}

proof fn lemma_table_len<T: View>(s: Seq<(String, T)>)
    requires
        unique_keys(s),
    ensures
        table_map(s).dom().len() == s.len(),
        table_map(s).dom().finite(),
    decreases s.len(),
{
    if s.len() > 0 {
        let p = s.drop_last();
        assert(unique_keys(p)) by {
            assert forall|a: int, b: int| 0 <= a < p.len() && 0 <= b < p.len() && a != b implies #[trigger] p[a].0@ != #[trigger] p[b].0@ by {
                assert(p[a] == s[a] && p[b] == s[b]);
            }
        }
        lemma_table_len(p);
        lemma_table_dom(p, s.last().0@);
        if table_map(p).dom().contains(s.last().0@) {
            let i = choose|i: int| 0 <= i < p.len() && #[trigger] p[i].0@ == s.last().0@;
            assert(s[i].0@ == s[s.len() - 1].0@);
        }
    }
}

} // verus!
