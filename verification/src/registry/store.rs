//! The registry's contents: deployments keyed by id, as kept between runs.

use vstd::prelude::*;
use super::{FnService, SpecFnService};
use crate::text::{owned, str_eq};

verus! {

/// Deployments keyed by id, in the order their keys were first recorded.
#[derive(Debug)]
pub struct Registry {
    entries: Vec<(String, FnService)>,
}

/// The model of an entry.
pub open spec fn entry_view(e: (String, FnService)) -> (Seq<char>, SpecFnService) {
    (e.0@, e.1@)
}

impl View for Registry {
    type V = Seq<(Seq<char>, SpecFnService)>;

    closed spec fn view(&self) -> Seq<(Seq<char>, SpecFnService)> {
        entries_view(self.entries@)
    }
}

/// The model of a sequence of entries.
pub open spec fn entries_view(v: Seq<(String, FnService)>) -> Seq<(Seq<char>, SpecFnService)> {
    v.map_values(|e: (String, FnService)| entry_view(e))
}

/// No key occurs twice.
pub open spec fn keys_unique(s: Seq<(Seq<char>, SpecFnService)>) -> bool {
    forall|i: int, j: int| 0 <= i < s.len() && 0 <= j < s.len() && i != j ==> #[trigger] s[i].0 != #[trigger] s[j].0
}

/// The deployments of `s` by key.
pub open spec fn map_of(s: Seq<(Seq<char>, SpecFnService)>) -> Map<Seq<char>, SpecFnService>
    decreases s.len(),
{
    if s.len() == 0 {
        Map::empty()
    } else {
        map_of(s.drop_last()).insert(s.last().0, s.last().1)
    }
}

/// The first deployment of `s` called `name`.
pub open spec fn first_named(s: Seq<(Seq<char>, SpecFnService)>, name: Seq<char>) -> Option<SpecFnService>
    decreases s.len(),
{
    if s.len() == 0 {
        None
    } else {
        match first_named(s.drop_last(), name) {
            Some(x) => Some(x),
            None => if s.last().1.name == name { Some(s.last().1) } else { None },
        }
    }
}

/// The message for a name that no deployment has.
pub open spec fn not_found_message(name: Seq<char>) -> Seq<char> {
    "FnService '"@ + name + "' not found"@
}

/// A key is recorded exactly when some entry has it.
pub proof fn lemma_map_dom(s: Seq<(Seq<char>, SpecFnService)>, k: Seq<char>)
    ensures
        map_of(s).dom().contains(k) <==> exists|i: int| 0 <= i < s.len() && #[trigger] s[i].0 == k,
    decreases s.len(),
{
    if s.len() > 0 {
        lemma_map_dom(s.drop_last(), k);
        if map_of(s.drop_last()).dom().contains(k) {
            let i = choose|i: int| 0 <= i < s.drop_last().len() && #[trigger] s.drop_last()[i].0 == k;
            assert(s[i].0 == k);
        }
        if exists|i: int| 0 <= i < s.len() && #[trigger] s[i].0 == k {
            let i = choose|i: int| 0 <= i < s.len() && #[trigger] s[i].0 == k;
            if i < s.len() - 1 {
                assert(s.drop_last()[i].0 == k);
            }
        }
    }
}

/// With unique keys, each entry's key maps to its deployment.
pub proof fn lemma_map_value(s: Seq<(Seq<char>, SpecFnService)>, i: int)
    requires
        keys_unique(s),
        0 <= i < s.len(),
    ensures
        map_of(s).dom().contains(s[i].0),
        map_of(s)[s[i].0] == s[i].1,
    decreases s.len(),
{
    lemma_map_dom(s, s[i].0);
    if i < s.len() - 1 {
        let p = s.drop_last();
        assert(keys_unique(p)) by {
            assert forall|a: int, b: int| 0 <= a < p.len() && 0 <= b < p.len() && a != b implies #[trigger] p[a].0 != #[trigger] p[b].0 by {
                assert(p[a] == s[a] && p[b] == s[b]);
            }
        }
        assert(p[i] == s[i]);
        lemma_map_value(p, i);
        assert(s.last().0 != s[i].0);
    }
}

impl Registry {
    /// The invariant: no key occurs twice.
    #[verifier::type_invariant]
    pub closed spec fn wf(&self) -> bool {
        keys_unique(self@)
    }

    /// The deployments by key.
    pub open spec fn map(&self) -> Map<Seq<char>, SpecFnService> {
        map_of(self@)
    }

    /// An empty registry.
    pub fn new() -> (r: Registry)
        ensures
            r@.len() == 0,
            r.map() == Map::<Seq<char>, SpecFnService>::empty(),
    {
        let r = Registry { entries: Vec::new() };
        assert(r@ =~= Seq::<(Seq<char>, SpecFnService)>::empty());
        r
    }

    /// The position of the entry with key `key` among `entries`.
    fn position(entries: &Vec<(String, FnService)>, key: &str) -> (r: Option<usize>)
        ensures
            match r {
                Some(p) => p < entries@.len() && entries_view(entries@)[p as int].0 == key@,
                None => forall|i: int| 0 <= i < entries@.len() ==> #[trigger] entries_view(entries@)[i].0 != key@,
            },
    {
        let mut i: usize = 0;
        while i < entries.len()
            invariant
                i <= entries@.len(),
                forall|k: int| 0 <= k < i ==> #[trigger] entries_view(entries@)[k].0 != key@,
            decreases entries.len() - i,
        {
            assert(entries_view(entries@)[i as int] == entry_view(entries@[i as int]));
            if str_eq(entries[i].0.as_str(), key) {
                return Some(i);
            }
            i = i + 1;
        }
        None
    }

    /// Records `svc` under `key`, replacing what was recorded under it.
    pub fn insert(&mut self, key: &str, svc: FnService)
        ensures
            final(self).map() == old(self).map().insert(key@, svc@),
    {
        proof {
            use_type_invariant(&*self);
        }
        let mut entries: Vec<(String, FnService)> = Vec::new();
        std::mem::swap(&mut entries, &mut self.entries);
        let ghost s0 = entries_view(entries@);
        let ghost e = (key@, svc@);
        match Self::position(&entries, key) {
            Some(p) => {
                entries.set(p, (owned(key), svc));
                assert(entries_view(entries@) =~= s0.update(p as int, e));
                let ghost s1 = entries_view(entries@);
                assert(keys_unique(s1)) by {
                    assert forall|a: int, b: int| 0 <= a < s1.len() && 0 <= b < s1.len() && a != b implies #[trigger] s1[a].0 != #[trigger] s1[b].0 by {
                        assert(s1[a].0 == s0[a].0 && s1[b].0 == s0[b].0);
                    }
                }
                assert(map_of(s1) =~= map_of(s0).insert(key@, svc@)) by {
                    assert forall|k: Seq<char>| #[trigger] map_of(s1).dom().contains(k) <==> map_of(s0).insert(key@, svc@).dom().contains(k) by {
                        lemma_map_dom(s1, k);
                        lemma_map_dom(s0, k);
                        if exists|i: int| 0 <= i < s0.len() && #[trigger] s0[i].0 == k {
                            let i = choose|i: int| 0 <= i < s0.len() && #[trigger] s0[i].0 == k;
                            assert(s1[i].0 == k);
                        }
                        if exists|i: int| 0 <= i < s1.len() && #[trigger] s1[i].0 == k {
                            let i = choose|i: int| 0 <= i < s1.len() && #[trigger] s1[i].0 == k;
                            assert(s0[i].0 == k);
                        }
                    }
                    assert forall|k: Seq<char>| #[trigger] map_of(s1).dom().contains(k) implies map_of(s1)[k] == map_of(s0).insert(key@, svc@)[k] by {
                        lemma_map_dom(s1, k);
                        let i = choose|i: int| 0 <= i < s1.len() && #[trigger] s1[i].0 == k;
                        lemma_map_value(s1, i);
                        if i != p {
                            lemma_map_value(s0, i);
                        }
                    }
                }
            },
            None => {
                entries.push((owned(key), svc));
                assert(entries_view(entries@) =~= s0.push(e));
                let ghost s1 = entries_view(entries@);
                assert(keys_unique(s1)) by {
                    assert forall|a: int, b: int| 0 <= a < s1.len() && 0 <= b < s1.len() && a != b implies #[trigger] s1[a].0 != #[trigger] s1[b].0 by {
                        if a < s0.len() && b < s0.len() {
                            assert(s1[a] == s0[a] && s1[b] == s0[b]);
                        } else if a < s0.len() {
                            assert(s1[a] == s0[a]);
                        } else {
                            assert(s1[b] == s0[b]);
                        }
                    }
                }
                assert(s1.drop_last() =~= s0);
            },
        }
        self.entries = entries;
    }

    /// Forgets what is recorded under `key`.
    pub fn remove_key(&mut self, key: &str)
        ensures
            final(self).map() == old(self).map().remove(key@),
    {
        proof {
            use_type_invariant(&*self);
        }
        let mut entries: Vec<(String, FnService)> = Vec::new();
        std::mem::swap(&mut entries, &mut self.entries);
        let ghost s0 = entries_view(entries@);
        match Self::position(&entries, key) {
            Some(p) => {
                entries.remove(p);
                assert(entries_view(entries@) =~= s0.remove(p as int));
                let ghost s1 = entries_view(entries@);
                assert(keys_unique(s1)) by {
                    assert forall|a: int, b: int| 0 <= a < s1.len() && 0 <= b < s1.len() && a != b implies #[trigger] s1[a].0 != #[trigger] s1[b].0 by {
                        let a0 = if a < p { a } else { a + 1 };
                        let b0 = if b < p { b } else { b + 1 };
                        assert(s1[a] == s0[a0] && s1[b] == s0[b0]);
                    }
                }
                assert(map_of(s1) =~= map_of(s0).remove(key@)) by {
                    assert forall|k: Seq<char>| #[trigger] map_of(s1).dom().contains(k) <==> map_of(s0).remove(key@).dom().contains(k) by {
                        lemma_map_dom(s1, k);
                        lemma_map_dom(s0, k);
                        if exists|i: int| 0 <= i < s0.len() && #[trigger] s0[i].0 == k {
                            let i = choose|i: int| 0 <= i < s0.len() && #[trigger] s0[i].0 == k;
                            if k != key@ {
                                assert(i != p);
                                let i1 = if i < p { i } else { i - 1 };
                                assert(s1[i1].0 == k);
                            }
                        }
                        if exists|i: int| 0 <= i < s1.len() && #[trigger] s1[i].0 == k {
                            let i = choose|i: int| 0 <= i < s1.len() && #[trigger] s1[i].0 == k;
                            let i0 = if i < p { i } else { i + 1 };
                            assert(s0[i0].0 == k);
                            assert(i0 != p);
                        }
                    }
                    assert forall|k: Seq<char>| #[trigger] map_of(s1).dom().contains(k) implies map_of(s1)[k] == map_of(s0).remove(key@)[k] by {
                        lemma_map_dom(s1, k);
                        let i = choose|i: int| 0 <= i < s1.len() && #[trigger] s1[i].0 == k;
                        let i0 = if i < p { i } else { i + 1 };
                        assert(s1[i] == s0[i0]);
                        lemma_map_value(s1, i);
                        lemma_map_value(s0, i0);
                    }
                }
            },
            None => {
                assert(map_of(s0) =~= map_of(s0).remove(key@)) by {
                    lemma_map_dom(s0, key@);
                }
            },
        }
        self.entries = entries;
    }

    /// A registry holding `pairs`, a later pair replacing an earlier one with the same key.
    pub fn from_pairs(pairs: &Vec<(String, FnService)>) -> (r: Registry)
        ensures
            r.map() == map_of(pairs@.map_values(|e: (String, FnService)| entry_view(e))),
    {
        let ghost pv = pairs@.map_values(|e: (String, FnService)| entry_view(e));
        let mut r = Registry::new();
        let mut i: usize = 0;
        assert(pv.subrange(0, 0) =~= Seq::<(Seq<char>, SpecFnService)>::empty());
        while i < pairs.len()
            invariant
                i <= pairs@.len(),
                pv == pairs@.map_values(|e: (String, FnService)| entry_view(e)),
                r.map() == map_of(pv.subrange(0, i as int)),
            decreases pairs.len() - i,
        {
            let (k, s) = &pairs[i];
            assert(pv[i as int] == entry_view(pairs@[i as int]));
            r.insert(k.as_str(), s.duplicate());
            assert(pv.subrange(0, i + 1).drop_last() =~= pv.subrange(0, i as int));
            i = i + 1;
        }
        assert(pv.subrange(0, pv.len() as int) =~= pv);
        r
    }

    /// The recorded keys and deployments, in order.
    pub fn to_pairs(&self) -> (r: Vec<(String, FnService)>)
        ensures
            r@.map_values(|e: (String, FnService)| entry_view(e)) == self@,
    {
        let mut r: Vec<(String, FnService)> = Vec::new();
        let mut i: usize = 0;
        while i < self.entries.len()
            invariant
                i <= self.entries@.len(),
                self@ == self.entries@.map_values(|e: (String, FnService)| entry_view(e)),
                r@.map_values(|e: (String, FnService)| entry_view(e)) == self@.subrange(0, i as int),
            decreases self.entries.len() - i,
        {
            let (k, s) = &self.entries[i];
            let ghost rb = r@;
            r.push((owned(k.as_str()), s.duplicate()));
            assert(r@.map_values(|e: (String, FnService)| entry_view(e))
                =~= rb.map_values(|e: (String, FnService)| entry_view(e)).push(entry_view(self.entries@[i as int])));
            assert(self@.subrange(0, i + 1) =~= self@.subrange(0, i as int).push(self@[i as int]));
            i = i + 1;
        }
        assert(self@.subrange(0, self@.len() as int) =~= self@);
        r
    }
}

/// Records a deployment under its id.
pub fn save(reg: &mut Registry, deployment: FnService)
    ensures
        final(reg).map() == old(reg).map().insert(deployment.id@, deployment@),
{
    let id = owned(deployment.id.as_str());
    reg.insert(id.as_str(), deployment);
}

/// Forgets the deployment recorded under `id`.
pub fn remove(reg: &mut Registry, id: &str)
    ensures
        final(reg).map() == old(reg).map().remove(id@),
{
    reg.remove_key(id);
}

/// The first recorded deployment called `name`.
pub fn find_by_name(reg: &Registry, name: &str) -> (r: Result<FnService, String>)
    ensures
        match r {
            Ok(s) => first_named(reg@, name@) == Some(s@),
            Err(m) => first_named(reg@, name@) is None && m@ == not_found_message(name@),
        },
{
    let ghost s = reg@;
    let mut i: usize = 0;
    while i < reg.entries.len()
        invariant
            i <= reg.entries@.len(),
            s == reg@,
            s == reg.entries@.map_values(|e: (String, FnService)| entry_view(e)),
            first_named(s.subrange(0, i as int), name@) is None,
        decreases reg.entries.len() - i,
    {
        assert(s.subrange(0, i + 1).drop_last() =~= s.subrange(0, i as int));
        assert(s[i as int] == entry_view(reg.entries@[i as int]));
        if str_eq(reg.entries[i].1.name.as_str(), name) {
            let r = reg.entries[i].1.duplicate();
            proof {
                lemma_first_named_prefix(s, name@, i + 1);
            }
            return Ok(r);
        }
        i = i + 1;
    }
    assert(s.subrange(0, s.len() as int) =~= s);
    let mut m = owned("FnService '");
    m.append(name);
    m.append("' not found");
    Err(m)
}

proof fn lemma_first_named_prefix(s: Seq<(Seq<char>, SpecFnService)>, name: Seq<char>, k: int)
    requires
        0 <= k <= s.len(),
        first_named(s.subrange(0, k), name) is Some,
    ensures
        first_named(s, name) == first_named(s.subrange(0, k), name),
    decreases s.len() - k,
{
    if k < s.len() {
        assert(s.subrange(0, k + 1).drop_last() =~= s.subrange(0, k));
        lemma_first_named_prefix(s, name, k + 1);
    } else {
        assert(s.subrange(0, k) =~= s);
    }
}

/// Every recorded deployment, in order.
pub fn list_all(reg: &Registry) -> (r: Vec<FnService>)
    ensures
        r@.map_values(|s: FnService| s@) == reg@.map_values(|e: (Seq<char>, SpecFnService)| e.1),
{
    let ghost s = reg@;
    let mut r: Vec<FnService> = Vec::new();
    let mut i: usize = 0;
    while i < reg.entries.len()
        invariant
            i <= reg.entries@.len(),
            s == reg@,
            s == reg.entries@.map_values(|e: (String, FnService)| entry_view(e)),
            r@.map_values(|x: FnService| x@) == s.subrange(0, i as int).map_values(|e: (Seq<char>, SpecFnService)| e.1),
        decreases reg.entries.len() - i,
    {
        assert(s[i as int] == entry_view(reg.entries@[i as int]));
        let ghost rb = r@;
        r.push(reg.entries[i].1.duplicate());
        assert(r@.map_values(|x: FnService| x@) =~= rb.map_values(|x: FnService| x@).push(s[i as int].1));
        assert(s.subrange(0, i + 1).map_values(|e: (Seq<char>, SpecFnService)| e.1)
            =~= s.subrange(0, i as int).map_values(|e: (Seq<char>, SpecFnService)| e.1).push(s[i as int].1));
        i = i + 1;
    }
    assert(s.subrange(0, s.len() as int) =~= s);
    r
}

/// The directory that holds the registry, under the home directory `home`.
pub open spec fn registry_dir_of(home: Option<String>) -> Seq<char> {
    crate::paths::path_join(crate::paths::path_join(crate::paths::home_or_here(home), ".wdsm"@), "registry"@)
}

/// The directory that holds the registry.
pub fn registry_dir(home: &Option<String>) -> (r: String)
    ensures
        r@ == registry_dir_of(*home),
{
    let h = crate::paths::home_dir(home);
    let d = crate::paths::join_path(h.as_str(), ".wdsm");
    crate::paths::join_path(d.as_str(), "registry")
}

/// The file that holds the registry.
pub fn registry_file(home: &Option<String>) -> (r: String)
    ensures
        r@ == crate::paths::path_join(registry_dir_of(*home), "deployments.json"@),
{
    let d = registry_dir(home);
    crate::paths::join_path(d.as_str(), "deployments.json")
}


/// Recording a deployment under an id that was not recorded, and then
/// forgetting that id, leaves the registry's contents as they were.
pub proof fn law_register_then_unregister(before: Registry, middle: Registry, after: Registry, d: SpecFnService)
    requires
        !before.map().dom().contains(d.id),
        middle.map() == before.map().insert(d.id, d),
        after.map() == middle.map().remove(d.id),
    ensures
        after.map() == before.map(),
{
    assert(after.map() =~= before.map());
}

/// A deployment just recorded is found under its id, and a forgotten id is
/// found no more.
pub proof fn law_recorded_under_id(before: Registry, after: Registry, d: SpecFnService, gone: Registry)
    requires
        after.map() == before.map().insert(d.id, d),
        gone.map() == after.map().remove(d.id),
    ensures
        after.map().dom().contains(d.id),
        after.map()[d.id] == d,
        !gone.map().dom().contains(d.id),
{
}

/// Finding by name: a deployment is found exactly when some recorded
/// deployment has that name; what is found is a recorded deployment with
/// that name, and no deployment recorded before it has the name.
pub proof fn law_found_by_name(s: Seq<(Seq<char>, SpecFnService)>, name: Seq<char>)
    ensures
        (first_named(s, name) is Some) <==> (exists|i: int| 0 <= i < s.len() && #[trigger] s[i].1.name == name),
        first_named(s, name) matches Some(d) ==> d.name == name && exists|i: int|
            0 <= i < s.len() && #[trigger] s[i].1 == d && forall|j: int| 0 <= j < i ==> #[trigger] s[j].1.name != name,
    decreases s.len(),
{
    if s.len() > 0 {
        let p = s.drop_last();
        law_found_by_name(p, name);
        match first_named(p, name) {
            Some(d) => {
                let i = choose|i: int| 0 <= i < p.len() && #[trigger] p[i].1 == d && forall|j: int| 0 <= j < i ==> #[trigger] p[j].1.name != name;
                assert(s[i].1 == d);
                assert forall|j: int| 0 <= j < i implies #[trigger] s[j].1.name != name by {
                    assert(s[j] == p[j]);
                }
            },
            None => {
                if s.last().1.name == name {
                    let i = s.len() - 1;
                    assert forall|j: int| 0 <= j < i implies #[trigger] s[j].1.name != name by {
                        assert(s[j] == p[j]);
                        if s[j].1.name == name {
                            assert(p[j].1.name == name);
                        }
                    }
                    assert(s[i].1 == s.last().1);
                } else {
                    assert forall|i: int| 0 <= i < s.len() implies #[trigger] s[i].1.name != name by {
                        if i < s.len() - 1 {
                            assert(s[i] == p[i]);
                        }
                    }
                }
            },
        }
        if exists|i: int| 0 <= i < p.len() && #[trigger] p[i].1.name == name {
            let i = choose|i: int| 0 <= i < p.len() && #[trigger] p[i].1.name == name;
            assert(s[i] == p[i]);
        }
    }
}

} // verus!
