//! Checks that an extracted interface is well-formed, and the dependency
//! ordering of its type definitions.

use vstd::prelude::*;
use vstd::string::*;
use crate::errors::{SpecWdsmError, WdsmError};
use crate::ir::{td_deps, td_name, SpecTypeDef, TypeDef};
use crate::text::{join, join_strings, str_eq, strings_view};

verus! {

// ---------------------------------------------------------------------------
// The dependency graph of a list of type definitions
// ---------------------------------------------------------------------------

/// The source names of the definitions, in order.
pub open spec fn type_names_of(ts: Seq<SpecTypeDef>) -> Seq<Seq<char>> {
    ts.map_values(|t: SpecTypeDef| td_name(t))
}

/// The last position in `names` that holds `n`, or -1 when there is none.
pub open spec fn last_index_of(names: Seq<Seq<char>>, n: Seq<char>) -> int
    decreases names.len(),
{
    if names.len() == 0 {
        -1
    } else if names.last() == n {
        names.len() - 1
    } else {
        last_index_of(names.drop_last(), n)
    }
}

/// The positions that the names `deps` resolve to, skipping unknown names;
/// a name that occurs more than once resolves to its last occurrence.
pub open spec fn resolve_all(names: Seq<Seq<char>>, deps: Seq<Seq<char>>) -> Seq<int>
    decreases deps.len(),
{
    if deps.len() == 0 {
        Seq::empty()
    } else {
        let r = last_index_of(names, deps.last());
        resolve_all(names, deps.drop_last()) + if r >= 0 { seq![r] } else { Seq::empty() }
    }
}

/// The definitions that definition `x` depends on, one entry per reference.
pub open spec fn dep_edges(ts: Seq<SpecTypeDef>, x: int) -> Seq<int> {
    resolve_all(type_names_of(ts), td_deps(ts[x]))
}

/// Definition `x` is grounded within `k` steps: following its dependencies
/// never takes more than `k - 1` steps.
pub open spec fn grounded_within(ts: Seq<SpecTypeDef>, x: int, k: nat) -> bool
    decreases k,
{
    if k == 0 {
        false
    } else {
        forall|m: int| 0 <= m < dep_edges(ts, x).len() ==> grounded_within(ts, #[trigger] dep_edges(ts, x)[m], (k - 1) as nat)
    }
}

/// Every chain of dependencies that starts at definition `x` is finite, that
/// is, `x` does not depend, directly or not, on a circular reference.
pub open spec fn grounded(ts: Seq<SpecTypeDef>, x: int) -> bool {
    exists|k: nat| grounded_within(ts, x, k)
}

/// Every dependency of the definition at each position of `order` occurs at
/// an earlier position.
pub open spec fn deps_before(ts: Seq<SpecTypeDef>, order: Seq<int>) -> bool {
    forall|p: int, m: int| #![trigger dep_edges(ts, order[p])[m]]
        0 <= p < order.len() && 0 <= m < dep_edges(ts, order[p]).len() ==>
        exists|q: int| 0 <= q < p && #[trigger] order[q] == dep_edges(ts, order[p])[m]
}

/// `order` lists every definition exactly once, each after all the
/// definitions it depends on.
pub open spec fn is_topo_order(ts: Seq<SpecTypeDef>, order: Seq<int>) -> bool {
    &&& order.len() == ts.len()
    &&& forall|p: int| 0 <= p < order.len() ==> 0 <= #[trigger] order[p] < ts.len()
    &&& forall|p: int, q: int| 0 <= p < q < order.len() ==> order[p] != order[q]
    &&& deps_before(ts, order)
}

/// The names of the definitions, among the first `upto`, that are not grounded.
pub open spec fn stuck_names(ts: Seq<SpecTypeDef>, upto: int) -> Seq<Seq<char>>
    decreases upto,
{
    if upto <= 0 {
        Seq::empty()
    } else {
        stuck_names(ts, upto - 1) + if grounded(ts, upto - 1) { Seq::empty() } else { seq![td_name(ts[upto - 1])] }
    }
}

/// How many references in `e` point at definitions not yet placed.
pub open spec fn pending(e: Seq<int>, done: Seq<bool>) -> nat
    decreases e.len(),
{
    if e.len() == 0 {
        0
    } else {
        pending(e.drop_last(), done) + if done[e.last()] { 0nat } else { 1nat }
    }
}

/// How many times `d` occurs in `e`.
pub open spec fn occ(e: Seq<int>, d: int) -> nat
    decreases e.len(),
{
    if e.len() == 0 {
        0
    } else {
        occ(e.drop_last(), d) + if e.last() == d { 1nat } else { 0nat }
    }
}

/// How many entries of `s` are true.
pub open spec fn count_true(s: Seq<bool>) -> nat
    decreases s.len(),
{
    if s.len() == 0 {
        0
    } else {
        count_true(s.drop_last()) + if s.last() { 1nat } else { 0nat }
    }
}

proof fn lemma_last_index_of(names: Seq<Seq<char>>, n: Seq<char>)
    ensures
        -1 <= last_index_of(names, n) < names.len(),
        last_index_of(names, n) >= 0 ==> names[last_index_of(names, n)] == n,
        last_index_of(names, n) == -1 ==> forall|i: int| 0 <= i < names.len() ==> names[i] != n,
        last_index_of(names, n) >= 0 ==> forall|i: int| last_index_of(names, n) < i < names.len() ==> names[i] != n,
    decreases names.len(),
{
    if names.len() > 0 {
        let r = last_index_of(names, n);
        lemma_last_index_of(names.drop_last(), n);
        if names.last() != n {
            assert forall|i: int| 0 <= i < names.len() && (r == -1 || r < i) implies names[i] != n by {
                if i < names.len() - 1 {
                    assert(names.drop_last()[i] == names[i]);
                }
            }
        }
    }
}

proof fn lemma_resolve_all_range(names: Seq<Seq<char>>, deps: Seq<Seq<char>>)
    ensures
        forall|m: int| 0 <= m < resolve_all(names, deps).len() ==> 0 <= #[trigger] resolve_all(names, deps)[m] < names.len(),
    decreases deps.len(),
{
    if deps.len() > 0 {
        lemma_resolve_all_range(names, deps.drop_last());
        lemma_last_index_of(names, deps.last());
        let a = resolve_all(names, deps.drop_last());
        let r = last_index_of(names, deps.last());
        let b: Seq<int> = if r >= 0 { seq![r] } else { Seq::empty() };
        assert forall|m: int| 0 <= m < (a + b).len() implies 0 <= #[trigger] (a + b)[m] < names.len() by {
            if m < a.len() {
                assert((a + b)[m] == a[m]);
            }
        }
    }
}

proof fn lemma_dep_edges_range(ts: Seq<SpecTypeDef>, x: int)
    ensures
        forall|m: int| 0 <= m < dep_edges(ts, x).len() ==> 0 <= #[trigger] dep_edges(ts, x)[m] < ts.len(),
{
    lemma_resolve_all_range(type_names_of(ts), td_deps(ts[x]));
}

proof fn lemma_occ_concat(a: Seq<int>, b: Seq<int>, d: int)
    ensures
        occ(a + b, d) == occ(a, d) + occ(b, d),
    decreases b.len(),
{
    if b.len() == 0 {
        assert(a + b =~= a);
    } else {
        lemma_occ_concat(a, b.drop_last(), d);
        assert((a + b).drop_last() =~= a + b.drop_last());
    }
}

proof fn lemma_occ_tail(e: Seq<int>, k: int, d: int)
    requires
        0 <= k < e.len(),
    ensures
        occ(e.subrange(k, e.len() as int), d) == (if e[k] == d { 1nat } else { 0nat }) + occ(e.subrange(k + 1, e.len() as int), d),
{
    let s = e.subrange(k, e.len() as int);
    let one: Seq<int> = seq![e[k]];
    let rest = e.subrange(k + 1, e.len() as int);
    assert(s =~= one + rest);
    lemma_occ_concat(one, rest, d);
    assert(one.drop_last() =~= Seq::<int>::empty());
    assert(one.last() == e[k]);
    assert(occ(Seq::<int>::empty(), d) == 0);
    assert(occ(one, d) == (if e[k] == d { 1nat } else { 0nat }));
}

proof fn lemma_pending_mark(e: Seq<int>, done: Seq<bool>, d: int)
    requires
        0 <= d < done.len(),
        !done[d],
        forall|m: int| 0 <= m < e.len() ==> 0 <= #[trigger] e[m] < done.len(),
    ensures
        pending(e, done) == pending(e, done.update(d, true)) + occ(e, d),
    decreases e.len(),
{
    if e.len() > 0 {
        lemma_pending_mark(e.drop_last(), done, d);
    }
}

proof fn lemma_pending_zero(e: Seq<int>, done: Seq<bool>)
    requires
        pending(e, done) == 0,
    ensures
        forall|m: int| 0 <= m < e.len() ==> done[#[trigger] e[m]],
    decreases e.len(),
{
    if e.len() > 0 {
        lemma_pending_zero(e.drop_last(), done);
        assert forall|m: int| 0 <= m < e.len() implies done[#[trigger] e[m]] by {
            if m < e.len() - 1 {
                assert(e.drop_last()[m] == e[m]);
            }
        }
    }
}

proof fn lemma_pending_positive(e: Seq<int>, done: Seq<bool>)
    requires
        pending(e, done) > 0,
    ensures
        exists|m: int| 0 <= m < e.len() && !done[#[trigger] e[m]],
    decreases e.len(),
{
    if e.len() > 0 {
        if !done[e.last()] {
            assert(!done[e[e.len() - 1]]);
        } else {
            lemma_pending_positive(e.drop_last(), done);
            let m = choose|m: int| 0 <= m < e.drop_last().len() && !done[#[trigger] e.drop_last()[m]];
            assert(e.drop_last()[m] == e[m]);
        }
    }
}

proof fn lemma_pending_none_done(e: Seq<int>, done: Seq<bool>)
    requires
        forall|m: int| 0 <= m < e.len() ==> !done[#[trigger] e[m]],
    ensures
        pending(e, done) == e.len(),
    decreases e.len(),
{
    if e.len() > 0 {
        assert forall|m: int| 0 <= m < e.drop_last().len() implies !done[#[trigger] e.drop_last()[m]] by {
            assert(e.drop_last()[m] == e[m]);
        }
        lemma_pending_none_done(e.drop_last(), done);
        assert(!done[e[e.len() - 1]]);
    }
}

proof fn lemma_count_true_mark(s: Seq<bool>, i: int)
    requires
        0 <= i < s.len(),
        !s[i],
    ensures
        count_true(s.update(i, true)) == count_true(s) + 1,
    decreases s.len(),
{
    if i < s.len() - 1 {
        lemma_count_true_mark(s.drop_last(), i);
        assert(s.update(i, true).drop_last() =~= s.drop_last().update(i, true));
    } else {
        assert(s.update(i, true).drop_last() =~= s.drop_last());
    }
}

proof fn lemma_count_true_bound(s: Seq<bool>)
    ensures
        count_true(s) <= s.len(),
        (exists|i: int| 0 <= i < s.len() && !s[i]) ==> count_true(s) < s.len(),
    decreases s.len(),
{
    if s.len() > 0 {
        lemma_count_true_bound(s.drop_last());
        if exists|i: int| 0 <= i < s.len() && !s[i] {
            let i = choose|i: int| 0 <= i < s.len() && !s[i];
            if i < s.len() - 1 {
                assert(!s.drop_last()[i]);
            }
        }
    }
}

proof fn lemma_grounded_mono(ts: Seq<SpecTypeDef>, x: int, k: nat)
    requires
        grounded_within(ts, x, k),
    ensures
        grounded_within(ts, x, k + 1),
    decreases k,
{
    if k > 0 {
        assert forall|m: int| 0 <= m < dep_edges(ts, x).len() implies grounded_within(ts, #[trigger] dep_edges(ts, x)[m], k) by {
            lemma_grounded_mono(ts, dep_edges(ts, x)[m], (k - 1) as nat);
        }
    }
}

proof fn lemma_grounded_mono_le(ts: Seq<SpecTypeDef>, x: int, k: nat, k2: nat)
    requires
        grounded_within(ts, x, k),
        k <= k2,
    ensures
        grounded_within(ts, x, k2),
    decreases k2 - k,
{
    if k < k2 {
        lemma_grounded_mono(ts, x, k);
        lemma_grounded_mono_le(ts, x, k + 1, k2);
    }
}

/// Definitions listed in an order where each comes after its dependencies
/// are all grounded.
proof fn lemma_order_grounded(ts: Seq<SpecTypeDef>, order: Seq<int>, p: int)
    requires
        0 <= p < order.len(),
        deps_before(ts, order),
    ensures
        grounded_within(ts, order[p], (p + 1) as nat),
    decreases p,
{
    let x = order[p];
    assert forall|m: int| 0 <= m < dep_edges(ts, x).len() implies grounded_within(ts, #[trigger] dep_edges(ts, x)[m], p as nat) by {
        assert(dep_edges(ts, order[p])[m] == dep_edges(ts, x)[m]);
        let q = choose|q: int| 0 <= q < p && #[trigger] order[q] == dep_edges(ts, order[p])[m];
        lemma_order_grounded(ts, order, q);
        lemma_grounded_mono_le(ts, order[q], (q + 1) as nat, p as nat);
    }
}

/// Definitions each of which depends on some member of a set are not grounded.
proof fn lemma_stuck_not_grounded(ts: Seq<SpecTypeDef>, stuck: Seq<bool>, x: int, k: nat)
    requires
        stuck.len() == ts.len(),
        0 <= x < ts.len(),
        stuck[x],
        forall|y: int| 0 <= y < ts.len() && #[trigger] stuck[y] ==>
            exists|m: int| 0 <= m < dep_edges(ts, y).len() && stuck[#[trigger] dep_edges(ts, y)[m]],
    ensures
        !grounded_within(ts, x, k),
    decreases k,
{
    if k > 0 {
        let m = choose|m: int| 0 <= m < dep_edges(ts, x).len() && stuck[#[trigger] dep_edges(ts, x)[m]];
        lemma_dep_edges_range(ts, x);
        lemma_stuck_not_grounded(ts, stuck, dep_edges(ts, x)[m], (k - 1) as nat);
    }
}


proof fn lemma_count_true_none(s: Seq<bool>)
    requires
        forall|i: int| 0 <= i < s.len() ==> !s[i],
    ensures
        count_true(s) == 0,
    decreases s.len(),
{
    if s.len() > 0 {
        assert forall|i: int| 0 <= i < s.drop_last().len() implies !s.drop_last()[i] by {
            assert(s.drop_last()[i] == s[i]);
        }
        lemma_count_true_none(s.drop_last());
    }
}

proof fn lemma_all_done(s: Seq<bool>, c: nat)
    requires
        count_true(s) == c,
        c == s.len(),
    ensures
        forall|i: int| 0 <= i < s.len() ==> s[i],
{
    lemma_count_true_bound(s);
}

proof fn lemma_count_true_all_contra(s: Seq<bool>)
    requires
        count_true(s) < s.len(),
    ensures
        exists|i: int| 0 <= i < s.len() && !s[i],
{
    if forall|i: int| 0 <= i < s.len() ==> s[i] {
        lemma_count_true_all(s);
    }
}

proof fn lemma_count_true_all(s: Seq<bool>)
    requires
        forall|i: int| 0 <= i < s.len() ==> s[i],
    ensures
        count_true(s) == s.len(),
    decreases s.len(),
{
    if s.len() > 0 {
        assert forall|i: int| 0 <= i < s.drop_last().len() implies s.drop_last()[i] by {
            assert(s.drop_last()[i] == s[i]);
        }
        lemma_count_true_all(s.drop_last());
    }
}

// ---------------------------------------------------------------------------
// Topological sorting
// ---------------------------------------------------------------------------

/// The models of a sequence of type definitions.
pub open spec fn tdefs_view(s: Seq<TypeDef>) -> Seq<SpecTypeDef> {
    s.map_values(|t: TypeDef| t@)
}

/// Every definition is grounded.
pub open spec fn all_grounded(ts: Seq<SpecTypeDef>) -> bool {
    forall|x: int| 0 <= x < ts.len() ==> grounded(ts, x)
}

/// `out` holds the definitions `ts` rearranged so that each comes after the
/// definitions it depends on.
pub open spec fn is_topo_arrangement(ts: Seq<SpecTypeDef>, out: Seq<SpecTypeDef>) -> bool {
    exists|order: Seq<int>| #[trigger] is_topo_order(ts, order) && out.len() == order.len()
        && forall|k: int| 0 <= k < order.len() ==> #[trigger] out[k] == ts[order[k]]
}

/// The positions `usize` values stand for.
pub open spec fn ints(s: Seq<usize>) -> Seq<int> {
    s.map_values(|x: usize| x as int)
}

/// The definitions among the first `upto` that wait for nothing once `idx`
/// is placed, in ascending order: those that refer to `idx` and whose
/// waiting count `deg` is just their number of references to it.
pub open spec fn released(ts: Seq<SpecTypeDef>, deg: Seq<int>, idx: int, upto: int) -> Seq<int>
    decreases upto,
{
    if upto <= 0 {
        Seq::empty()
    } else {
        let j = upto - 1;
        let o = occ(dep_edges(ts, j), idx) as int;
        released(ts, deg, idx, j) + if o > 0 && deg[j] == o { seq![j] } else { Seq::empty() }
    }
}

/// The definitions among the first `upto` that wait for nothing at the
/// start, in ascending order.
pub open spec fn initially_free(ts: Seq<SpecTypeDef>, upto: int) -> Seq<int>
    decreases upto,
{
    if upto <= 0 {
        Seq::empty()
    } else {
        initially_free(ts, upto - 1) + if dep_edges(ts, upto - 1).len() == 0 { seq![upto - 1] } else { Seq::empty() }
    }
}

/// One step of the ordering, on a stack of definitions that wait for
/// nothing, the waiting counts, and the order so far: the definition on top
/// of the stack is placed, the counts of the definitions that refer to it
/// are lowered, and those that now wait for nothing are pushed in
/// ascending order.
pub open spec fn order_step(ts: Seq<SpecTypeDef>, st: (Seq<int>, Seq<int>, Seq<int>)) -> (Seq<int>, Seq<int>, Seq<int>) {
    let idx = st.0.last();
    (
        st.0.drop_last() + released(ts, st.1, idx, ts.len() as int),
        Seq::new(st.1.len(), |j: int| st.1[j] - occ(dep_edges(ts, j), idx) as int),
        st.2.push(idx),
    )
}

/// The order reached from `st` after at most `fuel` steps, stopping when the
/// stack is empty.
pub open spec fn order_run(ts: Seq<SpecTypeDef>, st: (Seq<int>, Seq<int>, Seq<int>), fuel: nat) -> Seq<int>
    decreases fuel,
{
    if fuel == 0 || st.0.len() == 0 {
        st.2
    } else {
        order_run(ts, order_step(ts, st), (fuel - 1) as nat)
    }
}

/// The positions of the definitions in the order in which they are placed:
/// starting from the definitions that wait for nothing, each waiting count
/// being the number of references to other definitions.
pub open spec fn placement_order(ts: Seq<SpecTypeDef>) -> Seq<int> {
    order_run(
        ts,
        (initially_free(ts, ts.len() as int), Seq::new(ts.len(), |j: int| dep_edges(ts, j).len() as int), Seq::empty()),
        ts.len(),
    )
}

/// The definitions `ts` in the order in which they are placed.
pub open spec fn placed(ts: Seq<SpecTypeDef>) -> Seq<SpecTypeDef> {
    placement_order(ts).map_values(|k: int| ts[k])
}

/// The error reported for definitions that cannot be ordered: the names of
/// all definitions that are not grounded, in their original order.
pub open spec fn circular_error(ts: Seq<SpecTypeDef>) -> SpecWdsmError {
    SpecWdsmError::CircularReference { chain: join(stuck_names(ts, ts.len() as int), " → "@) }
}

/// The last definition called `name`.
fn resolve_name(types: &[TypeDef], name: &str) -> (r: Option<usize>)
    ensures
        match r {
            Some(i) => last_index_of(type_names_of(tdefs_view(types@)), name@) == i as int,
            None => last_index_of(type_names_of(tdefs_view(types@)), name@) == -1,
        },
{
    let ghost names = type_names_of(tdefs_view(types@));
    proof {
        lemma_last_index_of(names, name@);
    }
    let mut i = types.len();
    while i > 0
        invariant
            i <= types@.len(),
            names == type_names_of(tdefs_view(types@)),
            names.len() == types@.len(),
            forall|j: int| i <= j < types@.len() ==> names[j] != name@,
        decreases i,
    {
        if str_eq(types[i - 1].name(), name) {
            proof {
                lemma_last_index_of(names, name@);
                let l = last_index_of(names, name@);
                assert(names[i - 1] == name@);
                if l > i - 1 {
                    assert(names[l] == name@);
                }
            }
            return Some(i - 1);
        }
        i = i - 1;
    }
    proof {
        let l = last_index_of(names, name@);
        if l >= 0 {
            assert(names[l] == name@);
        }
    }
    None
}

/// The definitions that definition `x` depends on.
fn resolve_deps(types: &[TypeDef], x: usize) -> (r: Vec<usize>)
    requires
        x < types@.len(),
    ensures
        r@.len() == dep_edges(tdefs_view(types@), x as int).len(),
        forall|m: int| 0 <= m < r@.len() ==> #[trigger] r@[m] as int == dep_edges(tdefs_view(types@), x as int)[m],
{
    let ghost tv = tdefs_view(types@);
    let ghost names = type_names_of(tv);
    let deps = types[x].dependencies();
    let ghost dv = td_deps(tv[x as int]);
    assert(crate::text::strs_view(deps@) == dv);
    let mut r: Vec<usize> = Vec::new();
    let mut i: usize = 0;
    while i < deps.len()
        invariant
            i <= deps@.len(),
            tv == tdefs_view(types@),
            names == type_names_of(tv),
            crate::text::strs_view(deps@) == dv,
            r@.len() == resolve_all(names, dv.subrange(0, i as int)).len(),
            forall|m: int| 0 <= m < r@.len() ==> #[trigger] r@[m] as int == resolve_all(names, dv.subrange(0, i as int))[m],
        decreases deps.len() - i,
    {
        assert(dv.subrange(0, i + 1).drop_last() =~= dv.subrange(0, i as int));
        assert(dv[i as int] == deps@[i as int]@);
        let ghost before = resolve_all(names, dv.subrange(0, i as int));
        match resolve_name(types, deps[i]) {
            Some(d) => {
                r.push(d);
                assert(resolve_all(names, dv.subrange(0, i + 1)) =~= before.push(d as int));
            },
            None => {
                assert(resolve_all(names, dv.subrange(0, i + 1)) =~= before);
            },
        }
        i = i + 1;
    }
    assert(dv.subrange(0, dv.len() as int) =~= dv);
    r
}

/// Copies of all definitions, in order.
fn duplicate_all(types: &[TypeDef]) -> (r: Vec<TypeDef>)
    ensures
        tdefs_view(r@) == tdefs_view(types@),
{
    let mut r: Vec<TypeDef> = Vec::new();
    let mut i: usize = 0;
    while i < types.len()
        invariant
            i <= types@.len(),
            r@.len() == i,
            forall|k: int| 0 <= k < i ==> #[trigger] r@[k]@ == types@[k]@,
        decreases types.len() - i,
    {
        r.push(types[i].duplicate());
        i = i + 1;
    }
    assert(tdefs_view(r@) =~= tdefs_view(types@));
    r
}

/// The exec edge lists are the dependency edges of the definitions.
pub open spec fn edges_match(edge_lists: Seq<Vec<usize>>, ts: Seq<SpecTypeDef>) -> bool {
    &&& edge_lists.len() == ts.len()
    &&& forall|j: int| 0 <= j < ts.len() ==> #[trigger] edge_lists[j]@.len() == dep_edges(ts, j).len()
    &&& forall|j: int, m: int| 0 <= j < ts.len() && 0 <= m < edge_lists[j]@.len() ==>
            #[trigger] edge_lists[j]@[m] as int == dep_edges(ts, j)[m]
    &&& forall|j: int, m: int| 0 <= j < ts.len() && 0 <= m < dep_edges(ts, j).len() ==>
            0 <= #[trigger] dep_edges(ts, j)[m] < ts.len()
}

/// The queue holds exactly the definitions not yet placed that wait for nothing, once each.
pub open spec fn queue_ok(queue: Seq<usize>, in_deg: Seq<usize>, done: Seq<bool>) -> bool {
    &&& forall|q: int| 0 <= q < queue.len() ==> #[trigger] queue[q] < in_deg.len() && !done[queue[q] as int] && in_deg[queue[q] as int] == 0
    &&& forall|q1: int, q2: int| 0 <= q1 < q2 < queue.len() ==> queue[q1] != queue[q2]
    &&& forall|j: int| 0 <= j < in_deg.len() && !done[j] && #[trigger] in_deg[j] == 0 ==>
            exists|q: int| 0 <= q < queue.len() && queue[q] == j
    &&& forall|j: int| 0 <= j < in_deg.len() && #[trigger] done[j] ==> in_deg[j] == 0
}

/// Lowers the waiting count of definition `j`, whose dependency edges are
/// `edges_j`, once for each of its references to the definition `idx` just
/// placed, queueing `j` when it has nothing left to wait for.
fn release_one(
    edges_j: &Vec<usize>,
    j: usize,
    idx: usize,
    in_deg: &mut Vec<usize>,
    queue: &mut Vec<usize>,
    Ghost(e): Ghost<Seq<int>>,
    Ghost(done): Ghost<Seq<bool>>,
    Ghost(base): Ghost<nat>,
)
    requires
        j < old(in_deg)@.len(),
        done.len() == old(in_deg)@.len(),
        edges_j@.len() == e.len(),
        forall|m: int| 0 <= m < e.len() ==> #[trigger] edges_j@[m] as int == e[m],
        old(in_deg)@[j as int] as int == base + occ(e, idx as int),
        queue_ok(old(queue)@, old(in_deg)@, done),
    ensures
        final(in_deg)@.len() == old(in_deg)@.len(),
        final(in_deg)@[j as int] as int == base,
        forall|j2: int| 0 <= j2 < old(in_deg)@.len() && j2 != j ==> #[trigger] final(in_deg)@[j2] == old(in_deg)@[j2],
        queue_ok(final(queue)@, final(in_deg)@, done),
        final(queue)@ == old(queue)@ + if base == 0 && old(in_deg)@[j as int] != 0 { seq![j] } else { Seq::empty() },
{
    let len = edges_j.len();
    let mut k: usize = 0;
    assert(e.subrange(0, len as int) =~= e);
    while k < len
        invariant
            len == e.len(),
            edges_j@.len() == e.len(),
            forall|m: int| 0 <= m < e.len() ==> #[trigger] edges_j@[m] as int == e[m],
            j < in_deg@.len(),
            in_deg@.len() == old(in_deg)@.len(),
            done.len() == in_deg@.len(),
            k <= len,
            in_deg@[j as int] as int == base + occ(e.subrange(k as int, len as int), idx as int),
            forall|j2: int| 0 <= j2 < in_deg@.len() && j2 != j ==> #[trigger] in_deg@[j2] == old(in_deg)@[j2],
            queue_ok(queue@, in_deg@, done),
            in_deg@[j as int] <= old(in_deg)@[j as int],
            queue@ == old(queue)@ + if in_deg@[j as int] == 0 && old(in_deg)@[j as int] != 0 { seq![j] } else { Seq::empty() },
        decreases len - k,
    {
        proof {
            lemma_occ_tail(e, k as int, idx as int);
        }
        if edges_j[k] == idx {
            let cur = in_deg[j];
            let ghost q0 = queue@;
            let ghost d0 = in_deg@;
            in_deg.set(j, cur - 1);
            if cur - 1 == 0 {
                queue.push(j);
                proof {
                    assert(queue@[queue@.len() - 1] == j);
                    assert(!done[j as int]);
                }
            }
            proof {
                assert forall|q: int| 0 <= q < q0.len() implies #[trigger] q0[q] != j by {
                    assert(d0[q0[q] as int] == 0);
                }
                assert forall|q: int| 0 <= q < queue@.len() implies #[trigger] queue@[q] < in_deg@.len()
                    && !done[queue@[q] as int] && in_deg@[queue@[q] as int] == 0 by {
                    if q < q0.len() {
                        assert(queue@[q] == q0[q]);
                    }
                }
                assert forall|j2: int| 0 <= j2 < in_deg@.len() && !done[j2] && #[trigger] in_deg@[j2] == 0 implies
                    exists|q: int| 0 <= q < queue@.len() && queue@[q] == j2 by {
                    if j2 != j {
                        assert(d0[j2] == 0);
                        let q = choose|q: int| 0 <= q < q0.len() && q0[q] == j2;
                        assert(queue@[q] == j2);
                    } else {
                        assert(queue@[queue@.len() - 1] == j);
                    }
                }
            }
        }
        k = k + 1;
    }
    assert(e.subrange(len as int, len as int) =~= Seq::<int>::empty());
}

/// Lowers the waiting counts of all definitions after definition `idx` was placed.
fn release_all(
    edge_lists: &Vec<Vec<usize>>,
    idx: usize,
    in_deg: &mut Vec<usize>,
    queue: &mut Vec<usize>,
    Ghost(ts): Ghost<Seq<SpecTypeDef>>,
    Ghost(done): Ghost<Seq<bool>>,
)
    requires
        edges_match(edge_lists@, ts),
        old(in_deg)@.len() == ts.len(),
        done.len() == ts.len(),
        forall|j: int| 0 <= j < ts.len() ==> #[trigger] old(in_deg)@[j] as int == pending(dep_edges(ts, j), done) + occ(dep_edges(ts, j), idx as int),
        queue_ok(old(queue)@, old(in_deg)@, done),
    ensures
        final(in_deg)@.len() == ts.len(),
        forall|j: int| 0 <= j < ts.len() ==> #[trigger] final(in_deg)@[j] as int == pending(dep_edges(ts, j), done),
        queue_ok(final(queue)@, final(in_deg)@, done),
        ints(final(queue)@) == ints(old(queue)@) + released(ts, ints(old(in_deg)@), idx as int, ts.len() as int),
{
    let n = edge_lists.len();
    let mut j: usize = 0;
    while j < n
        invariant
            n == ts.len(),
            edges_match(edge_lists@, ts),
            in_deg@.len() == n,
            done.len() == n,
            j <= n,
            forall|j2: int| 0 <= j2 < j ==> #[trigger] in_deg@[j2] as int == pending(dep_edges(ts, j2), done),
            forall|j2: int| j <= j2 < n ==> #[trigger] in_deg@[j2] as int == pending(dep_edges(ts, j2), done) + occ(dep_edges(ts, j2), idx as int),
            queue_ok(queue@, in_deg@, done),
            old(in_deg)@.len() == n,
            forall|j2: int| j <= j2 < n ==> #[trigger] in_deg@[j2] == old(in_deg)@[j2],
            ints(queue@) == ints(old(queue)@) + released(ts, ints(old(in_deg)@), idx as int, j as int),
        decreases n - j,
    {
        let ghost e = dep_edges(ts, j as int);
        let ghost q0 = queue@;
        let ghost d0 = in_deg@;
        assert(in_deg@[j as int] as int == pending(e, done) + occ(e, idx as int));
        release_one(&edge_lists[j], j, idx, in_deg, queue, Ghost(e), Ghost(done), Ghost(pending(e, done)));
        proof {
            let od = ints(old(in_deg)@);
            assert(d0[j as int] == old(in_deg)@[j as int]);
            assert(od[j as int] == old(in_deg)@[j as int] as int);
            assert(ints(queue@) =~= ints(q0) + if pending(e, done) == 0 && d0[j as int] != 0 { seq![j as int] } else { Seq::<int>::empty() });
            assert(released(ts, od, idx as int, j + 1) == released(ts, od, idx as int, j as int)
                + if occ(e, idx as int) > 0 && od[j as int] == occ(e, idx as int) as int { seq![j as int] } else { Seq::<int>::empty() });
            assert(ints(queue@) =~= ints(old(queue)@) + released(ts, od, idx as int, j + 1));
        }
        j = j + 1;
    }
}

/// The dependency edges of every definition.
fn all_edges(types: &[TypeDef]) -> (r: Vec<Vec<usize>>)
    ensures
        edges_match(r@, tdefs_view(types@)),
{
    let ghost tv = tdefs_view(types@);
    let n = types.len();
    let mut edge_lists: Vec<Vec<usize>> = Vec::new();
    let mut i: usize = 0;
    while i < n
        invariant
            n == types@.len(),
            tv == tdefs_view(types@),
            i <= n,
            edge_lists@.len() == i,
            forall|j: int| 0 <= j < i ==> #[trigger] edge_lists@[j]@.len() == dep_edges(tv, j).len(),
            forall|j: int, m: int| 0 <= j < i && 0 <= m < edge_lists@[j]@.len() ==> #[trigger] edge_lists@[j]@[m] as int == dep_edges(tv, j)[m],
        decreases n - i,
    {
        edge_lists.push(resolve_deps(types, i));
        i = i + 1;
    }
    assert forall|j: int, m: int| 0 <= j < n && 0 <= m < dep_edges(tv, j).len() implies 0 <= #[trigger] dep_edges(tv, j)[m] < n by {
        lemma_dep_edges_range(tv, j);
    }
    edge_lists
}

/// The initial waiting counts (one per dependency edge) and the queue of
/// definitions that wait for nothing, in ascending order.
fn initial_state(edge_lists: &Vec<Vec<usize>>, Ghost(ts): Ghost<Seq<SpecTypeDef>>) -> (r: (Vec<usize>, Vec<usize>))
    requires
        edges_match(edge_lists@, ts),
    ensures
        r.0@.len() == ts.len(),
        forall|j: int| 0 <= j < ts.len() ==> #[trigger] r.0@[j] as int == pending(dep_edges(ts, j), Seq::new(ts.len(), |x: int| false)),
        queue_ok(r.1@, r.0@, Seq::new(ts.len(), |x: int| false)),
        forall|j: int| 0 <= j < ts.len() ==> #[trigger] r.0@[j] as int == dep_edges(ts, j).len(),
        ints(r.1@) == initially_free(ts, ts.len() as int),
{
    let n = edge_lists.len();
    let ghost done: Seq<bool> = Seq::new(ts.len(), |x: int| false);
    let mut in_deg: Vec<usize> = Vec::new();
    let mut i: usize = 0;
    while i < n
        invariant
            n == ts.len(),
            edges_match(edge_lists@, ts),
            done == Seq::new(ts.len(), |x: int| false),
            i <= n,
            in_deg@.len() == i,
            forall|j: int| 0 <= j < i ==> #[trigger] in_deg@[j] as int == pending(dep_edges(ts, j), done),
            forall|j: int| 0 <= j < i ==> #[trigger] in_deg@[j] as int == dep_edges(ts, j).len(),
        decreases n - i,
    {
        proof {
            let e = dep_edges(ts, i as int);
            assert forall|m: int| 0 <= m < e.len() implies !done[#[trigger] e[m]] by {
                assert(0 <= e[m] < n);
            }
            lemma_pending_none_done(e, done);
        }
        in_deg.push(edge_lists[i].len());
        i = i + 1;
    }
    let mut queue: Vec<usize> = Vec::new();
    let mut i: usize = 0;
    while i < n
        invariant
            n == in_deg@.len(),
            n == done.len(),
            done == Seq::new(ts.len(), |x: int| false),
            i <= n,
            forall|q: int| 0 <= q < queue@.len() ==> #[trigger] queue@[q] < i && in_deg@[queue@[q] as int] == 0,
            forall|q1: int, q2: int| 0 <= q1 < q2 < queue@.len() ==> queue@[q1] < queue@[q2],
            forall|j: int| 0 <= j < i && #[trigger] in_deg@[j] == 0 ==> exists|q: int| 0 <= q < queue@.len() && queue@[q] == j,
            forall|j: int| 0 <= j < n ==> #[trigger] in_deg@[j] as int == dep_edges(ts, j).len(),
            ints(queue@) == initially_free(ts, i as int),
        decreases n - i,
    {
        if in_deg[i] == 0 {
            let ghost q0 = queue@;
            queue.push(i);
            proof {
                assert(ints(queue@) =~= ints(q0) + seq![i as int]);
                assert(queue@[queue@.len() - 1] == i);
                assert forall|j: int| 0 <= j < i + 1 && #[trigger] in_deg@[j] == 0 implies
                    exists|q: int| 0 <= q < queue@.len() && queue@[q] == j by {
                    if j < i {
                        let q = choose|q: int| 0 <= q < q0.len() && q0[q] == j;
                        assert(queue@[q] == j);
                    }
                }
            }
        } else {
            assert(initially_free(ts, i + 1) =~= initially_free(ts, i as int));
        }
        i = i + 1;
    }
    (in_deg, queue)
}

/// Placing the definition on top of the stack `q0` with waiting counts `d0`
/// and then releasing the definitions that refer to it is one step of the
/// ordering.
proof fn lemma_step_matches(
    ts: Seq<SpecTypeDef>,
    q0: Seq<usize>,
    d0: Seq<usize>,
    o0: Seq<int>,
    q1: Seq<usize>,
    d1: Seq<usize>,
    idx: usize,
)
    requires
        q0.len() > 0,
        q0.last() == idx,
        d0.len() == ts.len(),
        d1.len() == ts.len(),
        ints(q1) == ints(q0.drop_last()) + released(ts, ints(d0), idx as int, ts.len() as int),
        forall|j: int| 0 <= j < ts.len() ==> #[trigger] d1[j] as int == d0[j] as int - occ(dep_edges(ts, j), idx as int),
    ensures
        (ints(q1), ints(d1), o0.push(idx as int)) == order_step(ts, (ints(q0), ints(d0), o0)),
{
    let st = order_step(ts, (ints(q0), ints(d0), o0));
    assert(ints(q0).last() == idx as int);
    assert(ints(q0.drop_last()) =~= ints(q0).drop_last());
    assert(ints(q1) =~= st.0);
    assert(ints(d1) =~= st.1);
}

/// Orders type definitions so that each comes after the definitions it
/// refers to, in the order in which [`placed`] places them.  A list of at
/// most one definition is returned as it is; a
/// longer list that cannot be ordered because of a circular reference is
/// refused, naming every definition that depends on the cycle.
#[verifier::rlimit(80)]
pub fn toposort(types: &[TypeDef]) -> (r: Result<Vec<TypeDef>, WdsmError>)
    ensures
        types@.len() <= 1 ==> (r matches Ok(v) && tdefs_view(v@) == tdefs_view(types@)),
        types@.len() > 1 ==> ((r is Ok) <==> all_grounded(tdefs_view(types@))),
        types@.len() > 1 ==> (r matches Ok(v) ==> is_topo_arrangement(tdefs_view(types@), tdefs_view(v@))),
        types@.len() > 1 ==> (r matches Ok(v) ==> tdefs_view(v@) == placed(tdefs_view(types@))),
        types@.len() > 1 ==> (r matches Err(e) ==> e@ == circular_error(tdefs_view(types@))),
{
    let n = types.len();
    if n <= 1 {
        return Ok(duplicate_all(types));
    }
    let ghost tv = tdefs_view(types@);
    let edge_lists = all_edges(types);
    let (mut in_deg, mut queue) = initial_state(&edge_lists, Ghost(tv));
    let ghost mut done: Seq<bool> = Seq::new(tv.len(), |x: int| false);
    let mut sorted: Vec<usize> = Vec::with_capacity(n);
    let ghost mut pos: Seq<int> = Seq::new(n as nat, |j: int| -1);
    let ghost mut order: Seq<int> = Seq::empty();
    proof {
        lemma_count_true_none(done);
        assert(ints(in_deg@) =~= Seq::new(tv.len(), |j: int| dep_edges(tv, j).len() as int));
        assert(order =~= Seq::<int>::empty());
    }
    while queue.len() > 0
        invariant
            n == types@.len(),
            n > 1,
            tv == tdefs_view(types@),
            edges_match(edge_lists@, tv),
            in_deg@.len() == n,
            done.len() == n,
            pos.len() == n,
            forall|j: int| 0 <= j < n ==> #[trigger] in_deg@[j] as int == pending(dep_edges(tv, j), done),
            queue_ok(queue@, in_deg@, done),
            order.len() == sorted@.len(),
            forall|p: int| 0 <= p < order.len() ==> #[trigger] order[p] == sorted@[p] as int,
            forall|p: int| 0 <= p < order.len() ==> 0 <= #[trigger] order[p] < n && done[order[p]] && pos[order[p]] == p,
            forall|j: int| 0 <= j < n && #[trigger] done[j] ==> 0 <= pos[j] < order.len() && order[pos[j]] == j,
            deps_before(tv, order),
            count_true(done) == order.len(),
            placement_order(tv) == order_run(tv, (ints(queue@), ints(in_deg@), order), (n - order.len()) as nat),
        decreases n - sorted@.len(),
    {
        let ghost q0 = queue@;
        let ghost d0 = in_deg@;
        let ghost o0 = order;
        let idx = match queue.pop() {
            Some(x) => x,
            None => 0,
        };
        proof {
            assert(idx == q0[q0.len() - 1]);
            assert(queue@ =~= q0.drop_last());
            let e = dep_edges(tv, idx as int);
            lemma_pending_zero(e, done);
            lemma_count_true_bound(done);
            lemma_count_true_mark(done, idx as int);
            let old_done = done;
            let old_order = order;
            assert forall|j: int| 0 <= j < n implies #[trigger] in_deg@[j] as int
                == pending(dep_edges(tv, j), old_done.update(idx as int, true)) + occ(dep_edges(tv, j), idx as int) by {
                lemma_pending_mark(dep_edges(tv, j), old_done, idx as int);
            }
            done = done.update(idx as int, true);
            pos = pos.update(idx as int, order.len() as int);
            order = order.push(idx as int);
            assert forall|p: int, m: int| #![trigger dep_edges(tv, order[p])[m]]
                0 <= p < order.len() && 0 <= m < dep_edges(tv, order[p]).len() implies
                exists|q: int| 0 <= q < p && #[trigger] order[q] == dep_edges(tv, order[p])[m] by {
                if p < old_order.len() {
                    let q = choose|q: int| 0 <= q < p && #[trigger] old_order[q] == dep_edges(tv, old_order[p])[m];
                    assert(order[q] == old_order[q]);
                } else {
                    let d = e[m];
                    assert(old_done[d]);
                    assert(order[pos[d]] == d);
                }
            }
            assert forall|q: int| 0 <= q < queue@.len() implies #[trigger] queue@[q] < in_deg@.len()
                && !done[queue@[q] as int] && in_deg@[queue@[q] as int] == 0 by {
                assert(queue@[q] == q0[q]);
                assert(q0[q] != q0[q0.len() - 1]);
            }
            assert forall|j: int| 0 <= j < in_deg@.len() && !done[j] && #[trigger] in_deg@[j] == 0 implies
                exists|q: int| 0 <= q < queue@.len() && queue@[q] == j by {
                let q = choose|q: int| 0 <= q < q0.len() && q0[q] == j;
                assert(q != q0.len() - 1);
                assert(queue@[q] == j);
            }
        }
        sorted.push(idx);
        let ghost q_mid = queue@;
        release_all(&edge_lists, idx, &mut in_deg, &mut queue, Ghost(tv), Ghost(done));
        proof {
            assert(q_mid == q0.drop_last());
            assert forall|j: int| 0 <= j < tv.len() implies #[trigger] in_deg@[j] as int == d0[j] as int - occ(dep_edges(tv, j), idx as int) by {
            }
            lemma_step_matches(tv, q0, d0, o0, queue@, in_deg@, idx);
            lemma_count_true_bound(done);
            assert(o0.len() < n);
            assert(order == o0.push(idx as int));
        }
    }

    proof {
        assert(placement_order(tv) == order);
    }
    if sorted.len() == n {
        let mut out: Vec<TypeDef> = Vec::new();
        let mut p: usize = 0;
        while p < n
            invariant
                n == types@.len(),
                tv == tdefs_view(types@),
                sorted@.len() == n,
                order.len() == n,
                forall|p2: int| 0 <= p2 < n ==> #[trigger] order[p2] == sorted@[p2] as int,
                forall|p2: int| 0 <= p2 < order.len() ==> 0 <= #[trigger] order[p2] < n && done[order[p2]] && pos[order[p2]] == p2,
                p <= n,
                out@.len() == p,
                forall|k: int| 0 <= k < p ==> #[trigger] out@[k]@ == tv[order[k]],
            decreases n - p,
        {
            let s = sorted[p];
            assert(order[p as int] == s as int);
            out.push(types[s].duplicate());
            p = p + 1;
        }
        proof {
            assert forall|p1: int, p2: int| 0 <= p1 < p2 < order.len() implies order[p1] != order[p2] by {
                assert(pos[order[p1]] == p1);
                assert(pos[order[p2]] == p2);
            }
            assert(is_topo_order(tv, order));
            assert forall|k: int| 0 <= k < order.len() implies #[trigger] tdefs_view(out@)[k] == tv[order[k]] by {}
            assert(is_topo_arrangement(tv, tdefs_view(out@)));
            assert(tdefs_view(out@) =~= placed(tv));
            lemma_all_done(done, order.len());
            assert forall|x: int| 0 <= x < tv.len() implies grounded(tv, x) by {
                assert(done[x]);
                let p = pos[x];
                lemma_order_grounded(tv, order, p);
                assert(grounded_within(tv, x, (p + 1) as nat));
            }
        }
        Ok(out)
    } else {
        let ghost stuck: Seq<bool> = Seq::new(n as nat, |j: int| !done[j]);
        proof {
            assert forall|j: int| 0 <= j < n implies (#[trigger] in_deg@[j] == 0 <==> done[j]) by {
                if in_deg@[j] == 0 && !done[j] {
                    let q = choose|q: int| 0 <= q < queue@.len() && queue@[q] == j;
                }
            }
            assert forall|y: int| 0 <= y < n && #[trigger] stuck[y] implies
                exists|m: int| 0 <= m < dep_edges(tv, y).len() && stuck[#[trigger] dep_edges(tv, y)[m]] by {
                assert(!done[y]);
                assert(in_deg@[y] != 0);
                lemma_pending_positive(dep_edges(tv, y), done);
                let m = choose|m: int| 0 <= m < dep_edges(tv, y).len() && !done[#[trigger] dep_edges(tv, y)[m]];
                assert(stuck[dep_edges(tv, y)[m]]);
            }
            assert forall|j: int| 0 <= j < n implies (#[trigger] grounded(tv, j) <==> done[j]) by {
                if done[j] {
                    let p = pos[j];
                    lemma_order_grounded(tv, order, p);
                    assert(grounded_within(tv, j, (p + 1) as nat));
                } else {
                    assert(stuck[j]);
                    assert forall|k: nat| !grounded_within(tv, j, k) by {
                        lemma_stuck_not_grounded(tv, stuck, j, k);
                    }
                }
            }
            lemma_count_true_bound(done);
            lemma_count_true_all_contra(done);
            let x = choose|x: int| 0 <= x < n && !done[x];
            assert(!grounded(tv, x));
        }
        let mut names: Vec<String> = Vec::new();
        let mut i: usize = 0;
        while i < n
            invariant
                n == types@.len(),
                tv == tdefs_view(types@),
                in_deg@.len() == n,
                done.len() == n,
                forall|j: int| 0 <= j < n ==> (#[trigger] in_deg@[j] == 0 <==> done[j]),
                forall|j: int| 0 <= j < n ==> (#[trigger] grounded(tv, j) <==> done[j]),
                i <= n,
                strings_view(names@) == stuck_names(tv, i as int),
            decreases n - i,
        {
            let ghost before = names@;
            if in_deg[i] > 0 {
                names.push(String::from_str(types[i].name()));
                assert(strings_view(names@) =~= strings_view(before).push(td_name(tv[i as int])));
            }
            i = i + 1;
            assert(strings_view(names@) =~= stuck_names(tv, i as int));
        }
        let chain = join_strings(&names, " → ");
        Err(WdsmError::CircularReference { chain })
    }
}


// ---------------------------------------------------------------------------
// Duplicate names
// ---------------------------------------------------------------------------

/// The key at position `i` already occurs before it.
#[verifier::opaque]
pub open spec fn dup_at(keys: Seq<Seq<char>>, i: int) -> bool {
    exists|j: int| 0 <= j < i && keys[j] == keys[i]
}

/// Some key occurs twice.
#[verifier::opaque]
pub open spec fn has_dup(keys: Seq<Seq<char>>) -> bool {
    exists|i: int| 0 <= i < keys.len() && dup_at(keys, i)
}

/// The first position whose key occurred before.
#[verifier::opaque]
pub open spec fn first_dup_pos(keys: Seq<Seq<char>>) -> int {
    choose|i: int| 0 <= i < keys.len() && dup_at(keys, i) && forall|k: int| 0 <= k < i ==> !dup_at(keys, k)
}

/// An earlier position holding the same key as position `i`.
#[verifier::opaque]
pub open spec fn first_match(keys: Seq<Seq<char>>, i: int) -> int {
    choose|j: int| 0 <= j < i && keys[j] == keys[i]
}

/// Finds the first repeated key and its earlier occurrence.
fn find_dup(keys: &Vec<&str>) -> (r: Option<(usize, usize)>)
    ensures
        (r is None) <==> !has_dup(crate::text::strs_view(keys@)),
        r matches Some((i, j)) ==> i as int == first_dup_pos(crate::text::strs_view(keys@))
            && j as int == first_match(crate::text::strs_view(keys@), i as int)
            && j < i && i < keys@.len(),
{
    let ghost kv = crate::text::strs_view(keys@);
    reveal(dup_at);
    reveal(has_dup);
    reveal(first_dup_pos);
    reveal(first_match);
    let mut i: usize = 0;
    while i < keys.len()
        invariant
            kv == crate::text::strs_view(keys@),
            i <= keys@.len(),
            forall|k: int| 0 <= k < i ==> !dup_at(kv, k),
        decreases keys.len() - i,
    {
        reveal(dup_at);
        let mut j: usize = 0;
        while j < i
            invariant
                kv == crate::text::strs_view(keys@),
                i < keys@.len(),
                j <= i,
                forall|k: int| 0 <= k < j ==> kv[k] != kv[i as int],
                forall|k: int| 0 <= k < i ==> !dup_at(kv, k),
            decreases i - j,
        {
            if str_eq(keys[j], keys[i]) {
                proof {
                    reveal(dup_at);
                    reveal(has_dup);
                    reveal(first_dup_pos);
                    reveal(first_match);
                    assert(kv[j as int] == kv[i as int]);
                    assert(dup_at(kv, i as int));
                    let fi = first_dup_pos(kv);
                    assert(0 <= fi < kv.len() && dup_at(kv, fi) && forall|k: int| 0 <= k < fi ==> !dup_at(kv, k));
                    if fi < i {
                    } else if fi > i {
                        assert(!dup_at(kv, i as int));
                    }
                    let fj = first_match(kv, i as int);
                    assert(0 <= fj < i && kv[fj] == kv[i as int]);
                    if fj != j {
                        if fj < j {
                        } else {
                            assert(kv[j as int] == kv[fj]);
                            assert(dup_at(kv, fj));
                        }
                    }
                }
                return Some((i, j));
            }
            j = j + 1;
        }
        i = i + 1;
    }
    None
}

/// Where a definition came from, as `file:line`.
pub open spec fn loc(s: crate::ir::SpecSourceSpan) -> Seq<char> {
    s.file + ":"@ + crate::text::decimal(s.line as nat)
}

fn loc_string(s: &crate::ir::SourceSpan) -> (r: String)
    ensures
        r@ == loc(s@),
{
    let mut r = s.file.clone();
    r.append(":");
    let l = crate::text::u64_to_decimal(s.line);
    r.append(l.as_str());
    r
}

/// The error for two definitions with the same name, if there are any.
pub open spec fn dup_type_error(ts: Seq<SpecTypeDef>) -> Option<SpecWdsmError> {
    let names = type_names_of(ts);
    if has_dup(names) {
        let i = first_dup_pos(names);
        let j = first_match(names, i);
        Some(SpecWdsmError::DuplicateType {
            name: names[i],
            first: loc(crate::ir::td_source(ts[j])),
            second: loc(crate::ir::td_source(ts[i])),
        })
    } else {
        None
    }
}

fn type_name_keys(types: &Vec<TypeDef>) -> (keys: Vec<&str>)
    ensures
        crate::text::strs_view(keys@) == type_names_of(tdefs_view(types@)),
        keys@.len() == types@.len(),
{
    let mut keys: Vec<&str> = Vec::new();
    let mut i: usize = 0;
    while i < types.len()
        invariant
            i <= types@.len(),
            keys@.len() == i,
            forall|k: int| 0 <= k < i ==> #[trigger] keys@[k]@ == td_name(types@[k]@),
        decreases types.len() - i,
    {
        keys.push(types[i].name());
        i = i + 1;
    }
    assert(crate::text::strs_view(keys@) =~= type_names_of(tdefs_view(types@)));
    keys
}

fn check_unique_type(types: &Vec<TypeDef>) -> (r: Result<(), WdsmError>)
    ensures
        r is Ok ==> dup_type_error(tdefs_view(types@)) is None,
        r matches Err(e) ==> dup_type_error(tdefs_view(types@)) == Some(e@),
{
    let keys = type_name_keys(types);
    match find_dup(&keys) {
        None => Ok(()),
        Some((i, j)) => {
            let ghost tv = tdefs_view(types@);
            let first = loc_string(types[j].source());
            let second = loc_string(types[i].source());
            let name = String::from_str(keys[i]);
            assert(tv[i as int] == types@[i as int]@);
            assert(tv[j as int] == types@[j as int]@);
            Err(WdsmError::DuplicateType { name, first, second })
        },
    }
}

/// The WIT names of record fields.
pub open spec fn field_keys(fs: Seq<crate::ir::SpecFieldDef>) -> Seq<Seq<char>> {
    fs.map_values(|f: crate::ir::SpecFieldDef| f.wit_name)
}

/// The error for a record holding two fields with the same WIT name, if `td` is one.
pub open spec fn record_dup_error(td: SpecTypeDef) -> Option<SpecWdsmError> {
    match td {
        SpecTypeDef::Record(r) => if has_dup(field_keys(r.fields)) {
            Some(SpecWdsmError::DuplicateField {
                record: r.name,
                field: r.fields[first_dup_pos(field_keys(r.fields))].name,
            })
        } else {
            None
        },
        _ => None,
    }
}

/// The error for the first record holding two fields with the same WIT name.
pub open spec fn dup_field_error(ts: Seq<SpecTypeDef>) -> Option<SpecWdsmError>
    decreases ts.len(),
{
    if ts.len() == 0 {
        None
    } else {
        match dup_field_error(ts.drop_last()) {
            Some(e) => Some(e),
            None => record_dup_error(ts.last()),
        }
    }
}

proof fn lemma_dup_field_error_prefix(ts: Seq<SpecTypeDef>, k: int)
    requires
        0 <= k <= ts.len(),
        dup_field_error(ts.subrange(0, k)) is Some,
    ensures
        dup_field_error(ts) == dup_field_error(ts.subrange(0, k)),
    decreases ts.len() - k,
{
    if k < ts.len() {
        assert(ts.subrange(0, k + 1).drop_last() =~= ts.subrange(0, k));
        lemma_dup_field_error_prefix(ts, k + 1);
    } else {
        assert(ts.subrange(0, k) =~= ts);
    }
}

/// The error for a record holding two fields with the same WIT name, if it does.
fn check_record_fields(rec: &crate::ir::RecordDef) -> (r: Result<(), WdsmError>)
    ensures
        r is Ok ==> record_dup_error(SpecTypeDef::Record(rec@)) is None,
        r matches Err(e) ==> record_dup_error(SpecTypeDef::Record(rec@)) == Some(e@),
{
    let ghost fv = rec@.fields;
    let mut keys: Vec<&str> = Vec::new();
    let mut i: usize = 0;
    while i < rec.fields.len()
        invariant
            fv == rec@.fields,
            i <= rec.fields@.len(),
            keys@.len() == i,
            forall|k: int| 0 <= k < i ==> #[trigger] keys@[k]@ == fv[k].wit_name,
        decreases rec.fields.len() - i,
    {
        keys.push(rec.fields[i].wit_name.as_str());
        i = i + 1;
    }
    assert(crate::text::strs_view(keys@) =~= field_keys(fv));
    if let Some((i, _j)) = find_dup(&keys) {
        assert(fv[i as int] == rec.fields@[i as int]@);
        return Err(WdsmError::DuplicateField { record: rec.name.clone(), field: rec.fields[i].name.clone() });
    }
    Ok(())
}

fn check_unique_field(types: &Vec<TypeDef>) -> (r: Result<(), WdsmError>)
    ensures
        r is Ok ==> dup_field_error(tdefs_view(types@)) is None,
        r matches Err(e) ==> dup_field_error(tdefs_view(types@)) == Some(e@),
{
    let ghost tv = tdefs_view(types@);
    let mut t: usize = 0;
    while t < types.len()
        invariant
            tv == tdefs_view(types@),
            t <= types@.len(),
            dup_field_error(tv.subrange(0, t as int)) is None,
        decreases types.len() - t,
    {
        assert(tv.subrange(0, t + 1).drop_last() =~= tv.subrange(0, t as int));
        assert(tv[t as int] == types@[t as int]@);
        if let TypeDef::Record(rec) = &types[t] {
            let c = check_record_fields(rec);
            if let Err(e) = c {
                proof {
                    lemma_dup_field_error_prefix(tv, t + 1);
                }
                return Err(e);
            }
        }
        t = t + 1;
    }
    assert(tv.subrange(0, tv.len() as int) =~= tv);
    Ok(())
}

/// The WIT names of parameters.
pub open spec fn param_keys(ps: Seq<crate::ir::SpecParamDef>) -> Seq<Seq<char>> {
    ps.map_values(|p: crate::ir::SpecParamDef| p.wit_name)
}

/// The error for a function with two parameters of the same WIT name, if `f` is one.
pub open spec fn function_dup_error(f: crate::ir::SpecFunctionDef) -> Option<SpecWdsmError> {
    if has_dup(param_keys(f.params)) {
        Some(SpecWdsmError::DuplicateParam { function: f.name, param: f.params[first_dup_pos(param_keys(f.params))].name })
    } else {
        None
    }
}

/// The error for the first function with two parameters of the same WIT name.
pub open spec fn dup_param_error(fs: Seq<crate::ir::SpecFunctionDef>) -> Option<SpecWdsmError>
    decreases fs.len(),
{
    if fs.len() == 0 {
        None
    } else {
        match dup_param_error(fs.drop_last()) {
            Some(e) => Some(e),
            None => function_dup_error(fs.last()),
        }
    }
}

/// The models of a sequence of functions.
pub open spec fn funcs_view(s: Seq<crate::ir::FunctionDef>) -> Seq<crate::ir::SpecFunctionDef> {
    s.map_values(|f: crate::ir::FunctionDef| f@)
}

proof fn lemma_dup_param_error_prefix(fs: Seq<crate::ir::SpecFunctionDef>, k: int)
    requires
        0 <= k <= fs.len(),
        dup_param_error(fs.subrange(0, k)) is Some,
    ensures
        dup_param_error(fs) == dup_param_error(fs.subrange(0, k)),
    decreases fs.len() - k,
{
    if k < fs.len() {
        assert(fs.subrange(0, k + 1).drop_last() =~= fs.subrange(0, k));
        lemma_dup_param_error_prefix(fs, k + 1);
    } else {
        assert(fs.subrange(0, k) =~= fs);
    }
}

/// The error for a function with two parameters of the same WIT name, if it has them.
fn check_function_params(func: &crate::ir::FunctionDef) -> (r: Result<(), WdsmError>)
    ensures
        r is Ok ==> function_dup_error(func@) is None,
        r matches Err(e) ==> function_dup_error(func@) == Some(e@),
{
    let ghost pv = func@.params;
    let mut keys: Vec<&str> = Vec::new();
    let mut i: usize = 0;
    while i < func.params.len()
        invariant
            pv == func@.params,
            i <= func.params@.len(),
            keys@.len() == i,
            forall|k: int| 0 <= k < i ==> #[trigger] keys@[k]@ == pv[k].wit_name,
        decreases func.params.len() - i,
    {
        keys.push(func.params[i].wit_name.as_str());
        i = i + 1;
    }
    assert(crate::text::strs_view(keys@) =~= param_keys(pv));
    if let Some((i, _j)) = find_dup(&keys) {
        assert(pv[i as int] == func.params@[i as int]@);
        return Err(WdsmError::DuplicateParam { function: func.name.clone(), param: func.params[i].name.clone() });
    }
    Ok(())
}

fn check_unique_param(functions: &Vec<crate::ir::FunctionDef>) -> (r: Result<(), WdsmError>)
    ensures
        r is Ok ==> dup_param_error(funcs_view(functions@)) is None,
        r matches Err(e) ==> dup_param_error(funcs_view(functions@)) == Some(e@),
{
    let ghost fv = funcs_view(functions@);
    let mut t: usize = 0;
    while t < functions.len()
        invariant
            fv == funcs_view(functions@),
            t <= functions@.len(),
            dup_param_error(fv.subrange(0, t as int)) is None,
        decreases functions.len() - t,
    {
        assert(fv.subrange(0, t + 1).drop_last() =~= fv.subrange(0, t as int));
        assert(fv[t as int] == functions@[t as int]@);
        let c = check_function_params(&functions[t]);
        if let Err(e) = c {
            proof {
                lemma_dup_param_error_prefix(fv, t + 1);
            }
            return Err(e);
        }
        t = t + 1;
    }
    assert(fv.subrange(0, fv.len() as int) =~= fv);
    Ok(())
}


// ---------------------------------------------------------------------------
// WIT identifiers
// ---------------------------------------------------------------------------

/// The WIT names that a type definition introduces: its own, then its fields'.
pub open spec fn type_wit_names(td: SpecTypeDef) -> Seq<Seq<char>> {
    seq![crate::ir::td_wit_name(td)] + match td {
        SpecTypeDef::Record(r) => field_keys(r.fields),
        _ => Seq::empty(),
    }
}

/// The WIT names introduced by the definitions `ts`, in order.
pub open spec fn types_wit_names(ts: Seq<SpecTypeDef>) -> Seq<Seq<char>>
    decreases ts.len(),
{
    if ts.len() == 0 {
        Seq::empty()
    } else {
        types_wit_names(ts.drop_last()) + type_wit_names(ts.last())
    }
}

/// The WIT names introduced by the functions `fs`: each function's, then its parameters'.
pub open spec fn funcs_wit_names(fs: Seq<crate::ir::SpecFunctionDef>) -> Seq<Seq<char>>
    decreases fs.len(),
{
    if fs.len() == 0 {
        Seq::empty()
    } else {
        funcs_wit_names(fs.drop_last()) + seq![fs.last().wit_name] + param_keys(fs.last().params)
    }
}

/// Every WIT name of a module, in the order they are checked.
pub open spec fn names_to_check(ir: crate::ir::SpecWitIR) -> Seq<Seq<char>> {
    types_wit_names(ir.types) + funcs_wit_names(ir.functions)
}

/// The error for the first name that is not a valid WIT identifier.
pub open spec fn name_error(names: Seq<Seq<char>>) -> Option<SpecWdsmError>
    decreases names.len(),
{
    if names.len() == 0 {
        None
    } else {
        match name_error(names.drop_last()) {
            Some(e) => Some(e),
            None => match crate::errors::wit_name_problem(names.last()) {
                Some(reason) => Some(SpecWdsmError::InvalidWitName { name: names.last(), reason }),
                None => None,
            },
        }
    }
}

proof fn lemma_name_error_prefix(names: Seq<Seq<char>>, k: int)
    requires
        0 <= k <= names.len(),
        name_error(names.subrange(0, k)) is Some,
    ensures
        name_error(names) == name_error(names.subrange(0, k)),
    decreases names.len() - k,
{
    if k < names.len() {
        assert(names.subrange(0, k + 1).drop_last() =~= names.subrange(0, k));
        lemma_name_error_prefix(names, k + 1);
    } else {
        assert(names.subrange(0, k) =~= names);
    }
}

/// Appends the elements of `src` to `dst`.
fn extend_names<'a>(dst: &mut Vec<&'a str>, src: &Vec<&'a str>)
    ensures
        crate::text::strs_view(final(dst)@) == crate::text::strs_view(old(dst)@) + crate::text::strs_view(src@),
{
    let ghost d0 = dst@;
    let mut i: usize = 0;
    while i < src.len()
        invariant
            i <= src@.len(),
            dst@.len() == d0.len() + i,
            forall|k: int| 0 <= k < d0.len() ==> #[trigger] dst@[k]@ == d0[k]@,
            forall|k: int| 0 <= k < i ==> #[trigger] dst@[d0.len() + k]@ == src@[k]@,
        decreases src.len() - i,
    {
        dst.push(src[i]);
        i = i + 1;
    }
    assert forall|k: int| 0 <= k < dst@.len() implies #[trigger] crate::text::strs_view(dst@)[k]
        == (crate::text::strs_view(d0) + crate::text::strs_view(src@))[k] by {
        if k >= d0.len() {
            assert(dst@[d0.len() + (k - d0.len())]@ == src@[k - d0.len()]@);
        }
    }
    assert(crate::text::strs_view(dst@) =~= crate::text::strs_view(d0) + crate::text::strs_view(src@));
}

/// The WIT names of a definition.
fn type_wit_names_exec(td: &TypeDef) -> (r: Vec<&str>)
    ensures
        crate::text::strs_view(r@) == type_wit_names(td@),
{
    let mut r: Vec<&str> = Vec::new();
    r.push(td.wit_name());
    if let TypeDef::Record(rec) = td {
        let ghost fv = rec@.fields;
        let mut keys: Vec<&str> = Vec::new();
        let mut i: usize = 0;
        while i < rec.fields.len()
            invariant
                fv == rec@.fields,
                i <= rec.fields@.len(),
                keys@.len() == i,
                forall|k: int| 0 <= k < i ==> #[trigger] keys@[k]@ == fv[k].wit_name,
            decreases rec.fields.len() - i,
        {
            keys.push(rec.fields[i].wit_name.as_str());
            i = i + 1;
        }
        assert(crate::text::strs_view(keys@) =~= field_keys(fv));
        extend_names(&mut r, &keys);
    }
    assert(crate::text::strs_view(r@) =~= type_wit_names(td@));
    r
}

/// The WIT names of a function.
fn func_wit_names_exec(func: &crate::ir::FunctionDef) -> (r: Vec<&str>)
    ensures
        crate::text::strs_view(r@) == seq![func@.wit_name] + param_keys(func@.params),
{
    let mut r: Vec<&str> = Vec::new();
    r.push(func.wit_name.as_str());
    let ghost pv = func@.params;
    let mut keys: Vec<&str> = Vec::new();
    let mut i: usize = 0;
    while i < func.params.len()
        invariant
            pv == func@.params,
            i <= func.params@.len(),
            keys@.len() == i,
            forall|k: int| 0 <= k < i ==> #[trigger] keys@[k]@ == pv[k].wit_name,
        decreases func.params.len() - i,
    {
        keys.push(func.params[i].wit_name.as_str());
        i = i + 1;
    }
    assert(crate::text::strs_view(keys@) =~= param_keys(pv));
    extend_names(&mut r, &keys);
    assert(crate::text::strs_view(r@) =~= seq![func@.wit_name] + param_keys(func@.params));
    r
}

/// Every WIT name of a module, in checking order.
fn names_to_check_exec(ir: &crate::ir::WitIR) -> (r: Vec<&str>)
    ensures
        crate::text::strs_view(r@) == names_to_check(ir@),
{
    let ghost tv = ir@.types;
    let ghost fv = ir@.functions;
    let mut r: Vec<&str> = Vec::new();
    let mut i: usize = 0;
    while i < ir.types.len()
        invariant
            tv == ir@.types,
            i <= ir.types@.len(),
            crate::text::strs_view(r@) == types_wit_names(tv.subrange(0, i as int)),
        decreases ir.types.len() - i,
    {
        assert(tv.subrange(0, i + 1).drop_last() =~= tv.subrange(0, i as int));
        let names = type_wit_names_exec(&ir.types[i]);
        extend_names(&mut r, &names);
        i = i + 1;
    }
    assert(tv.subrange(0, tv.len() as int) =~= tv);
    let ghost tn = crate::text::strs_view(r@);
    let mut j: usize = 0;
    while j < ir.functions.len()
        invariant
            fv == ir@.functions,
            j <= ir.functions@.len(),
            crate::text::strs_view(r@) == tn + funcs_wit_names(fv.subrange(0, j as int)),
        decreases ir.functions.len() - j,
    {
        assert(fv.subrange(0, j + 1).drop_last() =~= fv.subrange(0, j as int));
        let names = func_wit_names_exec(&ir.functions[j]);
        extend_names(&mut r, &names);
        assert(tn + funcs_wit_names(fv.subrange(0, j + 1)) =~= tn + funcs_wit_names(fv.subrange(0, j as int))
            + (seq![fv[j as int].wit_name] + param_keys(fv[j as int].params)));
        j = j + 1;
    }
    assert(fv.subrange(0, fv.len() as int) =~= fv);
    r
}

fn validate_names(ir: &crate::ir::WitIR) -> (r: Result<(), WdsmError>)
    ensures
        r is Ok ==> name_error(names_to_check(ir@)) is None,
        r matches Err(e) ==> name_error(names_to_check(ir@)) == Some(e@),
{
    let names = names_to_check_exec(ir);
    let ghost nv = crate::text::strs_view(names@);
    let mut i: usize = 0;
    while i < names.len()
        invariant
            nv == crate::text::strs_view(names@),
            nv == names_to_check(ir@),
            i <= names@.len(),
            name_error(nv.subrange(0, i as int)) is None,
        decreases names.len() - i,
    {
        assert(nv.subrange(0, i + 1).drop_last() =~= nv.subrange(0, i as int));
        assert(nv[i as int] == names@[i as int]@);
        let c = crate::errors::validate_wit_name(names[i]);
        if let Err(e) = c {
            proof {
                let pre = nv.subrange(0, i + 1);
                assert(pre.last() == nv[i as int]);
                assert(pre.drop_last() =~= nv.subrange(0, i as int));
                assert(name_error(pre) == Some(e@));
                lemma_name_error_prefix(nv, i + 1);
            }
            return Err(e);
        }
        i = i + 1;
    }
    assert(nv.subrange(0, nv.len() as int) =~= nv);
    Ok(())
}


// ---------------------------------------------------------------------------
// References to user-defined types
// ---------------------------------------------------------------------------

/// A place where a type name is used: the name, the item that uses it, and
/// where that item was declared.
pub struct RefSite {
    pub name: Seq<char>,
    pub ref_in: Seq<char>,
    pub file: Seq<char>,
    pub line: u64,
}

/// Uses of each of `names`, all made by `ref_in`, declared at `src`.
pub open spec fn sites_of(names: Seq<Seq<char>>, ref_in: Seq<char>, src: crate::ir::SpecSourceSpan) -> Seq<RefSite> {
    names.map_values(|n: Seq<char>| RefSite { name: n, ref_in: ref_in, file: src.file, line: src.line })
}

/// The uses of type names by the definitions `ts`, in order.
pub open spec fn type_sites(ts: Seq<SpecTypeDef>) -> Seq<RefSite>
    decreases ts.len(),
{
    if ts.len() == 0 {
        Seq::empty()
    } else {
        type_sites(ts.drop_last()) + sites_of(
            crate::ir::td_deps(ts.last()),
            td_name(ts.last()),
            crate::ir::td_source(ts.last()),
        )
    }
}

/// How a parameter of `f` called `p` is named where it uses a type.
pub open spec fn param_site_label(f: crate::ir::SpecFunctionDef, p: Seq<char>) -> Seq<char> {
    f.name + "("@ + p + ")"@
}

/// How the return type of `f` is named where it uses a type.
pub open spec fn return_site_label(f: crate::ir::SpecFunctionDef) -> Seq<char> {
    f.name + " return type"@
}

/// The uses of type names by the parameters `ps` of `f`.
pub open spec fn param_sites(f: crate::ir::SpecFunctionDef, ps: Seq<crate::ir::SpecParamDef>) -> Seq<RefSite>
    decreases ps.len(),
{
    if ps.len() == 0 {
        Seq::empty()
    } else {
        param_sites(f, ps.drop_last()) + sites_of(
            crate::ir::refs(ps.last().ty),
            param_site_label(f, ps.last().name),
            f.source,
        )
    }
}

/// The uses of type names by the return type of `f`.
pub open spec fn return_sites(f: crate::ir::SpecFunctionDef) -> Seq<RefSite> {
    match f.returns {
        crate::ir::SpecReturnType::Type(t) => sites_of(crate::ir::refs(t), return_site_label(f), f.source),
        crate::ir::SpecReturnType::Void => Seq::empty(),
    }
}

/// The uses of type names by the functions `fs`: parameters first, then the
/// return type, function after function.
pub open spec fn func_sites(fs: Seq<crate::ir::SpecFunctionDef>) -> Seq<RefSite>
    decreases fs.len(),
{
    if fs.len() == 0 {
        Seq::empty()
    } else {
        func_sites(fs.drop_last()) + param_sites(fs.last(), fs.last().params) + return_sites(fs.last())
    }
}

/// Every use of a type name in a module, in checking order.
pub open spec fn ref_sites(ir: crate::ir::SpecWitIR) -> Seq<RefSite> {
    type_sites(ir.types) + func_sites(ir.functions)
}

/// The error for the first use of a name that is not among `known`.
pub open spec fn unresolved_error(known: Seq<Seq<char>>, sites: Seq<RefSite>) -> Option<SpecWdsmError>
    decreases sites.len(),
{
    if sites.len() == 0 {
        None
    } else {
        match unresolved_error(known, sites.drop_last()) {
            Some(e) => Some(e),
            None => {
                let s = sites.last();
                if known.contains(s.name) {
                    None
                } else {
                    Some(SpecWdsmError::UnresolvedType {
                        name: s.name,
                        ref_in: s.ref_in,
                        src_file: s.file,
                        src_line: s.line,
                    })
                }
            },
        }
    }
}

proof fn lemma_unresolved_prefix(known: Seq<Seq<char>>, sites: Seq<RefSite>, k: int)
    requires
        0 <= k <= sites.len(),
        unresolved_error(known, sites.subrange(0, k)) is Some,
    ensures
        unresolved_error(known, sites) == unresolved_error(known, sites.subrange(0, k)),
    decreases sites.len() - k,
{
    if k < sites.len() {
        assert(sites.subrange(0, k + 1).drop_last() =~= sites.subrange(0, k));
        lemma_unresolved_prefix(known, sites, k + 1);
    } else {
        assert(sites.subrange(0, k) =~= sites);
    }
}

/// A use of a type name, as the checker holds it.
pub struct Site<'a> {
    pub name: &'a str,
    pub ref_in: String,
    pub file: &'a str,
    pub line: u64,
}

/// The model of a use.
pub open spec fn site_view(s: Site) -> RefSite {
    RefSite { name: s.name@, ref_in: s.ref_in@, file: s.file@, line: s.line }
}

/// The models of a sequence of uses.
pub open spec fn sites_view(v: Seq<Site>) -> Seq<RefSite> {
    v.map_values(|s: Site| site_view(s))
}

/// Appends a use of each of `names`, made by `ref_in` and declared at `src`.
fn push_sites<'a>(out: &mut Vec<Site<'a>>, names: &Vec<&'a str>, ref_in: &str, src: &'a crate::ir::SourceSpan)
    ensures
        sites_view(final(out)@) == sites_view(old(out)@) + sites_of(crate::text::strs_view(names@), ref_in@, src@),
{
    let ghost o0 = out@;
    let mut i: usize = 0;
    while i < names.len()
        invariant
            i <= names@.len(),
            out@.len() == o0.len() + i,
            forall|k: int| 0 <= k < o0.len() ==> #[trigger] site_view(out@[k]) == site_view(o0[k]),
            forall|k: int| 0 <= k < i ==> #[trigger] site_view(out@[o0.len() + k]) == (RefSite {
                name: names@[k]@,
                ref_in: ref_in@,
                file: src@.file,
                line: src@.line,
            }),
        decreases names.len() - i,
    {
        out.push(Site { name: names[i], ref_in: crate::text::owned(ref_in), file: src.file.as_str(), line: src.line });
        i = i + 1;
    }
    let ghost want = sites_view(o0) + sites_of(crate::text::strs_view(names@), ref_in@, src@);
    assert forall|k: int| 0 <= k < out@.len() implies #[trigger] sites_view(out@)[k] == want[k] by {
        if k >= o0.len() {
            assert(site_view(out@[o0.len() + (k - o0.len())]) == site_view(out@[k]));
        }
    }
    assert(sites_view(out@) =~= want);
}

/// Every use of a type name in `ir`, in checking order.
fn collect_sites(ir: &crate::ir::WitIR) -> (r: Vec<Site<'_>>)
    ensures
        sites_view(r@) == ref_sites(ir@),
{
    let ghost tv = ir@.types;
    let ghost fv = ir@.functions;
    let mut r: Vec<Site> = Vec::new();
    let mut i: usize = 0;
    while i < ir.types.len()
        invariant
            tv == ir@.types,
            i <= ir.types@.len(),
            sites_view(r@) == type_sites(tv.subrange(0, i as int)),
        decreases ir.types.len() - i,
    {
        assert(tv.subrange(0, i + 1).drop_last() =~= tv.subrange(0, i as int));
        let td = &ir.types[i];
        let deps = td.dependencies();
        push_sites(&mut r, &deps, td.name(), td.source());
        i = i + 1;
    }
    assert(tv.subrange(0, tv.len() as int) =~= tv);
    let ghost ts = sites_view(r@);
    let mut j: usize = 0;
    while j < ir.functions.len()
        invariant
            fv == ir@.functions,
            j <= ir.functions@.len(),
            sites_view(r@) == ts + func_sites(fv.subrange(0, j as int)),
        decreases ir.functions.len() - j,
    {
        let func = &ir.functions[j];
        let ghost f = fv[j as int];
        assert(fv.subrange(0, j + 1).drop_last() =~= fv.subrange(0, j as int));
        let ghost before = sites_view(r@);
        let mut k: usize = 0;
        while k < func.params.len()
            invariant
                f == func@,
                k <= func.params@.len(),
                sites_view(r@) == before + param_sites(f, f.params.subrange(0, k as int)),
            decreases func.params.len() - k,
        {
            assert(f.params.subrange(0, k + 1).drop_last() =~= f.params.subrange(0, k as int));
            let p = &func.params[k];
            let mut label = func.name.clone();
            label.append("(");
            label.append(p.name.as_str());
            label.append(")");
            let names = p.ty.named_refs();
            push_sites(&mut r, &names, label.as_str(), &func.source);
            k = k + 1;
        }
        assert(f.params.subrange(0, f.params.len() as int) =~= f.params);
        if let crate::ir::ReturnType::Type(t) = &func.returns {
            let mut label = func.name.clone();
            label.append(" return type");
            let names = t.named_refs();
            push_sites(&mut r, &names, label.as_str(), &func.source);
        }
        assert(ts + func_sites(fv.subrange(0, j + 1)) =~= ts + func_sites(fv.subrange(0, j as int))
            + param_sites(f, f.params) + return_sites(f));
        j = j + 1;
    }
    assert(fv.subrange(0, fv.len() as int) =~= fv);
    r
}

/// Whether `name` is one of `known`.
fn contains_name(known: &Vec<&str>, name: &str) -> (r: bool)
    ensures
        r == crate::text::strs_view(known@).contains(name@),
{
    let mut i: usize = 0;
    while i < known.len()
        invariant
            i <= known@.len(),
            forall|k: int| 0 <= k < i ==> known@[k]@ != name@,
        decreases known.len() - i,
    {
        if crate::text::str_eq(known[i], name) {
            assert(crate::text::strs_view(known@)[i as int] == name@);
            return true;
        }
        i = i + 1;
    }
    proof {
        if crate::text::strs_view(known@).contains(name@) {
            let k = choose|k: int| 0 <= k < known@.len() && #[trigger] crate::text::strs_view(known@)[k] == name@;
            assert(known@[k]@ == name@);
        }
    }
    false
}

/// Checks that every type name used in `ir` names one of its definitions.
fn check_refs(ir: &crate::ir::WitIR) -> (r: Result<(), WdsmError>)
    ensures
        r is Ok ==> unresolved_error(type_names_of(ir@.types), ref_sites(ir@)) is None,
        r matches Err(e) ==> unresolved_error(type_names_of(ir@.types), ref_sites(ir@)) == Some(e@),
{
    let known = type_name_keys(&ir.types);
    let ghost kv = type_names_of(ir@.types);
    assert(tdefs_view(ir.types@) =~= ir@.types);
    let sites = collect_sites(ir);
    let ghost sv = sites_view(sites@);
    let mut i: usize = 0;
    while i < sites.len()
        invariant
            sv == sites_view(sites@),
            sv == ref_sites(ir@),
            kv == crate::text::strs_view(known@),
            kv == type_names_of(ir@.types),
            i <= sites@.len(),
            unresolved_error(kv, sv.subrange(0, i as int)) is None,
        decreases sites.len() - i,
    {
        let s = &sites[i];
        proof {
            assert(sv.subrange(0, i + 1).drop_last() =~= sv.subrange(0, i as int));
            assert(sv.subrange(0, i + 1).last() == site_view(sites@[i as int]));
        }
        if !contains_name(&known, s.name) {
            let e = WdsmError::UnresolvedType {
                name: crate::text::owned(s.name),
                ref_in: crate::text::owned(s.ref_in.as_str()),
                src_file: crate::text::owned(s.file),
                src_line: s.line,
            };
            proof {
                let pre = sv.subrange(0, i + 1);
                assert(pre.last() == site_view(*s));
                assert(unresolved_error(kv, pre) == Some(e@));
                lemma_unresolved_prefix(kv, sv, i + 1);
            }
            return Err(e);
        }
        i = i + 1;
    }
    assert(sv.subrange(0, sv.len() as int) =~= sv);
    Ok(())
}


// ---------------------------------------------------------------------------
// Confidence audit
// ---------------------------------------------------------------------------

/// The warning for a definition whose types came from the configuration.
pub open spec fn type_fallback_warning(td: SpecTypeDef) -> Seq<char> {
    loc(crate::ir::td_source(td)) + ": type `"@ + td_name(td)
        + "` was inferred from config fallback — consider adding explicit type annotations"@
}

/// The warning for a function whose types came from the configuration.
pub open spec fn func_fallback_warning(f: crate::ir::SpecFunctionDef) -> Seq<char> {
    loc(f.source) + ": function `"@ + f.name + "` types from config fallback"@
}

/// The warnings for the definitions `ts`, in order.
pub open spec fn type_warnings(ts: Seq<SpecTypeDef>) -> Seq<Seq<char>>
    decreases ts.len(),
{
    if ts.len() == 0 {
        Seq::empty()
    } else if crate::ir::td_source(ts.last()).confidence == crate::ir::Confidence::Fallback {
        type_warnings(ts.drop_last()).push(type_fallback_warning(ts.last()))
    } else {
        type_warnings(ts.drop_last())
    }
}

/// The warnings for the functions `fs`, in order.
pub open spec fn func_warnings(fs: Seq<crate::ir::SpecFunctionDef>) -> Seq<Seq<char>>
    decreases fs.len(),
{
    if fs.len() == 0 {
        Seq::empty()
    } else if fs.last().source.confidence == crate::ir::Confidence::Fallback {
        func_warnings(fs.drop_last()).push(func_fallback_warning(fs.last()))
    } else {
        func_warnings(fs.drop_last())
    }
}

/// Every warning about a module: definitions first, then functions.
pub open spec fn audit(ir: crate::ir::SpecWitIR) -> Seq<Seq<char>> {
    type_warnings(ir.types) + func_warnings(ir.functions)
}

/// Warns about each definition and function whose types were taken from the
/// configuration rather than from the source.
fn audit_confidence(ir: &crate::ir::WitIR) -> (r: Vec<String>)
    ensures
        crate::text::strings_view(r@) == audit(ir@),
{
    let ghost tv = ir@.types;
    let ghost fv = ir@.functions;
    let mut r: Vec<String> = Vec::new();
    let mut i: usize = 0;
    while i < ir.types.len()
        invariant
            tv == ir@.types,
            i <= ir.types@.len(),
            crate::text::strings_view(r@) == type_warnings(tv.subrange(0, i as int)),
        decreases ir.types.len() - i,
    {
        assert(tv.subrange(0, i + 1).drop_last() =~= tv.subrange(0, i as int));
        let td = &ir.types[i];
        let src = td.source();
        if src.confidence == crate::ir::Confidence::Fallback {
            let mut w = loc_string(src);
            w.append(": type `");
            w.append(td.name());
            w.append("` was inferred from config fallback — consider adding explicit type annotations");
            let ghost before = r@;
            r.push(w);
            assert(crate::text::strings_view(r@) =~= crate::text::strings_view(before).push(w@));
        }
        i = i + 1;
    }
    assert(tv.subrange(0, tv.len() as int) =~= tv);
    let ghost tw = crate::text::strings_view(r@);
    let mut j: usize = 0;
    while j < ir.functions.len()
        invariant
            fv == ir@.functions,
            j <= ir.functions@.len(),
            crate::text::strings_view(r@) == tw + func_warnings(fv.subrange(0, j as int)),
        decreases ir.functions.len() - j,
    {
        assert(fv.subrange(0, j + 1).drop_last() =~= fv.subrange(0, j as int));
        let func = &ir.functions[j];
        if func.source.confidence == crate::ir::Confidence::Fallback {
            let mut w = loc_string(&func.source);
            w.append(": function `");
            w.append(func.name.as_str());
            w.append("` types from config fallback");
            let ghost before = r@;
            r.push(w);
            assert(crate::text::strings_view(r@) =~= crate::text::strings_view(before).push(w@));
        }
        j = j + 1;
    }
    assert(fv.subrange(0, fv.len() as int) =~= fv);
    r
}

// ---------------------------------------------------------------------------
// Validation
// ---------------------------------------------------------------------------

/// The first problem that validation finds in a module, checking in this
/// order: duplicate definitions, duplicate fields, duplicate parameters,
/// invalid WIT names, unresolved type names, and a circular reference among
/// two or more definitions.
pub open spec fn validation_error(ir: crate::ir::SpecWitIR) -> Option<SpecWdsmError> {
    if dup_type_error(ir.types) is Some {
        dup_type_error(ir.types)
    } else if dup_field_error(ir.types) is Some {
        dup_field_error(ir.types)
    } else if dup_param_error(ir.functions) is Some {
        dup_param_error(ir.functions)
    } else if name_error(names_to_check(ir)) is Some {
        name_error(names_to_check(ir))
    } else if unresolved_error(type_names_of(ir.types), ref_sites(ir)) is Some {
        unresolved_error(type_names_of(ir.types), ref_sites(ir))
    } else if ir.types.len() > 1 && !all_grounded(ir.types) {
        Some(circular_error(ir.types))
    } else {
        None
    }
}

/// What a successful validation leaves of `before`: the same module with its
/// definitions put in dependency order.
pub open spec fn validated(before: crate::ir::SpecWitIR, after: crate::ir::SpecWitIR) -> bool {
    &&& after.package == before.package
    &&& after.world_name == before.world_name
    &&& after.functions == before.functions
    &&& after.imports == before.imports
    &&& before.types.len() <= 1 ==> after.types == before.types
    &&& before.types.len() > 1 ==> is_topo_arrangement(before.types, after.types)
    &&& before.types.len() > 1 ==> after.types == placed(before.types)
}

/// Validates a module and puts its definitions in dependency order.  Returns
/// the warnings about types taken from the configuration, or the first
/// problem found; a module that is refused is left as it was.
pub fn validate(ir: &mut crate::ir::WitIR) -> (r: Result<Vec<String>, WdsmError>)
    ensures
        (r is Ok) <==> validation_error(old(ir)@) is None,
        r matches Err(e) ==> validation_error(old(ir)@) == Some(e@) && final(ir)@ == old(ir)@,
        r matches Ok(w) ==> validated(old(ir)@, final(ir)@)
            && crate::text::strings_view(w@) == audit(final(ir)@),
{
    assert(tdefs_view(ir.types@) =~= ir@.types);
    assert(funcs_view(ir.functions@) =~= ir@.functions);
    check_unique_type(&ir.types)?;
    check_unique_field(&ir.types)?;
    check_unique_param(&ir.functions)?;
    validate_names(ir)?;
    check_refs(ir)?;
    let sorted = toposort(ir.types.as_slice())?;
    let ghost before = ir@;
    ir.types = sorted;
    assert(ir@.types =~= tdefs_view(sorted@));
    let warnings = audit_confidence(ir);
    Ok(warnings)
}


// ---------------------------------------------------------------------------
// What validation guarantees
// ---------------------------------------------------------------------------

proof fn lemma_name_error_none(names: Seq<Seq<char>>)
    requires
        name_error(names) is None,
    ensures
        forall|k: int| 0 <= k < names.len() ==> crate::errors::wit_name_problem(#[trigger] names[k]) is None,
    decreases names.len(),
{
    if names.len() > 0 {
        lemma_name_error_none(names.drop_last());
        assert forall|k: int| 0 <= k < names.len() implies crate::errors::wit_name_problem(#[trigger] names[k]) is None by {
            if k < names.len() - 1 {
                assert(names.drop_last()[k] == names[k]);
            }
        }
    }
}

proof fn lemma_unresolved_none(known: Seq<Seq<char>>, sites: Seq<RefSite>)
    requires
        unresolved_error(known, sites) is None,
    ensures
        forall|k: int| 0 <= k < sites.len() ==> known.contains(#[trigger] sites[k].name),
    decreases sites.len(),
{
    if sites.len() > 0 {
        lemma_unresolved_none(known, sites.drop_last());
        assert forall|k: int| 0 <= k < sites.len() implies known.contains(#[trigger] sites[k].name) by {
            if k < sites.len() - 1 {
                assert(sites.drop_last()[k] == sites[k]);
            }
        }
    }
}

/// A module that passes validation has no two definitions with the same name.
pub proof fn law_valid_module_has_unique_type_names(ir: crate::ir::SpecWitIR)
    requires
        validation_error(ir) is None,
    ensures
        forall|i: int, j: int| 0 <= i < j < ir.types.len() ==> td_name(#[trigger] ir.types[i]) != td_name(#[trigger] ir.types[j]),
{
    let names = type_names_of(ir.types);
    assert(!has_dup(names));
    assert forall|i: int, j: int| 0 <= i < j < ir.types.len() implies td_name(#[trigger] ir.types[i]) != td_name(#[trigger] ir.types[j]) by {
        if td_name(ir.types[i]) == td_name(ir.types[j]) {
            assert(names[i] == names[j]);
            assert(dup_at(names, j)) by {
                reveal(dup_at);
            }
            assert(has_dup(names)) by {
                reveal(has_dup);
            }
        }
    }
}

/// Every WIT name in a module that passes validation (of its definitions,
/// record fields, functions and parameters) is a valid WIT identifier.
pub proof fn law_valid_module_names_are_identifiers(ir: crate::ir::SpecWitIR)
    requires
        validation_error(ir) is None,
    ensures
        forall|k: int| 0 <= k < names_to_check(ir).len()
            ==> crate::errors::wit_name_problem(#[trigger] names_to_check(ir)[k]) is None,
{
    lemma_name_error_none(names_to_check(ir));
}

/// Every type name used in a module that passes validation names one of its
/// definitions.
pub proof fn law_valid_module_references_resolve(ir: crate::ir::SpecWitIR)
    requires
        validation_error(ir) is None,
    ensures
        forall|k: int| 0 <= k < ref_sites(ir).len() ==> type_names_of(ir.types).contains(#[trigger] ref_sites(ir)[k].name),
{
    lemma_unresolved_none(type_names_of(ir.types), ref_sites(ir));
}

/// A module of two or more definitions that passes validation has no
/// circular reference, and validation leaves its definitions in an order
/// where each follows those it depends on.
pub proof fn law_valid_module_is_ordered(before: crate::ir::SpecWitIR, after: crate::ir::SpecWitIR)
    requires
        validation_error(before) is None,
        validated(before, after),
        before.types.len() > 1,
    ensures
        all_grounded(before.types),
        is_topo_arrangement(before.types, after.types),
{
}

} // verus!
