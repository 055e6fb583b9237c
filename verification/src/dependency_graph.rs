//! The dependency graph: a bipartite producer/consumer index over node
//! names, built once at configuration time and shared by all transactions.
//!
//! For every edge `add(src, dst)`, `dst` is appended to the dependents of
//! `src` and `src` to the providers of `dst`, suppressing duplicates, so
//! the two indexes stay symmetric and producer order follows the order of
//! the configuration.

use vstd::prelude::*;
use vstd::hash_map::StringHashMap;

use crate::strutil::str_eq;

verus! {

broadcast use vstd::std_specs::vec::vec_clone_deep_view_proof;

/// What recording `v` under `k` does to one of the two indexes: append `v`
/// to the list under `k` unless it is already there.
pub open spec fn spec_add_to(
    m: Map<Seq<char>, Seq<Seq<char>>>,
    k: Seq<char>,
    v: Seq<char>,
) -> Map<Seq<char>, Seq<Seq<char>>> {
    if m.contains_key(k) {
        if m[k].contains(v) {
            m
        } else {
            m.insert(k, m[k].push(v))
        }
    } else {
        m.insert(k, seq![v])
    }
}

/// The ordered names under `k`, or the empty sequence if `k` has no entry.
pub open spec fn spec_names_under(m: Map<Seq<char>, Seq<Seq<char>>>, k: Seq<char>) -> Seq<
    Seq<char>,
> {
    if m.contains_key(k) {
        m[k]
    } else {
        Seq::empty()
    }
}

/// Does `v`'s list under `k` (empty if none) contain it?
pub open spec fn spec_listed(m: Map<Seq<char>, Seq<Seq<char>>>, k: Seq<char>, v: Seq<char>) -> bool {
    m.contains_key(k) && m[k].contains(v)
}

/// The two indexes list exactly the same edges, each from its own side.
pub open spec fn spec_symmetric(
    deps: Map<Seq<char>, Seq<Seq<char>>>,
    provs: Map<Seq<char>, Seq<Seq<char>>>,
) -> bool {
    forall|a: Seq<char>, b: Seq<char>|
        #[trigger] spec_listed(deps, a, b) <==> #[trigger] spec_listed(provs, b, a)
}

pub struct DependencyGraph {
    dependents: StringHashMap<Vec<String>>,
    providers: StringHashMap<Vec<String>>,
    empty: Vec<String>,
}

/// True of `v` iff `s` is among its elements, by characters.
fn vec_contains_name(v: &Vec<String>, s: &str) -> (r: bool)
    ensures
        r == v.deep_view().contains(s@),
{
    let mut i: usize = 0;
    while i < v.len()
        invariant
            0 <= i <= v.len(),
            forall|j: int| 0 <= j < i ==> v.deep_view()[j] != s@,
        decreases v.len() - i,
    {
        if str_eq(v[i].as_str(), s) {
            assert(v.deep_view()[i as int] == s@);
            return true;
        }
        i += 1;
    }
    assert(forall|j: int| 0 <= j < v.deep_view().len() ==> v.deep_view()[j] != s@);
    false
}

/// Record `value` under `key`, appending it to the list there unless it is
/// already present.
pub fn add_to(map: &mut StringHashMap<Vec<String>>, key: &str, value: &str)
    ensures
        final(map)@.map_values(|v: Vec<String>| v.deep_view()) == spec_add_to(
            old(map)@.map_values(|v: Vec<String>| v.deep_view()),
            key@,
            value@,
        ),
{
    let ghost pre = old(map)@.map_values(|v: Vec<String>| v.deep_view());
    let existing: Option<Vec<String>> = match map.get(key) {
        Some(items) => Some(items.clone()),
        None => None,
    };
    match existing {
        Some(mut key_items) => {
            assert(key_items.deep_view() =~= pre[key@]);
            if !vec_contains_name(&key_items, value) {
                key_items.push(value.to_owned());
                assert(key_items.deep_view() =~= pre[key@].push(value@));
                map.insert(key.to_owned(), key_items);
                assert(final(map)@.map_values(|v: Vec<String>| v.deep_view()) =~= spec_add_to(
                    pre,
                    key@,
                    value@,
                ));
            } else {
                assert(final(map)@.map_values(|v: Vec<String>| v.deep_view()) =~= spec_add_to(
                    pre,
                    key@,
                    value@,
                ));
            }
        },
        None => {
            let mut key_items: Vec<String> = Vec::new();
            key_items.push(value.to_owned());
            assert(key_items.deep_view() =~= seq![value@]);
            map.insert(key.to_owned(), key_items);
            assert(final(map)@.map_values(|v: Vec<String>| v.deep_view()) =~= spec_add_to(
                pre,
                key@,
                value@,
            ));
        },
    }
}

impl DependencyGraph {
    /// The dependents index: node name to the consumers fed by it.
    pub closed spec fn deps(&self) -> Map<Seq<char>, Seq<Seq<char>>> {
        self.dependents@.map_values(|v: Vec<String>| v.deep_view())
    }

    /// The providers index: node name to its ordered producers.
    pub closed spec fn provs(&self) -> Map<Seq<char>, Seq<Seq<char>>> {
        self.providers@.map_values(|v: Vec<String>| v.deep_view())
    }

    pub closed spec fn wf(&self) -> bool {
        self.empty@.len() == 0
    }

    pub fn new() -> (r: DependencyGraph)
        ensures
            r.wf(),
            r.deps() == Map::<Seq<char>, Seq<Seq<char>>>::empty(),
            r.provs() == Map::<Seq<char>, Seq<Seq<char>>>::empty(),
    {
        let r = DependencyGraph {
            dependents: StringHashMap::new(),
            providers: StringHashMap::new(),
            empty: Vec::new(),
        };
        proof {
            assert(r.deps() =~= Map::<Seq<char>, Seq<Seq<char>>>::empty());
            assert(r.provs() =~= Map::<Seq<char>, Seq<Seq<char>>>::empty());
        }
        r
    }

    /// Append `dst` to the dependents of `src` and `src` to the providers
    /// of `dst`, suppressing duplicates on either side.
    pub fn add(&mut self, src: &str, dst: &str)
        requires
            old(self).wf(),
        ensures
            final(self).wf(),
            final(self).deps() == spec_add_to(old(self).deps(), src@, dst@),
            final(self).provs() == spec_add_to(old(self).provs(), dst@, src@),
    {
        add_to(&mut self.dependents, src, dst);
        add_to(&mut self.providers, dst, src);
    }

    pub fn has_dependents(&self, name: &str) -> (r: bool)
        ensures
            r == self.deps().contains_key(name@),
    {
        self.dependents.contains_key(name)
    }

    pub fn has_providers(&self, name: &str) -> (r: bool)
        ensures
            r == self.provs().contains_key(name@),
    {
        self.providers.contains_key(name)
    }

    /// The ordered producers of `name`; empty if it has none.
    pub fn get_input_names(&self, name: &str) -> (r: &Vec<String>)
        requires
            self.wf(),
        ensures
            r.deep_view() == spec_names_under(self.provs(), name@),
    {
        match self.providers.get(name) {
            Some(items) => items,
            None => &self.empty,
        }
    }

    /// The ordered producers of `name`, for iteration; empty if none.
    pub fn each_input(&self, name: &str) -> (r: &Vec<String>)
        requires
            self.wf(),
        ensures
            r.deep_view() == spec_names_under(self.provs(), name@),
    {
        self.get_input_names(name)
    }
}

/// Graph symmetry, one edge at a time: recording the edge `a -> b` makes
/// `b` listed among the dependents of `a` and `a` among the providers of
/// `b`.
pub proof fn lemma_add_listed(m: Map<Seq<char>, Seq<Seq<char>>>, k: Seq<char>, v: Seq<char>)
    ensures
        spec_listed(spec_add_to(m, k, v), k, v),
{
    let m2 = spec_add_to(m, k, v);
    if m.contains_key(k) {
        if !m[k].contains(v) {
            assert(m2[k][m[k].len() as int] == v);
        }
    } else {
        assert(m2[k][0] == v);
    }
}

/// Repeated adds are idempotent: recording the same edge twice leaves the
/// index exactly as one recording left it.
pub proof fn lemma_add_idempotent(m: Map<Seq<char>, Seq<Seq<char>>>, k: Seq<char>, v: Seq<char>)
    ensures
        spec_add_to(spec_add_to(m, k, v), k, v) == spec_add_to(m, k, v),
{
    lemma_add_listed(m, k, v);
    let m2 = spec_add_to(m, k, v);
    assert(m2.contains_key(k) && m2[k].contains(v));
}

/// Other entries are untouched: an add changes no list but the one under
/// its own key, and extends that one only with its own value.
pub proof fn lemma_add_frame(
    m: Map<Seq<char>, Seq<Seq<char>>>,
    k: Seq<char>,
    v: Seq<char>,
    k2: Seq<char>,
    v2: Seq<char>,
)
    requires
        k2 != k || v2 != v,
    ensures
        spec_listed(spec_add_to(m, k, v), k2, v2) == spec_listed(m, k2, v2),
{
    if k2 == k {
        if m.contains_key(k) && !m[k].contains(v) {
            let s = m[k];
            if s.contains(v2) {
                let i = choose|i: int| 0 <= i < s.len() && s[i] == v2;
                assert(s.push(v)[i] == v2);
            }
            if s.push(v).contains(v2) {
                let i = choose|i: int| 0 <= i < s.push(v).len() && s.push(v)[i] == v2;
                assert(i < s.len() ==> s[i] == v2);
            }
        } else if !m.contains_key(k) {
            if seq![v].contains(v2) {
                assert(seq![v][0] == v);
            }
        }
    }
}

/// What is listed stays listed: an add never removes an edge.
pub proof fn lemma_add_keeps_listed(
    m: Map<Seq<char>, Seq<Seq<char>>>,
    k: Seq<char>,
    v: Seq<char>,
    k2: Seq<char>,
    v2: Seq<char>,
)
    requires
        spec_listed(m, k2, v2),
    ensures
        spec_listed(spec_add_to(m, k, v), k2, v2),
{
    if k2 == k && v2 == v {
        lemma_add_listed(m, k, v);
    } else {
        lemma_add_frame(m, k, v, k2, v2);
    }
}

/// The symmetry of the two indexes is kept by every paired add, so it holds
/// of every graph built from `add` alone.
pub proof fn lemma_add_preserves_symmetry(
    deps: Map<Seq<char>, Seq<Seq<char>>>,
    provs: Map<Seq<char>, Seq<Seq<char>>>,
    a: Seq<char>,
    b: Seq<char>,
)
    requires
        spec_symmetric(deps, provs),
    ensures
        spec_symmetric(spec_add_to(deps, a, b), spec_add_to(provs, b, a)),
{
    let deps2 = spec_add_to(deps, a, b);
    let provs2 = spec_add_to(provs, b, a);
    assert forall|x: Seq<char>, y: Seq<char>|
        #[trigger] spec_listed(deps2, x, y) <==> #[trigger] spec_listed(provs2, y, x) by {
        if x == a && y == b {
            lemma_add_listed(deps, a, b);
            lemma_add_listed(provs, b, a);
        } else {
            lemma_add_frame(deps, a, b, x, y);
            lemma_add_frame(provs, b, a, y, x);
        }
    }
}

} // verus!
