//! The FAA class-airspace features: which airport idents count as
//! towered, and which features are Class B boundaries to draw.

use vstd::prelude::*;
use crate::airports::{contains_str, distinct, insert_distinct, string_set};
use crate::text::str_eq;

verus! {

/// The properties of one airspace feature.
#[derive(Debug)]
pub struct FeatureProperties {
    /// The airspace's name, e.g. "LOS ANGELES CLASS B".
    pub name: Option<String>,
    /// The airspace class: "B", "C", "D" or "E".
    pub class: Option<String>,
    /// The airport ident the airspace belongs to, if any.
    pub ident: Option<String>,
}

impl Clone for FeatureProperties {
    fn clone(&self) -> (r: Self)
        ensures
            r == *self,
    {
        FeatureProperties {
            name: self.name.clone(),
            class: self.class.clone(),
            ident: self.ident.clone(),
        }
    }
}

/// The idents present in `v`, as a set.
pub open spec fn present_idents(v: Seq<Option<String>>) -> Set<Seq<char>> {
    Set::new(|k: Seq<char>| exists|i: int| 0 <= i < v.len() && v[i] is Some && v[i]->0@ == k)
}

/// The distinct idents among `idents`, absent ones skipped.
pub fn collect_idents(idents: &Vec<Option<String>>) -> (r: Vec<String>)
    ensures
        distinct(r@),
        string_set(r@) == present_idents(idents@),
{
    let ghost v = idents@;
    let n = idents.len();
    let mut out: Vec<String> = Vec::new();
    let mut i: usize = 0;
    assert(string_set(out@) =~= present_idents(v.subrange(0, 0)));
    while i < n
        invariant
            n == v.len(),
            v == idents@,
            i <= n,
            distinct(out@),
            string_set(out@) == present_idents(v.subrange(0, i as int)),
        decreases n - i,
    {
        let ghost pre = v.subrange(0, i as int);
        let ghost post = v.subrange(0, i + 1);
        let ghost before = out@;
        match &idents[i] {
            Some(s) => {
                if !contains_str(&out, s.as_str()) {
                    out.push(s.clone());
                }
            },
            None => {},
        }
        proof {
            assert forall|k: Seq<char>| #![trigger present_idents(post).contains(k)]
                present_idents(post).contains(k) == string_set(out@).contains(k) by {
                if present_idents(pre).contains(k) {
                    let j = choose|j: int| 0 <= j < pre.len() && pre[j] is Some && pre[j]->0@ == k;
                    assert(post[j] == pre[j]);
                }
                if present_idents(post).contains(k) {
                    let j = choose|j: int| 0 <= j < post.len() && post[j] is Some && post[j]->0@ == k;
                    if j < pre.len() {
                        assert(post[j] == pre[j]);
                    }
                }
                if string_set(before).contains(k) {
                    let j = choose|j: int| 0 <= j < before.len() && before[j]@ == k;
                    assert(out@[j] == before[j]);
                }
                if string_set(out@).contains(k) {
                    let j = choose|j: int| 0 <= j < out@.len() && out@[j]@ == k;
                    if j < before.len() {
                        assert(out@[j] == before[j]);
                    }
                }
                if v[i as int] is Some && v[i as int]->0@ == k {
                    assert(post[i as int] == v[i as int]);
                    if out@.len() > before.len() {
                        assert(out@[before.len() as int]@ == k);
                    }
                }
            }
            assert(string_set(out@) =~= present_idents(post));
        }
        i = i + 1;
    }
    assert(v.subrange(0, n as int) =~= v);
    out
}

/// The idents of the features, as a set.
pub open spec fn feature_idents(fs: Seq<FeatureProperties>) -> Set<Seq<char>> {
    Set::new(|k: Seq<char>| exists|i: int| 0 <= i < fs.len() && fs[i].ident is Some && fs[i].ident->0@ == k)
}

/// The towered-airport allow-list: the idents of all Class B and C
/// features, nationwide (each ident once).
pub fn load_towered_idents(features: &Vec<FeatureProperties>) -> (r: Vec<String>)
    ensures
        distinct(r@),
        string_set(r@) == feature_idents(features@),
{
    let n = features.len();
    let mut idents: Vec<Option<String>> = Vec::new();
    let mut i: usize = 0;
    while i < n
        invariant
            n == features@.len(),
            i <= n,
            idents@.len() == i,
            forall|j: int| 0 <= j < i ==> #[trigger] idents@[j] == features@[j].ident,
        decreases n - i,
    {
        idents.push(features[i].ident.clone());
        i = i + 1;
    }
    let r = collect_idents(&idents);
    proof {
        assert forall|k: Seq<char>| present_idents(idents@).contains(k) == feature_idents(features@).contains(k) by {
            if present_idents(idents@).contains(k) {
                let j = choose|j: int| 0 <= j < idents@.len() && idents@[j] is Some && idents@[j]->0@ == k;
                assert(idents@[j] == features@[j].ident);
            }
            if feature_idents(features@).contains(k) {
                let j = choose|j: int| 0 <= j < features@.len() && features@[j].ident is Some && features@[j].ident->0@ == k;
                assert(idents@[j] == features@[j].ident);
            }
        }
        assert(present_idents(idents@) =~= feature_idents(features@));
    }
    r
}

/// The name of a Class B feature; `None` for any other class or a
/// nameless feature.
pub open spec fn spec_class_b_name(p: FeatureProperties) -> Option<Seq<char>> {
    match (p.class, p.name) {
        (Some(c), Some(n)) => if c@ == "B"@ {
            Some(n@)
        } else {
            None
        },
        _ => None,
    }
}

/// Only Class B boundaries are drawn; this is the key they are grouped by.
pub fn class_b_name(p: &FeatureProperties) -> (r: Option<&String>)
    ensures
        match r {
            Some(n) => spec_class_b_name(*p) == Some(n@),
            None => spec_class_b_name(*p) is None,
        },
{
    match (&p.class, &p.name) {
        (Some(c), Some(n)) => if str_eq(c.as_str(), "B") {
            Some(n)
        } else {
            None
        },
        _ => None,
    }
}


/// Adds each string of `v` to `out` that is not already there.
fn extend_distinct(out: &mut Vec<String>, v: &Vec<String>)
    requires
        distinct(old(out)@),
    ensures
        distinct(final(out)@),
        string_set(final(out)@) == string_set(old(out)@).union(string_set(v@)),
{
    let ghost start = string_set(out@);
    let n = v.len();
    let mut i: usize = 0;
    assert(string_set(v@.subrange(0, 0)) =~= Set::empty());
    assert(string_set(out@) =~= start.union(string_set(v@.subrange(0, 0))));
    while i < n
        invariant
            n == v@.len(),
            i <= n,
            distinct(out@),
            string_set(out@) == start.union(string_set(v@.subrange(0, i as int))),
        decreases n - i,
    {
        insert_distinct(out, &v[i]);
        proof {
            let pre = v@.subrange(0, i as int);
            let post = v@.subrange(0, i + 1);
            assert forall|k: Seq<char>| #[trigger] string_set(post).contains(k) == (string_set(pre).contains(k)
                || k == v@[i as int]@) by {
                if string_set(pre).contains(k) {
                    let j = choose|j: int| 0 <= j < pre.len() && pre[j]@ == k;
                    assert(post[j] == pre[j]);
                }
                if k == v@[i as int]@ {
                    assert(post[i as int] == v@[i as int]);
                }
                if string_set(post).contains(k) && k != v@[i as int]@ {
                    let j = choose|j: int| 0 <= j < post.len() && post[j]@ == k;
                    assert(pre[j] == post[j]);
                }
            }
            assert(string_set(out@) =~= start.union(string_set(post)));
        }
        i = i + 1;
    }
    assert(v@.subrange(0, n as int) =~= v@);
}

/// The towered idents: those of the Class B/C airspace together with the
/// local Class D/E airports, each once.
pub fn union_idents(a: &Vec<String>, b: &Vec<String>) -> (r: Vec<String>)
    ensures
        distinct(r@),
        string_set(r@) == string_set(a@).union(string_set(b@)),
{
    let mut out: Vec<String> = Vec::new();
    assert(string_set(out@) =~= Set::empty());
    extend_distinct(&mut out, a);
    extend_distinct(&mut out, b);
    assert(string_set(out@) =~= string_set(a@).union(string_set(b@)));
    out
}

} // verus!
