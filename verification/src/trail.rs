//! Per-aircraft position history for the fading trails behind each
//! contact: the last `MAX_TRAIL_POINTS` positions of every aircraft in the
//! most recent fetch.

use vstd::prelude::*;
use std::collections::VecDeque;

verus! {

/// Trail length in fetch cycles (about two minutes at the poll interval).
pub const MAX_TRAIL_POINTS: usize = 12;

/// One aircraft of a fetch: its hex address and, when the feed gave both
/// its distance and bearing, its plotted position.
pub struct Sighting<P> {
    pub hex: String,
    pub position: Option<P>,
}

/// Appends `p` to a trail, keeping only its last `MAX_TRAIL_POINTS` points.
pub open spec fn trail_push<P>(t: Seq<P>, p: P) -> Seq<P> {
    let u = t.push(p);
    if u.len() > MAX_TRAIL_POINTS {
        u.subrange(u.len() - MAX_TRAIL_POINTS, u.len() as int)
    } else {
        u
    }
}

/// The trail of `k` after starting from `t` and replaying the sightings
/// of `k` in `s`, in order.
pub open spec fn replay<P>(t: Seq<P>, s: Seq<Sighting<P>>, k: Seq<char>) -> Seq<P>
    decreases s.len(),
{
    if s.len() == 0 {
        t
    } else {
        let t1 = replay(t, s.drop_last(), k);
        if s.last().hex@ == k && s.last().position is Some {
            trail_push(t1, s.last().position->0)
        } else {
            t1
        }
    }
}

/// The hex addresses of `s` that came with a position.
pub open spec fn seen<P>(s: Seq<Sighting<P>>) -> Set<Seq<char>> {
    Set::new(|k: Seq<char>| exists|i: int| 0 <= i < s.len() && s[i].hex@ == k && s[i].position is Some)
}

/// The hex addresses of every aircraft in `s`, with a position or not.
pub open spec fn listed<P>(s: Seq<Sighting<P>>) -> Set<Seq<char>> {
    Set::new(|k: Seq<char>| exists|i: int| 0 <= i < s.len() && s[i].hex@ == k)
}

/// How `seen` and `listed` grow by one more sighting.
proof fn lemma_sets_push<P>(pre: Seq<Sighting<P>>, a: Sighting<P>)
    ensures
        forall|k: Seq<char>|
            #[trigger] listed(pre.push(a)).contains(k) <==> (listed(pre).contains(k) || k == a.hex@),
        forall|k: Seq<char>|
            #[trigger] seen(pre.push(a)).contains(k) <==> (seen(pre).contains(k) || (k == a.hex@
                && a.position is Some)),
{
    let post = pre.push(a);
    assert forall|k: Seq<char>| #[trigger] listed(post).contains(k) <==> (listed(pre).contains(k)
        || k == a.hex@) by {
        if listed(pre).contains(k) {
            let w = choose|w: int| 0 <= w < pre.len() && pre[w].hex@ == k;
            assert(post[w] == pre[w]);
        }
        if k == a.hex@ {
            assert(post[pre.len() as int] == a);
        }
        if listed(post).contains(k) && k != a.hex@ {
            let w = choose|w: int| 0 <= w < post.len() && post[w].hex@ == k;
            assert(pre[w] == post[w]);
        }
    }
    assert forall|k: Seq<char>| #[trigger] seen(post).contains(k) <==> (seen(pre).contains(k) || (k
        == a.hex@ && a.position is Some)) by {
        if seen(pre).contains(k) {
            let w = choose|w: int| 0 <= w < pre.len() && pre[w].hex@ == k && pre[w].position is Some;
            assert(post[w] == pre[w]);
        }
        if k == a.hex@ && a.position is Some {
            assert(post[pre.len() as int] == a);
        }
        if seen(post).contains(k) && !(k == a.hex@ && a.position is Some) {
            let w = choose|w: int| 0 <= w < post.len() && post[w].hex@ == k && post[w].position is Some;
            assert(pre[w] == post[w]);
        }
    }
}

/// The trail of `k` in `m`, empty when there is none.
pub open spec fn trail_or_empty<P>(m: Map<Seq<char>, Seq<P>>, k: Seq<char>) -> Seq<P> {
    if m.contains_key(k) {
        m[k]
    } else {
        Seq::empty()
    }
}

/// Replaying sightings that never name `k` leaves its trail unchanged.
pub proof fn lemma_replay_unseen<P>(t: Seq<P>, s: Seq<Sighting<P>>, k: Seq<char>)
    requires
        !seen(s).contains(k),
    ensures
        replay(t, s, k) == t,
    decreases s.len(),
{
    if s.len() > 0 {
        assert(!seen(s.drop_last()).contains(k)) by {
            if seen(s.drop_last()).contains(k) {
                let w = choose|w: int| 0 <= w < s.drop_last().len() && s.drop_last()[w].hex@ == k
                    && s.drop_last()[w].position is Some;
                assert(s[w] == s.drop_last()[w]);
            }
        }
        lemma_replay_unseen(t, s.drop_last(), k);
        if s.last().hex@ == k && s.last().position is Some {
            assert(s[s.len() - 1] == s.last());
        }
    }
}

/// The store after a fetch `s`: one trail for each aircraft in the fetch
/// that had a trail or came with a position, continuing its previous trail
/// with the positions the fetch gave for it.
pub open spec fn spec_update<P>(m: Map<Seq<char>, Seq<P>>, s: Seq<Sighting<P>>) -> Map<Seq<char>, Seq<P>> {
    Map::new(
        |k: Seq<char>| listed(s).contains(k) && (m.contains_key(k) || seen(s).contains(k)),
        |k: Seq<char>| replay(trail_or_empty(m, k), s, k),
    )
}

/// Every trail holds between one and `MAX_TRAIL_POINTS` points: a store
/// whose trails are within these bounds stays within them after any fetch.
pub proof fn lemma_update_bounded<P>(m: Map<Seq<char>, Seq<P>>, s: Seq<Sighting<P>>)
    requires
        forall|k: Seq<char>| #[trigger] m.contains_key(k) ==> 1 <= m[k].len() <= MAX_TRAIL_POINTS,
    ensures
        forall|k: Seq<char>| #[trigger] spec_update(m, s).contains_key(k) ==> 1 <= spec_update(
            m,
            s,
        )[k].len() <= MAX_TRAIL_POINTS,
{
    assert forall|k: Seq<char>| #[trigger] spec_update(m, s).contains_key(k) implies 1 <= spec_update(
        m,
        s,
    )[k].len() <= MAX_TRAIL_POINTS by {
        lemma_replay_bounded(trail_or_empty(m, k), s, k);
        lemma_replay_nonempty(trail_or_empty(m, k), s, k);
    }
}

/// Replaying onto a non-empty trail, or replaying sightings that give `k`
/// a position, leaves a non-empty trail.
proof fn lemma_replay_nonempty<P>(t: Seq<P>, s: Seq<Sighting<P>>, k: Seq<char>)
    requires
        t.len() > 0 || seen(s).contains(k),
    ensures
        replay(t, s, k).len() > 0,
    decreases s.len(),
{
    if s.len() > 0 {
        if s.last().hex@ == k && s.last().position is Some {
        } else {
            if t.len() == 0 {
                let w = choose|w: int| 0 <= w < s.len() && s[w].hex@ == k && s[w].position is Some;
                assert(w != s.len() - 1);
                assert(s.drop_last()[w] == s[w]);
                assert(seen(s.drop_last()).contains(k));
            }
            lemma_replay_nonempty(t, s.drop_last(), k);
        }
    } else {
        assert(!seen(s).contains(k));
    }
}

proof fn lemma_replay_bounded<P>(t: Seq<P>, s: Seq<Sighting<P>>, k: Seq<char>)
    requires
        t.len() <= MAX_TRAIL_POINTS,
    ensures
        replay(t, s, k).len() <= MAX_TRAIL_POINTS,
    decreases s.len(),
{
    if s.len() > 0 {
        lemma_replay_bounded(t, s.drop_last(), k);
    }
}

/// After a fetch, an aircraft's trail ends at the last position the fetch
/// reported for it.
pub proof fn lemma_trail_ends_at_latest<P>(m: Map<Seq<char>, Seq<P>>, s: Seq<Sighting<P>>, i: int)
    requires
        0 <= i < s.len(),
        s[i].position is Some,
        forall|j: int| i < j < s.len() ==> !(#[trigger] s[j].hex@ == s[i].hex@ && s[j].position is Some),
    ensures
        spec_update(m, s).contains_key(s[i].hex@),
        spec_update(m, s)[s[i].hex@].len() > 0,
        spec_update(m, s)[s[i].hex@].last() == s[i].position->0,
{
    let k = s[i].hex@;
    assert(seen(s).contains(k));
    assert(listed(s).contains(k));
    lemma_replay_latest(trail_or_empty(m, k), s, k, i);
}

proof fn lemma_replay_latest<P>(t: Seq<P>, s: Seq<Sighting<P>>, k: Seq<char>, i: int)
    requires
        0 <= i < s.len(),
        s[i].position is Some,
        s[i].hex@ == k,
        forall|j: int| i < j < s.len() ==> !(#[trigger] s[j].hex@ == k && s[j].position is Some),
    ensures
        replay(t, s, k).len() > 0,
        replay(t, s, k).last() == s[i].position->0,
    decreases s.len(),
{
    if i == s.len() - 1 {
        let u = replay(t, s.drop_last(), k).push(s[i].position->0);
        assert(s.last() == s[i]);
        if u.len() > MAX_TRAIL_POINTS {
            assert(trail_push(replay(t, s.drop_last(), k), s[i].position->0).last() == u.last());
        }
    } else {
        let d = s.drop_last();
        assert forall|j: int| i < j < d.len() implies !(#[trigger] d[j].hex@ == k && d[j].position
            is Some) by {
            assert(d[j] == s[j]);
        }
        assert(d[i] == s[i]);
        lemma_replay_latest(t, d, k, i);
        assert(s.last() == s[s.len() - 1]);
    }
}

/// Trails are dropped only for aircraft no longer in the fetched list: after
/// a fetch an aircraft has a trail exactly when the fetch lists it and it
/// either had a trail before or came with a position.
pub proof fn lemma_update_keys<P>(m: Map<Seq<char>, Seq<P>>, s: Seq<Sighting<P>>, k: Seq<char>)
    ensures
        spec_update(m, s).contains_key(k) <==> ((exists|i: int| 0 <= i < s.len() && s[i].hex@ == k)
            && (m.contains_key(k) || exists|i: int|
            0 <= i < s.len() && s[i].hex@ == k && s[i].position is Some)),
{
}

/// An aircraft still in the fetched list that came without a position keeps
/// its trail unchanged.
pub proof fn lemma_positionless_keeps_trail<P>(
    m: Map<Seq<char>, Seq<P>>,
    s: Seq<Sighting<P>>,
    k: Seq<char>,
    i: int,
)
    requires
        m.contains_key(k),
        0 <= i < s.len(),
        s[i].hex@ == k,
        forall|j: int| 0 <= j < s.len() && #[trigger] s[j].hex@ == k ==> s[j].position is None,
    ensures
        spec_update(m, s).contains_key(k),
        spec_update(m, s)[k] == m[k],
{
    assert(listed(s).contains(k));
    assert(!seen(s).contains(k));
    lemma_replay_unseen(m[k], s, k);
}

pub open spec fn keys_unique<P>(v: Seq<(String, VecDeque<P>)>) -> bool {
    forall|i: int, j: int| 0 <= i < j < v.len() ==> v[i].0@ != v[j].0@
}

pub open spec fn has_key<P>(v: Seq<(String, VecDeque<P>)>, k: Seq<char>) -> bool {
    exists|i: int| 0 <= i < v.len() && v[i].0@ == k
}

pub open spec fn key_index<P>(v: Seq<(String, VecDeque<P>)>, k: Seq<char>) -> int {
    choose|i: int| 0 <= i < v.len() && v[i].0@ == k
}

pub open spec fn entries_view<P>(v: Seq<(String, VecDeque<P>)>) -> Map<Seq<char>, Seq<P>> {
    Map::new(|k: Seq<char>| has_key(v, k), |k: Seq<char>| v[key_index(v, k)].1@)
}

/// Every aircraft has at most one trail, and every trail holds between one
/// and `MAX_TRAIL_POINTS` points.
pub open spec fn trails_wf<P>(v: Seq<(String, VecDeque<P>)>) -> bool {
    &&& keys_unique(v)
    &&& forall|i: int| 0 <= i < v.len() ==> 1 <= (#[trigger] v[i]).1@.len() <= MAX_TRAIL_POINTS
}

/// The trails of the aircraft of the latest fetch, keyed by hex address.
///
/// The trails are held as a `Vec` of (hex, trail) pairs with unique keys
/// rather than a `std::collections::HashMap`: vstd specifies `HashMap` only
/// for key types that `obeys_key_model`, which it states for primitive
/// types and their boxes but not for `String`, so a `String`-keyed map
/// would give these proofs no contract to work with.
pub struct TrailStore<P> {
    trails: Vec<(String, VecDeque<P>)>,
}

impl<P> TrailStore<P> {
    #[verifier::type_invariant]
    spec fn well_formed(self) -> bool {
        trails_wf(self.trails@)
    }
}

impl<P> View for TrailStore<P> {
    type V = Map<Seq<char>, Seq<P>>;

    closed spec fn view(&self) -> Map<Seq<char>, Seq<P>> {
        entries_view(self.trails@)
    }
}

proof fn lemma_view_at<P>(v: Seq<(String, VecDeque<P>)>, i: int)
    requires
        keys_unique(v),
        0 <= i < v.len(),
    ensures
        entries_view(v).contains_key(v[i].0@),
        entries_view(v)[v[i].0@] == v[i].1@,
{
    assert(has_key(v, v[i].0@));
    let j = key_index(v, v[i].0@);
    assert(v[j].0@ == v[i].0@);
}

proof fn lemma_view_set<P>(v: Seq<(String, VecDeque<P>)>, i: int, e: (String, VecDeque<P>))
    requires
        keys_unique(v),
        0 <= i < v.len(),
        e.0@ == v[i].0@,
    ensures
        keys_unique(v.update(i, e)),
        entries_view(v.update(i, e)) == entries_view(v).insert(e.0@, e.1@),
{
    let w = v.update(i, e);
    assert forall|k: Seq<char>| has_key(w, k) == has_key(v, k) by {
        if has_key(v, k) {
            let j = key_index(v, k);
            assert(w[j].0@ == k);
        }
        if has_key(w, k) {
            let j = key_index(w, k);
            assert(v[j].0@ == k);
        }
    }
    assert forall|k: Seq<char>| #[trigger] entries_view(w).contains_key(k) implies entries_view(w)[k]
        == entries_view(v).insert(e.0@, e.1@)[k] by {
        let j = key_index(w, k);
        if k == e.0@ {
            assert(j == i);
        } else {
            lemma_view_at(v, j);
        }
    }
    assert(entries_view(w) =~= entries_view(v).insert(e.0@, e.1@));
}

proof fn lemma_view_push<P>(v: Seq<(String, VecDeque<P>)>, e: (String, VecDeque<P>))
    requires
        keys_unique(v),
        !has_key(v, e.0@),
    ensures
        keys_unique(v.push(e)),
        entries_view(v.push(e)) == entries_view(v).insert(e.0@, e.1@),
{
    let w = v.push(e);
    assert forall|k: Seq<char>| has_key(w, k) == (has_key(v, k) || k == e.0@) by {
        if has_key(v, k) {
            let j = key_index(v, k);
            assert(w[j].0@ == k);
        }
        if k == e.0@ {
            assert(w[v.len() as int].0@ == k);
        }
    }
    assert forall|k: Seq<char>| #[trigger] entries_view(w).contains_key(k) implies entries_view(w)[k]
        == entries_view(v).insert(e.0@, e.1@)[k] by {
        let j = key_index(w, k);
        if k == e.0@ {
            assert(j == v.len());
        } else {
            lemma_view_at(v, j);
        }
    }
    assert(entries_view(w) =~= entries_view(v).insert(e.0@, e.1@));
}

impl<P: Copy> TrailStore<P> {
    /// An empty store.
    pub fn new() -> (s: Self)
        ensures
            s@ == Map::<Seq<char>, Seq<P>>::empty(),
    {
        let s = TrailStore { trails: Vec::new() };
        assert(s@ =~= Map::<Seq<char>, Seq<P>>::empty());
        s
    }

    /// The trail of the aircraft with hex address `hex`, oldest point first.
    pub fn get(&self, hex: &str) -> (r: Option<&VecDeque<P>>)
        ensures
            match r {
                Some(t) => self@.contains_key(hex@) && t@ == self@[hex@] && 1 <= t@.len()
                    <= MAX_TRAIL_POINTS,
                None => !self@.contains_key(hex@),
            },
    {
        proof {
            use_type_invariant(&*self);
        }
        match find_in(&self.trails, hex) {
            Some(i) => {
                proof {
                    lemma_view_at(self.trails@, i as int);
                }
                Some(&self.trails[i].1)
            },
            None => None,
        }
    }

    /// Appends each aircraft's position to its trail (starting a trail for
    /// an aircraft not seen before, dropping the oldest point past
    /// `MAX_TRAIL_POINTS`), then drops the trails of aircraft no longer in
    /// the fetched list. An aircraft listed without a position keeps its
    /// trail as it was.
    pub fn update(&mut self, aircraft: &[Sighting<P>])
        ensures
            final(self)@ == spec_update(old(self)@, aircraft@),
            forall|k: Seq<char>| #[trigger] final(self)@.contains_key(k) ==> 1 <= final(self)@[k].len()
                <= MAX_TRAIL_POINTS,
    {
        proof {
            use_type_invariant(&*self);
        }
        let ghost m0 = self@;
        let mut trails: Vec<(String, VecDeque<P>)> = Vec::new();
        std::mem::swap(&mut trails, &mut self.trails);
        let ghost s = aircraft@;
        let mut listed_hex: Vec<String> = Vec::new();
        let n = aircraft.len();
        let mut i: usize = 0;
        assert(seen(s.subrange(0, 0)) =~= Set::empty());
        assert(listed(s.subrange(0, 0)) =~= Set::empty());
        while i < n
            invariant
                trails_wf(trails@),
                n == s.len(),
                s == aircraft@,
                i <= n,
                forall|k: Seq<char>|
                    #![trigger entries_view(trails@).contains_key(k)]
                    entries_view(trails@).contains_key(k) <==> (m0.contains_key(k) || seen(s.subrange(0, i as int)).contains(k)),
                forall|k: Seq<char>|
                    #![trigger entries_view(trails@)[k]]
                    entries_view(trails@).contains_key(k) ==> entries_view(trails@)[k] == replay(
                        trail_or_empty(m0, k),
                        s.subrange(0, i as int),
                        k,
                    ),
                forall|k: Seq<char>|
                    #![trigger listed(s.subrange(0, i as int)).contains(k)]
                    listed(s.subrange(0, i as int)).contains(k) <==> exists|j: int|
                        0 <= j < listed_hex@.len() && listed_hex@[j]@ == k,
            decreases n - i,
        {
            let ghost pre = s.subrange(0, i as int);
            let ghost post = s.subrange(0, i + 1);
            assert(post =~= pre.push(s[i as int]));
            assert(post.drop_last() =~= pre);
            assert(post.last() == s[i as int]);
            proof {
                lemma_sets_push(pre, s[i as int]);
            }
            let ghost v0 = entries_view(trails@);
            let a = &aircraft[i];
            let ghost lh0 = listed_hex@;
            listed_hex.push(a.hex.clone());
            proof {
                assert forall|k: Seq<char>| #![trigger listed(post).contains(k)]
                    listed(post).contains(k) <==> exists|j: int| 0 <= j < listed_hex@.len() && listed_hex@[j]@ == k by {
                    if k == a.hex@ {
                        assert(listed_hex@[listed_hex@.len() - 1]@ == k);
                    }
                    if exists|j: int| 0 <= j < listed_hex@.len() && listed_hex@[j]@ == k {
                        let j = choose|j: int| 0 <= j < listed_hex@.len() && listed_hex@[j]@ == k;
                        if j < lh0.len() {
                            assert(lh0[j] == listed_hex@[j]);
                            assert(listed(pre).contains(k));
                        }
                    }
                    if listed(pre).contains(k) {
                        let j = choose|j: int| 0 <= j < lh0.len() && lh0[j]@ == k;
                        assert(listed_hex@[j] == lh0[j]);
                    }
                }
            }
            match &a.position {
                Some(p) => {
                    let p: P = *p;
                    match find_in(&trails, a.hex.as_str()) {
                        Some(j) => {
                            proof {
                                lemma_view_at(trails@, j as int);
                            }
                            let ghost t0 = trails@[j as int].1@;
                            let ghost before = trails@;
                            trails[j].1.push_back(p);
                            if trails[j].1.len() > MAX_TRAIL_POINTS {
                                trails[j].1.pop_front();
                            }
                            proof {
                                assert(trails@ == before.update(j as int, trails@[j as int]));
                                assert(trails@[j as int].1@ =~= trail_push(t0, p));
                                lemma_view_set(before, j as int, trails@[j as int]);
                            }
                        },
                        None => {
                            let mut t: VecDeque<P> = VecDeque::new();
                            t.push_back(p);
                            let ghost before = trails@;
                            trails.push((a.hex.clone(), t));
                            proof {
                                assert(trails@ == before.push(trails@[before.len() as int]));
                                lemma_view_push(before, trails@[before.len() as int]);
                                assert(!v0.contains_key(a.hex@));
                                assert(trail_or_empty(m0, a.hex@) =~= Seq::<P>::empty()) by {
                                    if m0.contains_key(a.hex@) {
                                        assert(v0.contains_key(a.hex@));
                                    }
                                }
                                assert(replay(trail_or_empty(m0, a.hex@), pre, a.hex@) =~= Seq::<P>::empty()) by {
                                    lemma_replay_unseen(trail_or_empty(m0, a.hex@), pre, a.hex@);
                                }
                            }
                        },
                    }
                },
                None => {},
            }
            i = i + 1;
        }
        assert(s.subrange(0, n as int) =~= s);
        let ghost mid = entries_view(trails@);
        let mut rest: Vec<(String, VecDeque<P>)> = Vec::new();
        std::mem::swap(&mut rest, &mut trails);
        let ghost all = rest@;
        assert(entries_view(trails@) =~= Map::<Seq<char>, Seq<P>>::empty());
        while rest.len() > 0
            invariant
                keys_unique(all),
                forall|q: int| 0 <= q < all.len() ==> 1 <= (#[trigger] all[q]).1@.len() <= MAX_TRAIL_POINTS,
                entries_view(all) == mid,
                rest@.len() <= all.len(),
                rest@ == all.subrange(0, rest@.len() as int),
                trails_wf(trails@),
                forall|k: Seq<char>|
                    #![trigger entries_view(trails@).contains_key(k)]
                    entries_view(trails@).contains_key(k) <==> (listed(s).contains(k) && exists|q: int|
                        rest@.len() <= q < all.len() && all[q].0@ == k),
                forall|k: Seq<char>| #![trigger entries_view(trails@)[k]] entries_view(trails@).contains_key(k) ==> entries_view(trails@)[k] == mid[k],
                forall|k: Seq<char>|
                    #![trigger listed(s).contains(k)]
                    listed(s).contains(k) <==> exists|j: int| 0 <= j < listed_hex@.len() && listed_hex@[j]@ == k,
            decreases rest@.len(),
        {
            let ghost m = rest@.len() - 1;
            let e = rest.pop().unwrap();
            proof {
                assert(e == all[m]);
                lemma_view_at(all, m);
            }
            let keep = contains_hex(&listed_hex, &e.0);
            let ghost before = trails@;
            let ghost bv = entries_view(trails@);
            let ghost k0 = e.0@;
            if keep {
                proof {
                    if has_key(before, k0) {
                        let w = key_index(before, k0);
                        lemma_view_at(before, w);
                        assert(entries_view(trails@).contains_key(k0));
                        let q = choose|q: int| rest@.len() + 1 <= q < all.len() && all[q].0@ == k0;
                        assert(all[q].0@ == all[m].0@);
                    }
                }
                trails.push(e);
                proof {
                    assert(trails@ == before.push(trails@[before.len() as int]));
                    lemma_view_push(before, trails@[before.len() as int]);
                }
            }
            proof {
                assert(keep <==> listed(s).contains(k0));
                assert forall|k: Seq<char>| #![trigger entries_view(trails@).contains_key(k)]
                    entries_view(trails@).contains_key(k) <==> (listed(s).contains(k) && exists|q: int|
                        m <= q < all.len() && all[q].0@ == k) by {
                    if k == k0 {
                        assert(all[m].0@ == k);
                        if keep {
                            assert(entries_view(trails@).contains_key(k));
                        } else {
                            assert(entries_view(trails@) == bv);
                        }
                    } else {
                        assert(entries_view(trails@).contains_key(k) == bv.contains_key(k));
                        if exists|q: int| m <= q < all.len() && all[q].0@ == k {
                            let q = choose|q: int| m <= q < all.len() && all[q].0@ == k;
                            assert(q != m);
                        }
                    }
                }
                assert forall|k: Seq<char>| #![trigger entries_view(trails@)[k]] entries_view(trails@).contains_key(k) implies entries_view(trails@)[k] == mid[k] by {
                    if k == k0 && keep {
                    } else {
                        assert(bv.contains_key(k));
                    }
                }
            }
        }
        proof {
            assert forall|k: Seq<char>| #![trigger entries_view(trails@).contains_key(k)]
                entries_view(trails@).contains_key(k) <==> (listed(s).contains(k) && mid.contains_key(k)) by {
                if listed(s).contains(k) && mid.contains_key(k) {
                    let q = key_index(all, k);
                }
            }
            assert(entries_view(trails@) =~= spec_update(m0, s));
        }
        proof {
            lemma_view_bounds(trails@);
        }
        self.trails = trails;
    }
}

impl<P: Copy> Default for TrailStore<P> {
    /// An empty store.
    fn default() -> (s: Self)
        ensures
            s@ == Map::<Seq<char>, Seq<P>>::empty(),
    {
        Self::new()
    }
}

fn find_in<P>(v: &Vec<(String, VecDeque<P>)>, hex: &str) -> (r: Option<usize>)
    ensures
        match r {
            Some(i) => i < v@.len() && v@[i as int].0@ == hex@,
            None => !has_key(v@, hex@),
        },
{
    let n = v.len();
    let mut i: usize = 0;
    while i < n
        invariant
            n == v@.len(),
            i <= n,
            forall|j: int| 0 <= j < i ==> v@[j].0@ != hex@,
        decreases n - i,
    {
        if crate::text::str_eq(v[i].0.as_str(), hex) {
            return Some(i);
        }
        i = i + 1;
    }
    None
}

fn contains_hex(v: &Vec<String>, hex: &String) -> (r: bool)
    ensures
        r == exists|j: int| 0 <= j < v@.len() && v@[j]@ == hex@,
{
    let n = v.len();
    let mut i: usize = 0;
    while i < n
        invariant
            n == v@.len(),
            i <= n,
            forall|j: int| 0 <= j < i ==> v@[j]@ != hex@,
        decreases n - i,
    {
        if v[i] == *hex {
            return true;
        }
        i = i + 1;
    }
    false
}

/// Every trail of a well-formed store holds between one and
/// `MAX_TRAIL_POINTS` points.
proof fn lemma_view_bounds<P>(v: Seq<(String, VecDeque<P>)>)
    requires
        trails_wf(v),
    ensures
        forall|k: Seq<char>| #[trigger] entries_view(v).contains_key(k) ==> 1 <= entries_view(v)[k].len()
            <= MAX_TRAIL_POINTS,
{
    assert forall|k: Seq<char>| #[trigger] entries_view(v).contains_key(k) implies 1 <= entries_view(
        v,
    )[k].len() <= MAX_TRAIL_POINTS by {
        let i = key_index(v, k);
        lemma_view_at(v, i);
    }
}

} // verus!
