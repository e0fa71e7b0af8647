//! Fog of war: when each observer last reported, and what it reported.

use std::collections::HashMap;

use vstd::prelude::*;
use vstd::std_specs::iter::IteratorSpec;

use crate::model::id::EntityId;
use crate::model::observation::Observation;

verus! {

broadcast use vstd::std_specs::hash::group_hash_axioms;

/// The age at `now` of an observation made at `timestamp`; zero if it was
/// made later than `now`.
pub open spec fn age(timestamp: u64, now: u64) -> u64 {
    if now >= timestamp {
        (now - timestamp) as u64
    } else {
        0
    }
}

/// The observers `ids`, with `id` added at the end if it was not there.
pub open spec fn adding_observer(ids: Seq<EntityId>, id: EntityId) -> Seq<EntityId> {
    if ids.contains(id) {
        ids
    } else {
        ids.push(id)
    }
}

/// The observers `ids` after the reports `obs` were recorded in order.
pub open spec fn observers_after<R>(ids: Seq<EntityId>, obs: Seq<Observation<R>>) -> Seq<EntityId>
    decreases obs.len(),
{
    if obs.len() == 0 {
        ids
    } else {
        adding_observer(observers_after(ids, obs.drop_last()), obs.last().observer_id)
    }
}

/// The reports among `obs` made by `id`, in order.
pub open spec fn reports_by<R>(obs: Seq<Observation<R>>, id: EntityId) -> Seq<Observation<R>> {
    obs.filter(|o: Observation<R>| o.observer_id == id)
}


/// Whether `walk` lists the observers `ids` once each, in some order.
pub open spec fn lists_same(walk: Seq<EntityId>, ids: Seq<EntityId>) -> bool {
    &&& walk.no_duplicates()
    &&& walk.len() == ids.len()
    &&& forall|x: EntityId| walk.contains(x) <==> ids.contains(x)
}

/// The observers that a walk over a map keyed by raw identifiers visits,
/// in the order of the walk.
spec fn walk_ids<V>(pairs: Seq<(&u64, &V)>) -> Seq<EntityId> {
    pairs.map_values(|p: (&u64, &V)| EntityId(*p.0))
}

/// The bookkeeping of a fog of war: its thresholds, when each observer last
/// reported and what it reported, both keyed by the observer's raw
/// identifier, and the observers in the order they were first heard.
struct Tracks<R> {
    fresh_threshold: u64,
    stale_threshold: u64,
    last_observation_tick: HashMap<u64, u64>,
    tracked_observations: HashMap<u64, Vec<Observation<R>>>,
    heard: Ghost<Seq<EntityId>>,
}

impl<R> Tracks<R> {
    spec fn fresh_limit(&self) -> u64 {
        self.fresh_threshold
    }

    spec fn stale_limit(&self) -> u64 {
        self.stale_threshold
    }

    spec fn observers(&self) -> Seq<EntityId> {
        self.heard@
    }

    spec fn observations_of(&self, id: EntityId) -> Seq<Observation<R>> {
        if self.tracked_observations@.contains_key(id.0) {
            self.tracked_observations@[id.0]@
        } else {
            Seq::empty()
        }
    }

    /// The bookkeeping is consistent: the observers heard are those with
    /// reports, each once; no observer's reports are empty, each holds only
    /// that observer's reports, the tick of its latest report is the one
    /// kept, and the total count fits in a `usize`.
    spec fn wf(&self) -> bool {
        &&& self.heard@.no_duplicates()
        &&& forall|id: EntityId|
            #![trigger self.heard@.contains(id)]
            self.heard@.contains(id) <==> self.tracked_observations@.contains_key(id.0)
        &&& forall|k: u64|
            #![trigger self.tracked_observations@.contains_key(k)]
            self.tracked_observations@.contains_key(k) ==> {
                &&& self.tracked_observations@[k]@.len() > 0
                &&& self.last_observation_tick@.contains_key(k)
                &&& self.last_observation_tick@[k]
                    == self.tracked_observations@[k]@.last().timestamp
                &&& forall|j: int|
                    0 <= j < self.tracked_observations@[k]@.len() ==> (
                    #[trigger] self.tracked_observations@[k]@[j]).observer_id == EntityId(k)
            }
        &&& forall|k: u64|
            #![trigger self.last_observation_tick@.contains_key(k)]
            self.last_observation_tick@.contains_key(k) ==> self.tracked_observations@.contains_key(
                k,
            )
        &&& self.count_among(self.heard@) <= usize::MAX
    }

    spec fn count_among(&self, ids: Seq<EntityId>) -> nat
        decreases ids.len(),
    {
        if ids.len() == 0 {
            0
        } else {
            self.count_among(ids.drop_last()) + self.observations_of(ids.last()).len()
        }
    }

    spec fn fresh_among(&self, ids: Seq<EntityId>, now: u64, threshold: u64) -> Seq<
        Observation<R>,
    >
        decreases ids.len(),
    {
        if ids.len() == 0 {
            Seq::empty()
        } else {
            self.fresh_among(ids.drop_last(), now, threshold) + self.observations_of(
                ids.last(),
            ).filter(|o: Observation<R>| age(o.timestamp, now) <= threshold)
        }
    }

    spec fn gap(&self, id: EntityId, now: u64) -> u64 {
        let obs = self.observations_of(id);
        if obs.len() == 0 {
            u64::MAX
        } else if now >= obs.last().timestamp {
            (now - obs.last().timestamp) as u64
        } else {
            0
        }
    }

    proof fn lemma_count_prefix(&self, ids: Seq<EntityId>, k: int)
        requires
            0 <= k <= ids.len(),
        ensures
            self.count_among(ids.take(k)) <= self.count_among(ids),
        decreases ids.len(),
    {
        if k < ids.len() {
            assert(ids.drop_last().take(k) =~= ids.take(k));
            self.lemma_count_prefix(ids.drop_last(), k);
        } else {
            assert(ids.take(k) =~= ids);
        }
    }

    proof fn lemma_count_same(a: &Self, b: &Self, ids: Seq<EntityId>)
        requires
            forall|id: EntityId| a.observations_of(id) == b.observations_of(id),
        ensures
            a.count_among(ids) == b.count_among(ids),
        decreases ids.len(),
    {
        if ids.len() > 0 {
            Self::lemma_count_same(a, b, ids.drop_last());
        }
    }

    proof fn lemma_count_after_push(a: &Self, b: &Self, ids: Seq<EntityId>, x: EntityId)
        requires
            forall|id: EntityId| id != x ==> b.observations_of(id) == a.observations_of(id),
            b.observations_of(x).len() == a.observations_of(x).len() + 1,
            ids.no_duplicates(),
        ensures
            b.count_among(ids) == a.count_among(ids) + if ids.contains(x) {
                1int
            } else {
                0int
            },
        decreases ids.len(),
    {
        if ids.len() > 0 {
            let d = ids.drop_last();
            assert(d.no_duplicates());
            Self::lemma_count_after_push(a, b, d, x);
            if ids.last() == x {
                assert(!d.contains(x));
            } else {
                assert(d.contains(x) == ids.contains(x)) by {
                    if ids.contains(x) {
                        let k = choose|k: int| 0 <= k < ids.len() && ids[k] == x;
                        assert(d[k] == x);
                    }
                }
            }
        }
    }

    /// Taking one observer out of a list takes its reports out of the count.
    proof fn lemma_count_remove(&self, ids: Seq<EntityId>, i: int)
        requires
            0 <= i < ids.len(),
        ensures
            self.count_among(ids) == self.count_among(ids.remove(i)) + self.observations_of(
                ids[i],
            ).len(),
        decreases ids.len(),
    {
        if i == ids.len() - 1 {
            assert(ids.remove(i) =~= ids.drop_last());
        } else {
            let d = ids.drop_last();
            self.lemma_count_remove(d, i);
            assert(ids.remove(i).drop_last() =~= d.remove(i));
            assert(ids.remove(i).last() == ids.last());
        }
    }

    /// The count does not depend on the order in which the observers are
    /// listed.
    proof fn lemma_count_permutation(&self, s: Seq<EntityId>, t: Seq<EntityId>)
        requires
            s.no_duplicates(),
            t.no_duplicates(),
            forall|x: EntityId| s.contains(x) <==> t.contains(x),
        ensures
            self.count_among(s) == self.count_among(t),
        decreases s.len(),
    {
        if s.len() == 0 {
            if t.len() > 0 {
                assert(t.contains(t[0]));
            }
        } else {
            let x = s.last();
            assert(s.contains(x));
            let i = choose|i: int| 0 <= i < t.len() && t[i] == x;
            self.lemma_count_remove(t, i);
            let s1 = s.drop_last();
            let t1 = t.remove(i);
            assert forall|a: int, b: int| 0 <= a < t1.len() && 0 <= b < t1.len() && a != b implies t1[a]
                != t1[b] by {
                let a0 = if a < i { a } else { a + 1 };
                let b0 = if b < i { b } else { b + 1 };
                assert(t1[a] == t[a0]);
                assert(t1[b] == t[b0]);
            }
            assert forall|y: EntityId| s1.contains(y) <==> t1.contains(y) by {
                if s1.contains(y) {
                    let a = choose|a: int| 0 <= a < s1.len() && s1[a] == y;
                    assert(s[a] == y);
                    assert(y != x);
                    assert(t.contains(y));
                    let b = choose|b: int| 0 <= b < t.len() && t[b] == y;
                    assert(b != i);
                    if b < i {
                        assert(t1[b] == y);
                    } else {
                        assert(t1[b - 1] == y);
                    }
                }
                if t1.contains(y) {
                    let b = choose|b: int| 0 <= b < t1.len() && t1[b] == y;
                    let b0 = if b < i { b } else { b + 1 };
                    assert(t[b0] == y);
                    assert(b0 != i);
                    assert(y != x);
                    assert(s.contains(y));
                    let a = choose|a: int| 0 <= a < s.len() && s[a] == y;
                    assert(a != s.len() - 1);
                    assert(s1[a] == y);
                }
            }
            self.lemma_count_permutation(s1, t1);
        }
    }

    /// The observers that a walk over the reports visits are those heard,
    /// each once.
    proof fn lemma_walk_lists_observers(&self, pairs: Seq<(&u64, &Vec<Observation<R>>)>)
        requires
            self.wf(),
            pairs.no_duplicates(),
            forall|j: int|
                0 <= j < pairs.len() ==> self.tracked_observations@.contains_key(*pairs[j].0)
                    && self.tracked_observations@[*pairs[j].0] == *pairs[j].1,
            forall|k: u64|
                self.tracked_observations@.contains_key(k) ==> pairs.contains(
                    (&k, &self.tracked_observations@[k]),
                ),
            pairs.len() == self.tracked_observations@.dom().len(),
        ensures
            lists_same(walk_ids(pairs), self.heard@),
    {
        let w = walk_ids(pairs);
        assert forall|a: int, b: int| 0 <= a < w.len() && 0 <= b < w.len() && a != b implies w[a]
            != w[b] by {
            assert(pairs[a] != pairs[b]);
            if w[a] == w[b] {
                assert(*pairs[a].0 == *pairs[b].0);
            }
        }
        assert forall|x: EntityId| w.contains(x) <==> self.heard@.contains(x) by {
            if w.contains(x) {
                let a = choose|a: int| 0 <= a < w.len() && w[a] == x;
                assert(self.tracked_observations@.contains_key(*pairs[a].0));
                assert(x.0 == *pairs[a].0);
            }
            if self.heard@.contains(x) {
                let k = x.0;
                assert(self.tracked_observations@.contains_key(k));
                assert(pairs.contains((&k, &self.tracked_observations@[k])));
                let a = choose|a: int|
                    0 <= a < pairs.len() && pairs[a] == (&k, &self.tracked_observations@[k]);
                assert(w[a] == EntityId(k));
                assert(EntityId(k) == x);
            }
        }
        self.heard@.unique_seq_to_set();
        w.unique_seq_to_set();
        assert(w.to_set() =~= self.heard@.to_set());
    }

    fn new(fresh_threshold: u64, stale_threshold: u64) -> (f: Self)
        ensures
            f.wf(),
            f.fresh_limit() == fresh_threshold,
            f.stale_limit() == stale_threshold,
            f.observers() == Seq::<EntityId>::empty(),
            forall|id: EntityId| f.observations_of(id) == Seq::<Observation<R>>::empty(),
    {
        Tracks {
            fresh_threshold,
            stale_threshold,
            last_observation_tick: HashMap::new(),
            tracked_observations: HashMap::new(),
            heard: Ghost(Seq::empty()),
        }
    }

    fn fresh_threshold(&self) -> (t: u64)
        ensures
            t == self.fresh_limit(),
    {
        self.fresh_threshold
    }

    fn stale_threshold(&self) -> (t: u64)
        ensures
            t == self.stale_limit(),
    {
        self.stale_threshold
    }

    fn set_fresh_threshold(&mut self, t: u64)
        requires
            old(self).wf(),
        ensures
            final(self).wf(),
            final(self).fresh_limit() == t,
            final(self).stale_limit() == old(self).stale_limit(),
            final(self).observers() == old(self).observers(),
            forall|id: EntityId| final(self).observations_of(id) == old(self).observations_of(id),
    {
        let ghost before = *self;
        self.fresh_threshold = t;
        proof {
            Self::lemma_count_same(self, &before, self.observers());
        }
    }

    fn set_stale_threshold(&mut self, t: u64)
        requires
            old(self).wf(),
        ensures
            final(self).wf(),
            final(self).stale_limit() == t,
            final(self).fresh_limit() == old(self).fresh_limit(),
            final(self).observers() == old(self).observers(),
            forall|id: EntityId| final(self).observations_of(id) == old(self).observations_of(id),
    {
        let ghost before = *self;
        self.stale_threshold = t;
        proof {
            Self::lemma_count_same(self, &before, self.observers());
        }
    }

    fn ticks_since_last_observation(&self, observer_id: EntityId, current_tick: u64) -> (g: u64)
        requires
            self.wf(),
        ensures
            g == self.gap(observer_id, current_tick),
    {
        let k = observer_id.0;
        match self.last_observation_tick.get(&k) {
            Some(last) => {
                assert(self.tracked_observations@.contains_key(k));
                current_tick.saturating_sub(*last)
            },
            None => {
                assert(!self.tracked_observations@.contains_key(k));
                u64::MAX
            },
        }
    }

    fn is_fresh(&self, observer_id: EntityId, current_tick: u64) -> (b: bool)
        requires
            self.wf(),
        ensures
            b == (self.gap(observer_id, current_tick) <= self.fresh_limit()),
    {
        self.ticks_since_last_observation(observer_id, current_tick) <= self.fresh_threshold
    }

    fn is_stale(&self, observer_id: EntityId, current_tick: u64) -> (b: bool)
        requires
            self.wf(),
        ensures
            b == (self.fresh_limit() < self.gap(observer_id, current_tick)
                <= self.stale_limit()),
    {
        let gap = self.ticks_since_last_observation(observer_id, current_tick);
        gap > self.fresh_threshold && gap <= self.stale_threshold
    }

    fn is_unknown(&self, observer_id: EntityId) -> (b: bool)
        requires
            self.wf(),
        ensures
            b == (self.observations_of(observer_id).len() == 0),
    {
        let k = observer_id.0;
        let known = self.last_observation_tick.contains_key(&k);
        proof {
            if self.tracked_observations@.contains_key(k) {
                assert(self.last_observation_tick@.contains_key(k));
            }
        }
        !known
    }

    fn observations_for(&self, observer_id: EntityId) -> (s: &[Observation<R>])
        requires
            self.wf(),
        ensures
            s@ == self.observations_of(observer_id),
    {
        match self.tracked_observations.get(&observer_id.0) {
            Some(v) => v.as_slice(),
            None => &[],
        }
    }

    fn latest_observation(&self, observer_id: EntityId) -> (r: Option<&Observation<R>>)
        requires
            self.wf(),
        ensures
            self.observations_of(observer_id).len() == 0 ==> r is None,
            self.observations_of(observer_id).len() > 0 ==> r == Some(
                &self.observations_of(observer_id).last(),
            ),
    {
        match self.tracked_observations.get(&observer_id.0) {
            Some(v) => {
                let n = v.len();
                if n == 0 {
                    None
                } else {
                    Some(&v[n - 1])
                }
            },
            None => None,
        }
    }

    fn total_observations(&self) -> (n: usize)
        requires
            self.wf(),
        ensures
            n == self.count_among(self.observers()),
    {
        let mut n: usize = 0;
        let walk = self.tracked_observations.iter();
        let ghost pairs = IteratorSpec::remaining(&walk);
        let ghost w = walk_ids(pairs);
        proof {
            self.lemma_walk_lists_observers(pairs);
            self.lemma_count_permutation(w, self.heard@);
        }
        for (k, v) in it: walk
            invariant
                self.wf(),
                it.seq() == pairs,
                w == walk_ids(pairs),
                lists_same(w, self.heard@),
                self.count_among(w) == self.count_among(self.heard@),
                forall|j: int|
                    0 <= j < pairs.len() ==> self.tracked_observations@.contains_key(*pairs[j].0)
                        && self.tracked_observations@[*pairs[j].0] == *pairs[j].1,
                n == self.count_among(w.take(it.index() as int)),
        {
            let ghost i = it.index() as int;
            proof {
                self.lemma_count_prefix(w, i + 1);
                assert(w.take(i + 1).drop_last() =~= w.take(i));
                assert(w[i] == EntityId(*k));
                assert(self.observations_of(w[i]) == v@);
            }
            n = n + v.len();
        }
        proof {
            assert(w.take(w.len() as int) =~= w);
        }
        n
    }

    fn clear(&mut self)
        ensures
            final(self).wf(),
            final(self).fresh_limit() == old(self).fresh_limit(),
            final(self).stale_limit() == old(self).stale_limit(),
            final(self).observers() == Seq::<EntityId>::empty(),
            forall|id: EntityId| final(self).observations_of(id) == Seq::<Observation<R>>::empty(),
    {
        self.last_observation_tick.clear();
        self.tracked_observations.clear();
        self.heard = Ghost(Seq::empty());
    }

    /// The observations of every observer that are fresh at `current_tick`,
    /// observer by observer in the order the reports are walked.
    fn fresh_observations(&self, current_tick: u64) -> (r: Vec<&Observation<R>>)
        requires
            self.wf(),
        ensures
            exists|walk: Seq<EntityId>|
                lists_same(walk, self.observers()) && r@.map_values(|o: &Observation<R>| *o)
                    == #[trigger] self.fresh_among(walk, current_tick, self.fresh_limit()),
    {
        let mut r: Vec<&Observation<R>> = Vec::new();
        let walk = self.tracked_observations.iter();
        let ghost pairs = IteratorSpec::remaining(&walk);
        let ghost w = walk_ids(pairs);
        proof {
            self.lemma_walk_lists_observers(pairs);
            assert(r@.map_values(|o: &Observation<R>| *o) =~= self.fresh_among(
                w.take(0),
                current_tick,
                self.fresh_threshold,
            ));
        }
        for (k, v) in it: walk
            invariant
                self.wf(),
                it.seq() == pairs,
                w == walk_ids(pairs),
                lists_same(w, self.heard@),
                forall|j: int|
                    0 <= j < pairs.len() ==> self.tracked_observations@.contains_key(*pairs[j].0)
                        && self.tracked_observations@[*pairs[j].0] == *pairs[j].1,
                r@.map_values(|o: &Observation<R>| *o) == self.fresh_among(
                    w.take(it.index() as int),
                    current_tick,
                    self.fresh_threshold,
                ),
        {
            let ghost i = it.index() as int;
            let ghost prefix = r@.map_values(|o: &Observation<R>| *o);
            let ghost obs = v@;
            proof {
                assert(w[i] == EntityId(*k));
                assert(self.observations_of(w[i]) == obs);
                assert(obs.take(0) =~= Seq::<Observation<R>>::empty());
                assert(r@.map_values(|o: &Observation<R>| *o) =~= prefix + obs.take(0).filter(
                    |o: Observation<R>| age(o.timestamp, current_tick) <= self.fresh_threshold,
                ));
            }
            let mut j: usize = 0;
            while j < v.len()
                invariant
                    obs == v@,
                    j <= obs.len(),
                    r@.map_values(|o: &Observation<R>| *o) == prefix + obs.take(j as int).filter(
                        |o: Observation<R>| age(o.timestamp, current_tick) <= self.fresh_threshold,
                    ),
                decreases obs.len() - j,
            {
                let o = &v[j];
                let ghost before_push = r@.map_values(|o: &Observation<R>| *o);
                let ghost keep = age(o.timestamp, current_tick) <= self.fresh_threshold;
                proof {
                    assert(*o == obs[j as int]);
                    assert(obs.take(j + 1).drop_last() =~= obs.take(j as int));
                    assert(obs.take(j + 1).last() == obs[j as int]);
                    reveal_with_fuel(Seq::<_>::filter, 1);
                    assert(obs.take(j + 1).filter(
                        |o: Observation<R>| age(o.timestamp, current_tick) <= self.fresh_threshold,
                    ) == if keep {
                        obs.take(j as int).filter(
                            |o: Observation<R>| age(o.timestamp, current_tick)
                                <= self.fresh_threshold,
                        ).push(obs[j as int])
                    } else {
                        obs.take(j as int).filter(
                            |o: Observation<R>| age(o.timestamp, current_tick)
                                <= self.fresh_threshold,
                        )
                    });
                }
                if current_tick.saturating_sub(o.timestamp) <= self.fresh_threshold {
                    r.push(o);
                    proof {
                        assert(r@.map_values(|o: &Observation<R>| *o) =~= before_push.push(*o));
                    }
                }
                proof {
                    assert(r@.map_values(|o: &Observation<R>| *o) =~= prefix + obs.take(
                        j + 1,
                    ).filter(
                        |o: Observation<R>| age(o.timestamp, current_tick) <= self.fresh_threshold,
                    ));
                }
                j = j + 1;
            }
            proof {
                assert(obs.take(obs.len() as int) =~= obs);
                assert(w.take(i + 1).drop_last() =~= w.take(i));
            }
        }
        proof {
            assert(w.take(w.len() as int) =~= w);
            assert(r@.map_values(|o: &Observation<R>| *o) == self.fresh_among(
                w,
                current_tick,
                self.fresh_limit(),
            ));
        }
        r
    }
}

impl<R: Copy> Tracks<R> {
    fn record_observation(&mut self, obs: &Observation<R>)
        requires
            old(self).wf(),
            old(self).count_among(old(self).observers()) < usize::MAX,
        ensures
            final(self).wf(),
            final(self).fresh_limit() == old(self).fresh_limit(),
            final(self).stale_limit() == old(self).stale_limit(),
            final(self).observations_of(obs.observer_id) == old(self).observations_of(
                obs.observer_id,
            ).push(*obs),
            forall|id: EntityId|
                id != obs.observer_id ==> final(self).observations_of(id) == old(
                    self,
                ).observations_of(id),
            final(self).observers() == adding_observer(old(self).observers(), obs.observer_id),
            final(self).count_among(final(self).observers()) == old(self).count_among(
                old(self).observers(),
            ) + 1,
    {
        let ghost before = *self;
        let o = *obs;
        let x = o.observer_id;
        let k = x.0;
        self.last_observation_tick.insert(k, o.timestamp);
        let mut v = match self.tracked_observations.remove(&k) {
            Some(v) => v,
            None => Vec::new(),
        };
        v.push(o);
        self.tracked_observations.insert(k, v);
        proof {
            assert(x == EntityId(k));
            if !before.heard@.contains(x) {
                self.heard = Ghost(before.heard@.push(x));
            }
            assert(self.observations_of(x) =~= before.observations_of(x).push(o));
            assert forall|id: EntityId| id != x implies self.observations_of(id)
                == before.observations_of(id) by {
                if id.0 == k {
                    assert(id == EntityId(k));
                }
            }
            assert forall|id: EntityId| self.heard@.contains(id)
                <==> self.tracked_observations@.contains_key(id.0) by {
                assert(id == EntityId(id.0));
                if id == x {
                    if !before.heard@.contains(x) {
                        assert(self.heard@[before.heard@.len() as int] == x);
                    }
                } else {
                    assert(id.0 != k);
                    assert(self.tracked_observations@.contains_key(id.0)
                        == before.tracked_observations@.contains_key(id.0));
                    if before.heard@.contains(id) {
                        let a = choose|a: int| 0 <= a < before.heard@.len() && before.heard@[a] == id;
                        assert(self.heard@[a] == id);
                    }
                    if self.heard@.contains(id) {
                        let a = choose|a: int| 0 <= a < self.heard@.len() && self.heard@[a] == id;
                        if a < before.heard@.len() {
                            assert(before.heard@[a] == id);
                        }
                    }
                }
            }
            Self::lemma_count_after_push(&before, self, before.heard@, x);
            if !before.heard@.contains(x) {
                assert(self.heard@.drop_last() =~= before.heard@);
            }
        }
    }

    fn record_observations(&mut self, observations: &[Observation<R>])
        requires
            old(self).wf(),
            old(self).count_among(old(self).observers()) + observations@.len() <= usize::MAX,
        ensures
            final(self).wf(),
            final(self).fresh_limit() == old(self).fresh_limit(),
            final(self).stale_limit() == old(self).stale_limit(),
            forall|id: EntityId|
                final(self).observations_of(id) == old(self).observations_of(id) + reports_by(
                    observations@,
                    id,
                ),
            final(self).observers() == observers_after(old(self).observers(), observations@),
            final(self).count_among(final(self).observers()) == old(self).count_among(
                old(self).observers(),
            ) + observations@.len(),
    {
        let ghost before = *self;
        let mut i: usize = 0;
        while i < observations.len()
            invariant
                self.wf(),
                i <= observations@.len(),
                self.fresh_limit() == before.fresh_limit(),
                self.stale_limit() == before.stale_limit(),
                forall|id: EntityId|
                    self.observations_of(id) == before.observations_of(id) + reports_by(
                        observations@.take(i as int),
                        id,
                    ),
                self.observers() == observers_after(
                    before.observers(),
                    observations@.take(i as int),
                ),
                self.count_among(self.observers()) == before.count_among(before.observers()) + i,
                before.count_among(before.observers()) + observations@.len() <= usize::MAX,
            decreases observations@.len() - i,
        {
            self.record_observation(&observations[i]);
            proof {
                let t = observations@.take(i + 1);
                assert(t.drop_last() =~= observations@.take(i as int));
                assert(t.last() == observations@[i as int]);
                reveal_with_fuel(Seq::<_>::filter, 1);
                assert forall|id: EntityId| self.observations_of(id) == before.observations_of(id)
                    + reports_by(t, id) by {
                    assert(reports_by(t, id) =~= if observations@[i as int].observer_id == id {
                        reports_by(observations@.take(i as int), id).push(observations@[i as int])
                    } else {
                        reports_by(observations@.take(i as int), id)
                    });
                    if observations@[i as int].observer_id == id {
                        assert(self.observations_of(id) =~= before.observations_of(id)
                            + reports_by(t, id));
                    }
                }
            }
            i = i + 1;
        }
        proof {
            assert(observations@.take(observations@.len() as int) =~= observations@);
        }
    }
}

/// Tracks observation gaps and staleness for fog-of-war simulation.
///
/// The AI never has perfect information: observations arrive late, have
/// gaps, and become stale over time.
pub struct FogOfWar<R> {
    inner: Tracks<R>,
}

impl<R> FogOfWar<R> {
    /// The bookkeeping is consistent: the observers heard are those with
    /// reports, none with an empty list, each list holding only its
    /// observer's reports, the latest tick kept for each, and the total count
    /// fitting in a `usize`.
    #[verifier::type_invariant]
    spec fn consistent(&self) -> bool {
        self.inner.wf()
    }

    /// The largest age, in ticks, of a fresh observation.
    pub closed spec fn fresh_limit(&self) -> u64 {
        self.inner.fresh_limit()
    }

    /// The largest age, in ticks, of a stale observation.
    pub closed spec fn stale_limit(&self) -> u64 {
        self.inner.stale_limit()
    }

    /// The observers heard from, in the order they were first heard.
    pub closed spec fn observers(&self) -> Seq<EntityId> {
        self.inner.observers()
    }

    /// What `id` has reported, in the order it was recorded.
    pub closed spec fn observations_of(&self, id: EntityId) -> Seq<Observation<R>> {
        self.inner.observations_of(id)
    }

    /// How many observations the observers `ids` have reported together.
    pub open spec fn count_among(&self, ids: Seq<EntityId>) -> nat
        decreases ids.len(),
    {
        if ids.len() == 0 {
            0
        } else {
            self.count_among(ids.drop_last()) + self.observations_of(ids.last()).len()
        }
    }

    /// How many observations were recorded.
    pub open spec fn total(&self) -> nat {
        self.count_among(self.observers())
    }

    /// The observations of the observers `ids`, observer by observer, whose
    /// age at `now` is at most `threshold`.
    pub open spec fn fresh_among(&self, ids: Seq<EntityId>, now: u64, threshold: u64) -> Seq<
        Observation<R>,
    >
        decreases ids.len(),
    {
        if ids.len() == 0 {
            Seq::empty()
        } else {
            self.fresh_among(ids.drop_last(), now, threshold) + self.observations_of(
                ids.last(),
            ).filter(|o: Observation<R>| age(o.timestamp, now) <= threshold)
        }
    }

    /// Ticks between `id`'s latest report and `now` (zero if the report is
    /// from the future), or `u64::MAX` if `id` never reported.
    pub open spec fn gap(&self, id: EntityId, now: u64) -> u64 {
        let obs = self.observations_of(id);
        if obs.len() == 0 {
            u64::MAX
        } else if now >= obs.last().timestamp {
            (now - obs.last().timestamp) as u64
        } else {
            0
        }
    }

    proof fn lemma_agrees(&self, ids: Seq<EntityId>, now: u64, threshold: u64)
        ensures
            self.count_among(ids) == self.inner.count_among(ids),
            self.fresh_among(ids, now, threshold) == self.inner.fresh_among(ids, now, threshold),
            self.gap(ids.last(), now) == self.inner.gap(ids.last(), now),
        decreases ids.len(),
    {
        if ids.len() > 0 {
            self.lemma_agrees(ids.drop_last(), now, threshold);
        }
    }

    /// A fog with the given thresholds that has heard from no one.
    pub fn new(fresh_threshold: u64, stale_threshold: u64) -> (f: Self)
        ensures
            f.fresh_limit() == fresh_threshold,
            f.stale_limit() == stale_threshold,
            f.observers() == Seq::<EntityId>::empty(),
            forall|id: EntityId| f.observations_of(id) == Seq::<Observation<R>>::empty(),
    {
        FogOfWar { inner: Tracks::new(fresh_threshold, stale_threshold) }
    }

    /// The largest age, in ticks, of a fresh observation.
    pub fn fresh_threshold(&self) -> (t: u64)
        ensures
            t == self.fresh_limit(),
    {
        self.inner.fresh_threshold()
    }

    /// The largest age, in ticks, of a stale observation.
    pub fn stale_threshold(&self) -> (t: u64)
        ensures
            t == self.stale_limit(),
    {
        self.inner.stale_threshold()
    }

    /// Sets the largest age of a fresh observation; the reports kept stay
    /// as they are.
    pub fn set_fresh_threshold(&mut self, t: u64)
        ensures
            final(self).fresh_limit() == t,
            final(self).stale_limit() == old(self).stale_limit(),
            final(self).observers() == old(self).observers(),
            forall|id: EntityId| final(self).observations_of(id) == old(self).observations_of(id),
    {
        proof {
            use_type_invariant(&*self);
        }
        let mut inner = Tracks::new(0, 0);
        std::mem::swap(&mut inner, &mut self.inner);
        inner.set_fresh_threshold(t);
        self.inner = inner;
    }

    /// Sets the largest age of a stale observation; the reports kept stay
    /// as they are.
    pub fn set_stale_threshold(&mut self, t: u64)
        ensures
            final(self).stale_limit() == t,
            final(self).fresh_limit() == old(self).fresh_limit(),
            final(self).observers() == old(self).observers(),
            forall|id: EntityId| final(self).observations_of(id) == old(self).observations_of(id),
    {
        proof {
            use_type_invariant(&*self);
        }
        let mut inner = Tracks::new(0, 0);
        std::mem::swap(&mut inner, &mut self.inner);
        inner.set_stale_threshold(t);
        self.inner = inner;
    }

    /// Ticks since the latest observation from `observer_id`, or `u64::MAX`
    /// if it never reported.
    pub fn ticks_since_last_observation(&self, observer_id: EntityId, current_tick: u64) -> (g:
        u64)
        ensures
            g == self.gap(observer_id, current_tick),
    {
        proof {
            use_type_invariant(self);
        }
        self.inner.ticks_since_last_observation(observer_id, current_tick)
    }

    /// Whether the latest report of `observer_id` is still fresh.
    pub fn is_fresh(&self, observer_id: EntityId, current_tick: u64) -> (b: bool)
        ensures
            b == (self.gap(observer_id, current_tick) <= self.fresh_limit()),
    {
        proof {
            use_type_invariant(self);
        }
        self.inner.is_fresh(observer_id, current_tick)
    }

    /// Whether the latest report of `observer_id` exists but is no longer fresh.
    pub fn is_stale(&self, observer_id: EntityId, current_tick: u64) -> (b: bool)
        ensures
            b == (self.fresh_limit() < self.gap(observer_id, current_tick)
                <= self.stale_limit()),
    {
        proof {
            use_type_invariant(self);
        }
        self.inner.is_stale(observer_id, current_tick)
    }

    /// Whether nothing was ever heard from `observer_id`.
    pub fn is_unknown(&self, observer_id: EntityId) -> (b: bool)
        ensures
            b == (self.observations_of(observer_id).len() == 0),
    {
        proof {
            use_type_invariant(self);
        }
        self.inner.is_unknown(observer_id)
    }

    /// Everything `observer_id` reported, in order.
    pub fn observations_for(&self, observer_id: EntityId) -> (s: &[Observation<R>])
        ensures
            s@ == self.observations_of(observer_id),
    {
        proof {
            use_type_invariant(self);
        }
        self.inner.observations_for(observer_id)
    }

    /// The latest report of `observer_id`.
    pub fn latest_observation(&self, observer_id: EntityId) -> (r: Option<&Observation<R>>)
        ensures
            self.observations_of(observer_id).len() == 0 ==> r is None,
            self.observations_of(observer_id).len() > 0 ==> r == Some(
                &self.observations_of(observer_id).last(),
            ),
    {
        proof {
            use_type_invariant(self);
        }
        self.inner.latest_observation(observer_id)
    }

    /// How many observations were recorded.
    pub fn total_observations(&self) -> (n: usize)
        ensures
            n == self.total(),
    {
        proof {
            use_type_invariant(self);
            self.lemma_agrees(self.observers(), 0, 0);
        }
        self.inner.total_observations()
    }

    /// Forgets everything that was recorded.
    pub fn clear(&mut self)
        ensures
            final(self).fresh_limit() == old(self).fresh_limit(),
            final(self).stale_limit() == old(self).stale_limit(),
            final(self).observers() == Seq::<EntityId>::empty(),
            forall|id: EntityId| final(self).observations_of(id) == Seq::<Observation<R>>::empty(),
    {
        let mut inner = Tracks::new(0, 0);
        std::mem::swap(&mut inner, &mut self.inner);
        inner.clear();
        self.inner = inner;
    }

    /// The observations of every observer that are fresh at `current_tick`:
    /// observer by observer, in the order in which the reports are walked,
    /// each observer's in the order they were recorded.
    pub fn fresh_observations(&self, current_tick: u64) -> (r: Vec<&Observation<R>>)
        ensures
            exists|walk: Seq<EntityId>|
                lists_same(walk, self.observers()) && r@.map_values(|o: &Observation<R>| *o)
                    == #[trigger] self.fresh_among(walk, current_tick, self.fresh_limit()),
    {
        proof {
            use_type_invariant(self);
        }
        let r = self.inner.fresh_observations(current_tick);
        proof {
            let walk = choose|walk: Seq<EntityId>|
                lists_same(walk, self.inner.observers()) && r@.map_values(
                    |o: &Observation<R>| *o,
                ) == #[trigger] self.inner.fresh_among(walk, current_tick, self.inner.fresh_limit());
            self.lemma_agrees(walk, current_tick, self.fresh_limit());
        }
        r
    }
}

impl<R: Copy> FogOfWar<R> {
    /// Records `obs` as the latest report of its observer.
    pub fn record_observation(&mut self, obs: &Observation<R>)
        requires
            old(self).total() < usize::MAX,
        ensures
            final(self).fresh_limit() == old(self).fresh_limit(),
            final(self).stale_limit() == old(self).stale_limit(),
            final(self).observations_of(obs.observer_id) == old(self).observations_of(
                obs.observer_id,
            ).push(*obs),
            forall|id: EntityId|
                id != obs.observer_id ==> final(self).observations_of(id) == old(
                    self,
                ).observations_of(id),
            final(self).observers() == adding_observer(old(self).observers(), obs.observer_id),
            final(self).total() == old(self).total() + 1,
    {
        proof {
            use_type_invariant(&*self);
            self.lemma_agrees(self.observers(), 0, 0);
        }
        let mut inner = Tracks::new(0, 0);
        std::mem::swap(&mut inner, &mut self.inner);
        inner.record_observation(obs);
        self.inner = inner;
        proof {
            self.lemma_agrees(self.observers(), 0, 0);
        }
    }

    /// Records each of `observations` in turn.
    pub fn record_observations(&mut self, observations: &[Observation<R>])
        requires
            old(self).total() + observations@.len() <= usize::MAX,
        ensures
            final(self).fresh_limit() == old(self).fresh_limit(),
            final(self).stale_limit() == old(self).stale_limit(),
            forall|id: EntityId|
                final(self).observations_of(id) == old(self).observations_of(id) + reports_by(
                    observations@,
                    id,
                ),
            final(self).observers() == observers_after(old(self).observers(), observations@),
            final(self).total() == old(self).total() + observations@.len(),
    {
        proof {
            use_type_invariant(&*self);
            self.lemma_agrees(self.observers(), 0, 0);
        }
        let mut inner = Tracks::new(0, 0);
        std::mem::swap(&mut inner, &mut self.inner);
        inner.record_observations(observations);
        self.inner = inner;
        proof {
            self.lemma_agrees(self.observers(), 0, 0);
        }
    }
}

impl<R: Clone> Clone for FogOfWar<R> {
    /// A fog with the same thresholds and the same reports.
    fn clone(&self) -> (c: Self)
        ensures
            c.fresh_limit() == self.fresh_limit(),
            c.stale_limit() == self.stale_limit(),
            c.observers() == self.observers(),
            forall|id: EntityId| c.observations_of(id) == self.observations_of(id),
    {
        proof {
            use_type_invariant(self);
        }
        let inner = Tracks {
            fresh_threshold: self.inner.fresh_threshold,
            stale_threshold: self.inner.stale_threshold,
            last_observation_tick: self.inner.last_observation_tick.clone(),
            tracked_observations: self.inner.tracked_observations.clone(),
            heard: Ghost(self.inner.heard@),
        };
        proof {
            Tracks::lemma_count_same(&inner, &self.inner, inner.heard@);
        }
        FogOfWar { inner }
    }
}

impl<R> Default for FogOfWar<R> {
    /// Fresh for two ticks, stale up to five.
    fn default() -> (f: Self)
        ensures
            f.fresh_limit() == 2,
            f.stale_limit() == 5,
            f.observers() == Seq::<EntityId>::empty(),
            forall|id: EntityId| f.observations_of(id) == Seq::<Observation<R>>::empty(),
    {
        FogOfWar::new(2, 5)
    }
}

/// An observer's report is never both fresh and stale.
pub proof fn lemma_fresh_and_stale_exclusive<R>(fog: &FogOfWar<R>, id: EntityId, now: u64)
    ensures
        !(fog.gap(id, now) <= fog.fresh_limit() && fog.fresh_limit() < fog.gap(id, now)
            <= fog.stale_limit()),
{
}

/// An observer that never reported is infinitely far away in time.
pub proof fn lemma_unknown_observer_gap<R>(fog: &FogOfWar<R>, id: EntityId, now: u64)
    requires
        fog.observations_of(id).len() == 0,
    ensures
        fog.gap(id, now) == u64::MAX,
{
}

/// Information only ages: the later the tick, the larger the gap since an
/// observer's latest report.
pub proof fn lemma_gap_grows_with_time<R>(fog: &FogOfWar<R>, id: EntityId, now1: u64, now2: u64)
    requires
        now1 <= now2,
    ensures
        fog.gap(id, now1) <= fog.gap(id, now2),
{
}

/// Right after an observer's report is recorded, the observer is known and
/// its report is fresh at the tick it was made: the gap is zero.
pub proof fn lemma_recorded_report_is_fresh<R>(
    before: &FogOfWar<R>,
    after: &FogOfWar<R>,
    obs: Observation<R>,
)
    requires
        after.observations_of(obs.observer_id) == before.observations_of(obs.observer_id).push(
            obs,
        ),
    ensures
        after.observations_of(obs.observer_id).len() > 0,
        after.gap(obs.observer_id, obs.timestamp) == 0,
        after.gap(obs.observer_id, obs.timestamp) <= after.fresh_limit(),
{
}

} // verus!
