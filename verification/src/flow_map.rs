//! Operations in progress, keyed by their owner and correlation ID.

use vstd::prelude::*;

use crate::wire::ClientIncarnation;

verus! {

/// One operation: the incarnation that opened it and its correlation ID.
#[derive(Clone, Copy, Debug, PartialEq, Eq, Structural)]
pub struct FlowKey {
    pub incarnation: ClientIncarnation,
    pub id: u32,
}

/// A map from operations to their state.
pub struct FlowMap<V> {
    entries: Vec<(FlowKey, V)>,
}

impl<V> View for FlowMap<V> {
    type V = Map<FlowKey, V>;

    closed spec fn view(&self) -> Map<FlowKey, V> {
        Map::new(
            |key: FlowKey| exists|i: int| 0 <= i < self.entries@.len() && #[trigger] self.entries@[i].0 == key,
            |key: FlowKey|
                self.entries@[choose|i: int| 0 <= i < self.entries@.len() && #[trigger] self.entries@[i].0 == key].1,
        )
    }
}

impl<V> FlowMap<V> {
    /// No operation occurs twice.
    pub closed spec fn wf(&self) -> bool {
        forall|i: int, j: int|
            0 <= i < j < self.entries@.len() ==> #[trigger] self.entries@[i].0
                != #[trigger] self.entries@[j].0
    }

    proof fn lemma_entry(&self, i: int)
        requires
            self.wf(),
            0 <= i < self.entries@.len(),
        ensures
            self@.contains_key(self.entries@[i].0),
            self@[self.entries@[i].0] == self.entries@[i].1,
    {
        let key = self.entries@[i].0;
        let j = choose|j: int| 0 <= j < self.entries@.len() && #[trigger] self.entries@[j].0 == key;
        assert(self.entries@[i].0 == key);
        assert(self.entries@[j].0 == key);
    }

    pub fn new() -> (map: FlowMap<V>)
        ensures
            map.wf(),
            map@ == Map::<FlowKey, V>::empty(),
    {
        let map = FlowMap { entries: Vec::new() };
        assert(map@ =~= Map::<FlowKey, V>::empty());
        map
    }

    fn position(&self, key: FlowKey) -> (position: Option<usize>)
        ensures
            match position {
                Some(i) => i < self.entries@.len() && self.entries@[i as int].0 == key,
                None => !self@.contains_key(key),
            },
    {
        let mut i: usize = 0;
        while i < self.entries.len()
            invariant
                forall|j: int| 0 <= j < i ==> #[trigger] self.entries@[j].0 != key,
            decreases self.entries@.len() - i,
        {
            if self.entries[i].0 == key {
                return Some(i);
            }
            i = i + 1;
        }
        None
    }

    pub fn is_empty(&self) -> (empty: bool)
        ensures
            empty == (self@ == Map::<FlowKey, V>::empty()),
    {
        let empty = self.entries.len() == 0;
        proof {
            if empty {
                assert(self@ =~= Map::<FlowKey, V>::empty());
            } else {
                assert(self@.contains_key(self.entries@[0].0));
            }
        }
        empty
    }

    pub fn contains(&self, key: FlowKey) -> (found: bool)
        ensures
            found == self@.contains_key(key),
    {
        self.position(key).is_some()
    }

    pub fn get(&self, key: FlowKey) -> (value: Option<&V>)
        requires
            self.wf(),
        ensures
            match value {
                Some(v) => self@.contains_key(key) && self@[key] == *v,
                None => !self@.contains_key(key),
            },
    {
        match self.position(key) {
            Some(i) => {
                proof {
                    self.lemma_entry(i as int);
                }
                Some(&self.entries[i].1)
            },
            None => None,
        }
    }

    /// Takes the state of one operation out.
    pub fn remove(&mut self, key: FlowKey) -> (value: Option<V>)
        requires
            old(self).wf(),
        ensures
            final(self).wf(),
            final(self)@ == old(self)@.remove(key),
            match value {
                Some(v) => old(self)@.contains_key(key) && old(self)@[key] == v,
                None => !old(self)@.contains_key(key),
            },
    {
        match self.position(key) {
            Some(i) => {
                let ghost before = *self;
                proof {
                    self.lemma_entry(i as int);
                }
                let (_, value) = self.entries.remove(i);
                proof {
                    assert(self.wf());
                    assert forall|k: FlowKey| #[trigger]
                        self@.contains_key(k) == before@.remove(key).contains_key(k) && (
                    self@.contains_key(k) ==> self@[k] == before@[k]) by {
                        if self@.contains_key(k) {
                            let j = choose|j: int|
                                0 <= j < self.entries@.len() && #[trigger] self.entries@[j].0 == k;
                            self.lemma_entry(j);
                            let was = if j < i { j } else { j + 1 };
                            assert(before.entries@[was].0 == k);
                            assert(before.entries@[was] == self.entries@[j]);
                            assert(before.entries@[i as int].0 == key);
                            before.lemma_entry(was);
                        }
                        if before@.remove(key).contains_key(k) {
                            let j = choose|j: int|
                                0 <= j < before.entries@.len() && #[trigger] before.entries@[j].0
                                    == k;
                            let now = if j < i { j } else { j - 1 };
                            assert(self.entries@[now] == before.entries@[j]);
                        }
                    }
                    assert(self@ =~= before@.remove(key));
                }
                Some(value)
            },
            None => {
                assert(self@ =~= old(self)@.remove(key));
                None
            },
        }
    }

    /// Records the state of an operation, replacing what was there.
    pub fn insert(&mut self, key: FlowKey, value: V)
        requires
            old(self).wf(),
        ensures
            final(self).wf(),
            final(self)@ == old(self)@.insert(key, value),
    {
        let ghost start = self@;
        self.remove(key);
        let ghost before = *self;
        self.entries.push((key, value));
        proof {
            assert forall|i: int| 0 <= i < before.entries@.len() implies #[trigger] before.entries@[i].0
                != key by {
                before.lemma_entry(i);
            }
            assert forall|i: int, j: int| 0 <= i < j < self.entries@.len() implies #[trigger] self.entries@[i].0
                != #[trigger] self.entries@[j].0 by {
                assert(self.entries@[i] == before.entries@[i]);
                if j < before.entries@.len() {
                    assert(self.entries@[j] == before.entries@[j]);
                }
            }
            assert forall|k: FlowKey| #[trigger]
                self@.contains_key(k) == start.insert(key, value).contains_key(k) && (
            self@.contains_key(k) ==> self@[k] == start.insert(key, value)[k]) by {
                if self@.contains_key(k) {
                    let j = choose|j: int|
                        0 <= j < self.entries@.len() && #[trigger] self.entries@[j].0 == k;
                    self.lemma_entry(j);
                    if j < before.entries@.len() {
                        assert(self.entries@[j] == before.entries@[j]);
                        before.lemma_entry(j);
                    }
                }
                if start.insert(key, value).contains_key(k) {
                    if k == key {
                        assert(self.entries@[before.entries@.len() as int].0 == key);
                    } else {
                        assert(before@.contains_key(k));
                        let j = choose|j: int|
                            0 <= j < before.entries@.len() && #[trigger] before.entries@[j].0 == k;
                        assert(self.entries@[j] == before.entries@[j]);
                    }
                }
            }
            assert(self@ =~= start.insert(key, value));
        }
    }

    /// Drops every operation of one owner.
    pub fn drop_owner(&mut self, incarnation: ClientIncarnation)
        requires
            old(self).wf(),
        ensures
            final(self).wf(),
            final(self)@ == old(self)@.remove_keys(owner_keys(old(self)@, incarnation)),
    {
        let ghost start = *self;
        let mut i: usize = 0;
        while i < self.entries.len()
            invariant
                i <= self.entries@.len(),
                self.wf(),
                start.wf(),
                start == *old(self),
                forall|j: int| 0 <= j < i ==> (#[trigger] self.entries@[j]).0.incarnation != incarnation,
                forall|k: FlowKey| #[trigger]
                    self@.contains_key(k) ==> start@.contains_key(k) && self@[k] == start@[k],
                forall|k: FlowKey| #[trigger]
                    start@.contains_key(k) && k.incarnation != incarnation ==> self@.contains_key(k),
            decreases self.entries@.len() - i,
        {
            let key: FlowKey = self.entries[i].0;
            if key.incarnation == incarnation {
                let ghost before = *self;
                self.entries.remove(i);
                proof {
                    assert(self.wf());
                    assert forall|k: FlowKey| #[trigger] self@.contains_key(k) implies before@.contains_key(
                        k,
                    ) && self@[k] == before@[k] by {
                        let j = choose|j: int|
                            0 <= j < self.entries@.len() && #[trigger] self.entries@[j].0 == k;
                        self.lemma_entry(j);
                        let was = if j < i { j } else { j + 1 };
                        assert(before.entries@[was] == self.entries@[j]);
                        before.lemma_entry(was);
                    }
                    assert forall|k: FlowKey| #[trigger]
                        before@.contains_key(k) && k.incarnation != incarnation implies self@.contains_key(
                        k,
                    ) by {
                        let j = choose|j: int|
                            0 <= j < before.entries@.len() && #[trigger] before.entries@[j].0 == k;
                        let now = if j < i { j } else { j - 1 };
                        assert(self.entries@[now] == before.entries@[j]);
                    }
                }
            } else {
                i = i + 1;
            }
        }
        proof {
            let dropped = owner_keys(start@, incarnation);
            assert forall|k: FlowKey| #[trigger] self@.contains_key(k) implies k.incarnation
                != incarnation by {
                let j = choose|j: int|
                    0 <= j < self.entries@.len() && #[trigger] self.entries@[j].0 == k;
                assert(self.entries@[j].0.incarnation != incarnation);
            }
            assert(self@ =~= start@.remove_keys(dropped));
        }
    }

    /// How many operations one owner has.
    pub fn count_owner(&self, incarnation: ClientIncarnation) -> (count: usize)
        requires
            self.wf(),
        ensures
            count == owner_keys(self@, incarnation).len(),
            owner_keys(self@, incarnation).finite(),
    {
        let mut count: usize = 0;
        let mut i: usize = 0;
        let ghost mut seen: Set<FlowKey> = Set::empty();
        while i < self.entries.len()
            invariant
                i <= self.entries@.len(),
                self.wf(),
                count <= i,
                seen.finite(),
                count == seen.len(),
                forall|key: FlowKey| #[trigger]
                    seen.contains(key) <==> key.incarnation == incarnation && exists|j: int|
                        0 <= j < i && #[trigger] self.entries@[j].0 == key,
            decreases self.entries@.len() - i,
        {
            let key: FlowKey = self.entries[i].0;
            if key.incarnation == incarnation {
                proof {
                    assert(!seen.contains(key));
                    let grown = seen.insert(key);
                    assert forall|k: FlowKey| #[trigger]
                        grown.contains(k) <==> k.incarnation == incarnation && exists|j: int|
                            0 <= j < i + 1 && #[trigger] self.entries@[j].0 == k by {
                        if k == key {
                            assert(self.entries@[i as int].0 == k);
                        } else if grown.contains(k) {
                            let j = choose|j: int| 0 <= j < i && #[trigger] self.entries@[j].0 == k;
                            assert(self.entries@[j].0 == k);
                        }
                    }
                    seen = grown;
                }
                count = count + 1;
            } else {
                proof {
                    assert forall|k: FlowKey| #[trigger]
                        seen.contains(k) <==> k.incarnation == incarnation && exists|j: int|
                            0 <= j < i + 1 && #[trigger] self.entries@[j].0 == k by {
                        if seen.contains(k) {
                            let j = choose|j: int| 0 <= j < i && #[trigger] self.entries@[j].0 == k;
                            assert(self.entries@[j].0 == k);
                        }
                    }
                }
            }
            i = i + 1;
        }
        assert(seen =~= owner_keys(self@, incarnation));
        count
    }
}

/// The operations of one owner.
pub open spec fn owner_keys<V>(map: Map<FlowKey, V>, incarnation: ClientIncarnation) -> Set<FlowKey> {
    map.dom().filter(|key: FlowKey| key.incarnation == incarnation)
}

} // verus!
