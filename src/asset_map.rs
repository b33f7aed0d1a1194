//! A cache of assets of one kind with a deferred commit: written values are
//! staged and become visible to readers only when they are committed.
use vstd::prelude::*;
use std::collections::HashMap;

verus! {

broadcast use vstd::std_specs::hash::group_hash_axioms;

/// Assets of one kind, by numeric key: the resident map that readers see
/// and the staging map of values written since the last commit.
pub struct AssetMap<T> {
    map: HashMap<u64, T>,
    dirty_map: HashMap<u64, T>,
    dirty_keys: Vec<u64>,
}

impl<T> AssetMap<T> {
    /// The list of staged keys names each staged key exactly once.
    pub closed spec fn wf(&self) -> bool {
        &&& self.dirty_keys@.no_duplicates()
        &&& forall|k: u64| #[trigger]
            self.dirty_map@.contains_key(k) <==> self.dirty_keys@.contains(k)
    }

    /// The committed values, visible to readers.
    pub closed spec fn resident(&self) -> Map<u64, T> {
        self.map@
    }

    /// The values written since the last commit.
    pub closed spec fn staged(&self) -> Map<u64, T> {
        self.dirty_map@
    }

    /// An empty cache.
    pub fn new() -> (r: AssetMap<T>)
        ensures
            r.wf(),
            r.resident() == Map::<u64, T>::empty(),
            r.staged() == Map::<u64, T>::empty(),
    {
        AssetMap { map: HashMap::new(), dirty_map: HashMap::new(), dirty_keys: Vec::new() }
    }

    /// A cache whose only entry is `first_asset`, staged under `first_key`.
    pub fn with_asset(first_key: u64, first_asset: T) -> (r: AssetMap<T>)
        ensures
            r.wf(),
            r.resident() == Map::<u64, T>::empty(),
            r.staged() == Map::<u64, T>::empty().insert(first_key, first_asset),
    {
        let mut r = AssetMap::new();
        r.load(first_key, first_asset);
        r
    }

    /// Stages `asset` under `key`. The resident map is left as it is; a value
    /// already staged under `key` is replaced and returned.
    pub fn load(&mut self, key: u64, asset: T) -> (r: Option<T>)
        requires
            old(self).wf(),
        ensures
            final(self).wf(),
            final(self).resident() == old(self).resident(),
            final(self).staged() == old(self).staged().insert(key, asset),
            r == old(self).staged().get(key),
    {
        let prev = self.dirty_map.insert(key, asset);
        if prev.is_none() {
            self.dirty_keys.push(key);
            proof {
                assert forall|a: int, b: int|
                    0 <= a < b < self.dirty_keys@.len() implies self.dirty_keys@[a]
                    != self.dirty_keys@[b] by {
                    if b == self.dirty_keys@.len() - 1 {
                        assert(old(self).dirty_keys@.contains(self.dirty_keys@[a]));
                    }
                }
            }
        }
        assert forall|k: u64| #[trigger]
            self.dirty_map@.contains_key(k) <==> self.dirty_keys@.contains(k) by {
            if k != key {
                if old(self).dirty_keys@.contains(k) {
                    let i = choose|i: int|
                        0 <= i < old(self).dirty_keys@.len() && old(self).dirty_keys@[i] == k;
                    assert(self.dirty_keys@[i] == k);
                }
            } else {
                if prev.is_none() {
                    assert(self.dirty_keys@[self.dirty_keys@.len() - 1] == key);
                }
            }
        }
        prev
    }

    /// The committed value under `key`; a staged value is not visible here.
    pub fn get(&self, key: u64) -> (r: Option<&T>)
        ensures
            match r {
                Some(v) => self.resident().contains_key(key) && self.resident()[key] == *v,
                None => !self.resident().contains_key(key),
            },
    {
        self.map.get(&key)
    }

    /// Whether values are staged and wait for a commit.
    pub fn dirty(&self) -> (r: bool)
        requires
            self.wf(),
        ensures
            r == (self.staged().dom().len() > 0),
    {
        proof {
            if self.dirty_keys@.len() > 0 {
                assert(self.staged().dom().contains(self.dirty_keys@[0]));
            } else {
                assert(self.staged().dom() =~= Set::empty());
            }
        }
        self.dirty_keys.len() > 0
    }

    /// Takes every staged value out, each with its key once; the staging map
    /// is left empty and the resident map as it is.
    pub fn take_staged(&mut self) -> (r: Vec<(u64, T)>)
        requires
            old(self).wf(),
        ensures
            final(self).wf(),
            final(self).resident() == old(self).resident(),
            final(self).staged() == Map::<u64, T>::empty(),
            forall|i: int, j: int|
                0 <= i < j < r@.len() ==> #[trigger] r@[i].0 != #[trigger] r@[j].0,
            forall|i: int|
                0 <= i < r@.len() ==> old(self).staged().contains_key(#[trigger] r@[i].0)
                    && old(self).staged()[r@[i].0] == r@[i].1,
            forall|k: u64|
                old(self).staged().contains_key(k) ==> exists|i: int|
                    0 <= i < r@.len() && #[trigger] r@[i].0 == k,
    {
        let ghost staged0 = self.dirty_map@;
        let ghost keys0 = self.dirty_keys@;
        let mut out: Vec<(u64, T)> = Vec::new();
        while self.dirty_keys.len() > 0
            invariant
                self.map@ == old(self).map@,
                staged0 == old(self).dirty_map@,
                keys0 == old(self).dirty_keys@,
                keys0.no_duplicates(),
                forall|k: u64| #[trigger] staged0.contains_key(k) <==> keys0.contains(k),
                self.dirty_keys@ == keys0.subrange(0, self.dirty_keys@.len() as int),
                self.dirty_keys@.len() + out@.len() == keys0.len(),
                forall|i: int|
                    0 <= i < out@.len() ==> #[trigger] out@[i].0 == keys0[keys0.len() - 1 - i],
                forall|i: int|
                    0 <= i < out@.len() ==> staged0.contains_key(#[trigger] out@[i].0)
                        && staged0[out@[i].0] == out@[i].1,
                forall|k: u64| #[trigger]
                    self.dirty_map@.contains_key(k) <==> self.dirty_keys@.contains(k),
                forall|k: u64|
                    #[trigger] self.dirty_map@.contains_key(k) ==> self.dirty_map@[k]
                        == staged0[k],
            decreases self.dirty_keys@.len(),
        {
            let ghost n = self.dirty_keys@.len();
            let key = self.dirty_keys.pop().unwrap();
            let ghost rest = self.dirty_keys@;
            assert(rest =~= keys0.subrange(0, n - 1));
            assert(!rest.contains(key)) by {
                if rest.contains(key) {
                    let i = choose|i: int| 0 <= i < rest.len() && rest[i] == key;
                    assert(keys0[i] == keys0[n - 1]);
                }
            }
            let ghost before = self.dirty_map@;
            assert(old(self).dirty_keys@ == keys0);
            let v = self.dirty_map.remove(&key);
            assert(before.contains_key(key)) by {
                assert(keys0.subrange(0, n as int)[n - 1] == key);
            }
            match v {
                Some(v) => {
                    out.push((key, v));
                },
                None => {},
            }
            assert forall|k: u64| #[trigger]
                self.dirty_map@.contains_key(k) <==> self.dirty_keys@.contains(k) by {
                if k != key && before.contains_key(k) {
                    let i = choose|i: int| 0 <= i < n && keys0.subrange(0, n as int)[i] == k;
                    assert(i < n - 1);
                    assert(rest[i] == k);
                }
            }
        }
        proof {
            assert(self.dirty_keys@.no_duplicates());
            assert(self.dirty_map@ =~= Map::<u64, T>::empty()) by {
                assert forall|k: u64| !self.dirty_map@.contains_key(k) by {
                    assert(!self.dirty_keys@.contains(k));
                }
            }
            assert forall|i: int, j: int|
                0 <= i < j < out@.len() implies #[trigger] out@[i].0 != #[trigger] out@[j].0 by {
                assert(keys0[keys0.len() - 1 - i] != keys0[keys0.len() - 1 - j]);
            }
            assert forall|k: u64| staged0.contains_key(k) implies exists|i: int|
                0 <= i < out@.len() && #[trigger] out@[i].0 == k by {
                let j = choose|j: int| 0 <= j < keys0.len() && keys0[j] == k;
                let i = keys0.len() - 1 - j;
                assert(out@[i].0 == k);
            }
        }
        out
    }

    /// Makes `asset` the committed value under `key` and returns the value it
    /// replaces. The staging map is left as it is.
    pub fn commit(&mut self, key: u64, asset: T) -> (r: Option<T>)
        requires
            old(self).wf(),
        ensures
            final(self).wf(),
            final(self).resident() == old(self).resident().insert(key, asset),
            final(self).staged() == old(self).staged(),
            r == old(self).resident().get(key),
    {
        self.map.insert(key, asset)
    }

    /// Removes and returns the committed value under `key`.
    pub fn evict(&mut self, key: u64) -> (r: Option<T>)
        requires
            old(self).wf(),
        ensures
            final(self).wf(),
            final(self).resident() == old(self).resident().remove(key),
            final(self).staged() == old(self).staged(),
            r == old(self).resident().get(key),
    {
        self.map.remove(&key)
    }
}

} // verus!
