//! A small id-keyed table: the backing store for the bridge's registries of
//! timers, hotkeys, tray menu entries and tagged handles.  Keys are unique;
//! entries are kept sorted by key, so lookups are unambiguous and removal
//! keeps the order.

use vstd::prelude::*;

verus! {

/// An association table from `u32` keys to payloads, with unique keys.
pub struct Table<V> {
    entries: Vec<(u32, V)>,
}

impl<V> Table<V> {
    /// Well-formedness: keys appear in strictly increasing order, so each
    /// key occurs at most once.  Every operation preserves it.
    pub closed spec fn wf(self) -> bool {
        forall|i: int, j: int|
            0 <= i < j < self.entries@.len() ==> (#[trigger] self.entries@[i]).0 < (
            #[trigger] self.entries@[j]).0
    }

    /// Whether `k` is in the table.
    pub closed spec fn contains(self, k: u32) -> bool {
        exists|i: int| 0 <= i < self.entries@.len() && (#[trigger] self.entries@[i]).0 == k
    }

    spec fn idx_of(self, k: u32) -> int {
        choose|i: int| 0 <= i < self.entries@.len() && (#[trigger] self.entries@[i]).0 == k
    }

    /// The payload stored under `k`.
    pub closed spec fn payload(self, k: u32) -> V {
        self.entries@[self.idx_of(k)].1
    }

    /// How many entries the table holds.
    pub closed spec fn len_spec(self) -> nat {
        self.entries@.len()
    }

    proof fn lemma_idx(self, k: u32)
        requires
            self.wf(),
            self.contains(k),
        ensures
            0 <= self.idx_of(k) < self.entries@.len(),
            self.entries@[self.idx_of(k)].0 == k,
            forall|j: int|
                0 <= j < self.entries@.len() && j != self.idx_of(k) ==> (
                #[trigger] self.entries@[j]).0 != k,
    {
        let a = self.idx_of(k);
        assert(0 <= a < self.entries@.len() && self.entries@[a].0 == k);
        assert forall|j: int|
            0 <= j < self.entries@.len() && j != a implies (#[trigger] self.entries@[j]).0
            != k by {
            if j < a {
                assert(self.entries@[j].0 < self.entries@[a].0);
            } else {
                assert(self.entries@[a].0 < self.entries@[j].0);
            }
        }
    }

    /// The empty table.
    pub fn new() -> (r: Table<V>)
        ensures
            r.wf(),
            forall|k: u32| !r.contains(k),
            r.len_spec() == 0,
    {
        Table { entries: Vec::new() }
    }

    /// How many entries the table holds.
    pub fn len(&self) -> (n: usize)
        ensures
            n == self.len_spec(),
    {
        self.entries.len()
    }

    fn find(&self, k: u32) -> (r: Option<usize>)
        requires
            self.wf(),
        ensures
            match r {
                Some(i) => self.contains(k) && i == self.idx_of(k),
                None => !self.contains(k),
            },
    {
        let n = self.entries.len();
        let mut i: usize = 0;
        while i < n
            invariant
                self.wf(),
                n == self.entries@.len(),
                0 <= i <= n,
                forall|j: int| 0 <= j < i ==> (#[trigger] self.entries@[j]).0 != k,
            decreases n - i,
        {
            if self.entries[i].0 == k {
                proof {
                    self.lemma_idx(k);
                }
                return Some(i);
            }
            i += 1;
        }
        None
    }

    /// The payload under `k`, by reference.
    pub fn get(&self, k: u32) -> (r: Option<&V>)
        requires
            self.wf(),
        ensures
            match r {
                Some(v) => self.contains(k) && *v == self.payload(k),
                None => !self.contains(k),
            },
    {
        match self.find(k) {
            Some(i) => Some(&self.entries[i].1),
            None => None,
        }
    }

    proof fn lemma_frame_insert_at(prev: Table<V>, cur: Table<V>, p: int, k: u32)
        requires
            prev.wf(),
            0 <= p <= prev.entries@.len(),
            cur.entries@ == prev.entries@.insert(p, (k, cur.entries@[p].1)),
            !prev.contains(k),
            forall|j: int| 0 <= j < p ==> (#[trigger] prev.entries@[j]).0 < k,
            forall|j: int| p <= j < prev.entries@.len() ==> k < (#[trigger] prev.entries@[j]).0,
        ensures
            cur.wf(),
            cur.contains(k),
            cur.payload(k) == cur.entries@[p].1,
            forall|o: u32| o != k ==> cur.contains(o) == prev.contains(o),
            forall|o: u32|
                o != k && prev.contains(o) ==> cur.payload(o) == prev.payload(o),
    {
        let n = prev.entries@.len() as int;
        assert(forall|j: int| 0 <= j < p ==> cur.entries@[j] == prev.entries@[j]);
        assert(cur.entries@[p].0 == k);
        assert(forall|j: int| p < j < n + 1 ==> cur.entries@[j] == prev.entries@[j - 1]);
        assert forall|i: int, j: int|
            0 <= i < j < cur.entries@.len() implies (#[trigger] cur.entries@[i]).0 < (
        #[trigger] cur.entries@[j]).0 by {
            if i < p && j < p {
            } else if i < p && j == p {
            } else if i < p {
                assert(cur.entries@[j] == prev.entries@[j - 1]);
            } else if i == p {
                assert(cur.entries@[j] == prev.entries@[j - 1]);
            } else {
                assert(cur.entries@[i] == prev.entries@[i - 1]);
                assert(cur.entries@[j] == prev.entries@[j - 1]);
            }
        }
        assert(cur.contains(k));
        cur.lemma_idx(k);
        cur.lemma_idx_unique(k, cur.idx_of(k), p);
        assert forall|o: u32| o != k implies cur.contains(o) == prev.contains(o) by {
            if cur.contains(o) {
                let a = cur.idx_of(o);
                if a < p {
                    assert(prev.entries@[a].0 == o);
                } else if a > p {
                    assert(prev.entries@[a - 1].0 == o);
                }
            }
            if prev.contains(o) {
                let a = prev.idx_of(o);
                if a < p {
                    assert(cur.entries@[a].0 == o);
                } else {
                    assert(cur.entries@[a + 1].0 == o);
                }
            }
        }
        assert forall|o: u32|
            o != k && prev.contains(o) implies cur.payload(o) == prev.payload(o) by {
            prev.lemma_idx(o);
            let a = prev.idx_of(o);
            let b: int = if a < p {
                a
            } else {
                a + 1
            };
            assert(cur.entries@[b] == prev.entries@[a]);
            assert(cur.contains(o));
            cur.lemma_idx(o);
            cur.lemma_idx_unique(o, cur.idx_of(o), b);
        }
    }

    proof fn lemma_idx_unique(self, k: u32, a: int, b: int)
        requires
            self.wf(),
            0 <= a < self.entries@.len(),
            0 <= b < self.entries@.len(),
            self.entries@[a].0 == k,
            self.entries@[b].0 == k,
        ensures
            a == b,
    {
        if a < b {
            assert(self.entries@[a].0 < self.entries@[b].0);
        } else if b < a {
            assert(self.entries@[b].0 < self.entries@[a].0);
        }
    }

    proof fn lemma_frame_update_at(prev: Table<V>, cur: Table<V>, p: int)
        requires
            prev.wf(),
            0 <= p < prev.entries@.len(),
            cur.entries@ == prev.entries@.update(p, (prev.entries@[p].0, cur.entries@[p].1)),
        ensures
            cur.wf(),
            forall|o: u32| cur.contains(o) == prev.contains(o),
            cur.contains(prev.entries@[p].0),
            cur.payload(prev.entries@[p].0) == cur.entries@[p].1,
            forall|o: u32|
                o != prev.entries@[p].0 && prev.contains(o) ==> cur.payload(o) == prev.payload(o),
    {
        let k = prev.entries@[p].0;
        assert(forall|j: int|
            0 <= j < prev.entries@.len() ==> (#[trigger] cur.entries@[j]).0
                == prev.entries@[j].0);
        assert(cur.wf());
        assert forall|o: u32| cur.contains(o) == prev.contains(o) by {
            if cur.contains(o) {
                let a = cur.idx_of(o);
                assert(prev.entries@[a].0 == o);
            }
            if prev.contains(o) {
                let a = prev.idx_of(o);
                assert(cur.entries@[a].0 == o);
            }
        }
        assert(cur.contains(k));
        cur.lemma_idx(k);
        cur.lemma_idx_unique(k, cur.idx_of(k), p);
        assert forall|o: u32|
            o != k && prev.contains(o) implies cur.payload(o) == prev.payload(o) by {
            prev.lemma_idx(o);
            let a = prev.idx_of(o);
            assert(a != p);
            assert(cur.entries@[a] == prev.entries@[a]);
            assert(cur.contains(o));
            cur.lemma_idx(o);
            cur.lemma_idx_unique(o, cur.idx_of(o), a);
        }
    }

    proof fn lemma_frame_remove_at(prev: Table<V>, cur: Table<V>, p: int)
        requires
            prev.wf(),
            0 <= p < prev.entries@.len(),
            cur.entries@ == prev.entries@.remove(p),
        ensures
            cur.wf(),
            !cur.contains(prev.entries@[p].0),
            forall|o: u32|
                o != prev.entries@[p].0 ==> cur.contains(o) == prev.contains(o),
            forall|o: u32|
                o != prev.entries@[p].0 && prev.contains(o) ==> cur.payload(o) == prev.payload(o),
    {
        let k = prev.entries@[p].0;
        let n = prev.entries@.len() as int;
        assert(forall|j: int| 0 <= j < p ==> cur.entries@[j] == prev.entries@[j]);
        assert(forall|j: int| p <= j < n - 1 ==> cur.entries@[j] == prev.entries@[j + 1]);
        assert forall|i: int, j: int|
            0 <= i < j < cur.entries@.len() implies (#[trigger] cur.entries@[i]).0 < (
        #[trigger] cur.entries@[j]).0 by {
            if i < p && j < p {
            } else if i < p {
                assert(cur.entries@[j] == prev.entries@[j + 1]);
            } else {
                assert(cur.entries@[i] == prev.entries@[i + 1]);
                assert(cur.entries@[j] == prev.entries@[j + 1]);
            }
        }
        prev.lemma_idx(k);
        prev.lemma_idx_unique(k, prev.idx_of(k), p);
        if cur.contains(k) {
            let a = cur.idx_of(k);
            if a < p {
                assert(prev.entries@[a].0 == k);
            } else {
                assert(prev.entries@[a + 1].0 == k);
            }
        }
        assert forall|o: u32| o != k implies cur.contains(o) == prev.contains(o) by {
            if cur.contains(o) {
                let a = cur.idx_of(o);
                if a < p {
                    assert(prev.entries@[a].0 == o);
                } else {
                    assert(prev.entries@[a + 1].0 == o);
                }
            }
            if prev.contains(o) {
                let a = prev.idx_of(o);
                if a < p {
                    assert(cur.entries@[a].0 == o);
                } else {
                    assert(a != p);
                    assert(cur.entries@[a - 1] == prev.entries@[a]);
                }
            }
        }
        assert forall|o: u32|
            o != k && prev.contains(o) implies cur.payload(o) == prev.payload(o) by {
            prev.lemma_idx(o);
            let a = prev.idx_of(o);
            let b: int = if a < p {
                a
            } else {
                a - 1
            };
            assert(a != p);
            assert(cur.entries@[b] == prev.entries@[a]);
            assert(cur.contains(o));
            cur.lemma_idx(o);
            cur.lemma_idx_unique(o, cur.idx_of(o), b);
        }
    }

    /// Stores `v` under `k`, replacing any payload the key already had and
    /// touching no other entry.
    pub fn insert(&mut self, k: u32, v: V)
        requires
            old(self).wf(),
        ensures
            final(self).wf(),
            final(self).contains(k),
            final(self).payload(k) == v,
            final(self).len_spec() == old(self).len_spec() + (if old(self).contains(k) {
                0int
            } else {
                1int
            }),
            forall|o: u32| o != k ==> final(self).contains(o) == old(self).contains(o),
            forall|o: u32|
                o != k && old(self).contains(o) ==> final(self).payload(o) == old(self).payload(o),
    {
        let ghost prev = *self;
        let n = self.entries.len();
        let mut i: usize = 0;
        while i < n
            invariant
                prev == *old(self),
                *self == prev,
                self.wf(),
                n == self.entries@.len(),
                0 <= i <= n,
                forall|j: int| 0 <= j < i ==> (#[trigger] self.entries@[j]).0 < k,
            decreases n - i,
        {
            if self.entries[i].0 == k {
                let mut pair = self.entries.remove(i);
                pair.1 = v;
                self.entries.insert(i, pair);
                proof {
                    assert(prev.contains(k)) by {
                        assert(prev.entries@[i as int].0 == k);
                    }
                    assert(self.entries@ =~= prev.entries@.update(
                        i as int,
                        (prev.entries@[i as int].0, self.entries@[i as int].1),
                    ));
                    assert(self.entries@.len() == prev.entries@.len());
                    Self::lemma_frame_update_at(prev, *self, i as int);
                }
                return ;
            }
            if self.entries[i].0 > k {
                self.entries.insert(i, (k, v));
                proof {
                    assert(!prev.contains(k)) by {
                        if prev.contains(k) {
                            prev.lemma_idx(k);
                            let a = prev.idx_of(k);
                            if a < i {
                                assert(prev.entries@[a].0 < k);
                            } else {
                                assert(prev.entries@[a].0 >= prev.entries@[i as int].0);
                            }
                        }
                    }
                    assert(self.entries@ == prev.entries@.insert(i as int, (k, self.entries@[i as int].1)));
                    assert(self.entries@.len() == prev.entries@.len() + 1);
                    Self::lemma_frame_insert_at(prev, *self, i as int, k);
                }
                return ;
            }
            i += 1;
        }
        self.entries.push((k, v));
        proof {
            assert(self.entries@ =~= prev.entries@.insert(n as int, (k, self.entries@[n as int].1)));
            assert(!prev.contains(k)) by {
                if prev.contains(k) {
                    prev.lemma_idx(k);
                }
            }
            Self::lemma_frame_insert_at(prev, *self, n as int, k);
        }
    }

    /// Removes the entry under `k`, reporting whether one was there; no
    /// other entry changes either way.
    pub fn remove(&mut self, k: u32) -> (was: bool)
        requires
            old(self).wf(),
        ensures
            final(self).wf(),
            was == old(self).contains(k),
            !final(self).contains(k),
            final(self).len_spec() == old(self).len_spec() - (if old(self).contains(k) {
                1int
            } else {
                0int
            }),
            forall|o: u32| o != k ==> final(self).contains(o) == old(self).contains(o),
            forall|o: u32|
                o != k && old(self).contains(o) ==> final(self).payload(o) == old(self).payload(o),
    {
        let ghost prev = *self;
        match self.find(k) {
            None => false,
            Some(i) => {
                proof {
                    prev.lemma_idx(k);
                }
                self.entries.remove(i);
                proof {
                    Self::lemma_frame_remove_at(prev, *self, i as int);
                }
                true
            },
        }
    }

    /// Removes the entry under `k` and hands its payload back; no other
    /// entry changes either way.
    pub fn take(&mut self, k: u32) -> (r: Option<V>)
        requires
            old(self).wf(),
        ensures
            final(self).wf(),
            !final(self).contains(k),
            final(self).len_spec() == old(self).len_spec() - (if old(self).contains(k) {
                1int
            } else {
                0int
            }),
            forall|o: u32| o != k ==> final(self).contains(o) == old(self).contains(o),
            forall|o: u32|
                o != k && old(self).contains(o) ==> final(self).payload(o) == old(self).payload(o),
            match r {
                Some(v) => old(self).contains(k) && v == old(self).payload(k),
                None => !old(self).contains(k) && *final(self) == *old(self),
            },
    {
        let ghost prev = *self;
        match self.find(k) {
            None => None,
            Some(i) => {
                proof {
                    prev.lemma_idx(k);
                }
                let pair = self.entries.remove(i);
                proof {
                    Self::lemma_frame_remove_at(prev, *self, i as int);
                }
                Some(pair.1)
            },
        }
    }

    /// Removes every entry, handing them back in increasing key order.
    pub fn take_all(&mut self) -> (out: Vec<(u32, V)>)
        requires
            old(self).wf(),
        ensures
            final(self).wf(),
            forall|k: u32| !final(self).contains(k),
            final(self).len_spec() == 0,
            out@.len() == old(self).len_spec(),
            forall|i: int|
                0 <= i < out@.len() ==> old(self).contains((#[trigger] out@[i]).0) && old(
                    self,
                ).payload(out@[i].0) == out@[i].1,
            forall|k: u32|
                old(self).contains(k) ==> exists|i: int|
                    0 <= i < out@.len() && (#[trigger] out@[i]).0 == k,
    {
        let ghost prev = *self;
        let mut out: Vec<(u32, V)> = Vec::new();
        core::mem::swap(&mut out, &mut self.entries);
        proof {
            assert forall|i: int|
                0 <= i < out@.len() implies prev.contains((#[trigger] out@[i]).0) && prev.payload(
                out@[i].0,
            ) == out@[i].1 by {
                let k = out@[i].0;
                assert(prev.entries@[i].0 == k);
                prev.lemma_idx(k);
                prev.lemma_idx_unique(k, prev.idx_of(k), i);
            }
            assert forall|k: u32| prev.contains(k) implies exists|i: int|
                0 <= i < out@.len() && (#[trigger] out@[i]).0 == k by {
                let a = prev.idx_of(k);
                assert(out@[a].0 == k);
            }
        }
        out
    }
}

} // verus!
