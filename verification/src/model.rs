//! The observable collection (model) registry: index-addressed, dynamically
//! typed rows bound to a UI property, addressed by small integer ids.
//!
//! Ids are handed out in increasing order and never reused, so a stale id
//! after a destroy fails with "not found" instead of reaching another
//! collection.  Every index-taking operation is bounds-checked; `insert`
//! additionally accepts the index one past the end (append).

use crate::fmt::dec_str;
use crate::fmt::u32_string;
use crate::fmt::usize_string;
use crate::value::UiVal;
use crate::value::UiValue;
use crate::value::ui_views;
use vstd::prelude::*;

verus! {

/// Why a model operation failed: an id that is not (or no longer) in the
/// table, or an index outside the collection's bounds.
#[derive(Debug, PartialEq)]
pub enum ModelError {
    NotFound { id: u32 },
    OutOfBounds { id: u32, property: String, index: usize, len: usize },
    OutOfBoundsInsert { id: u32, property: String, index: usize, len: usize },
}

impl ModelError {
    /// The error text reported to the host script.
    pub fn message(&self) -> (r: String)
        ensures
            r@ == match *self {
                ModelError::NotFound { id } => "Model "@ + dec_str(id as nat) + " not found"@,
                ModelError::OutOfBounds { id, ref property, index, len } => "Index "@ + dec_str(
                    index as nat,
                ) + " out of bounds for model "@ + dec_str(id as nat) + " '"@ + property@
                    + "' (size: "@ + dec_str(len as nat) + ")"@,
                ModelError::OutOfBoundsInsert { id, ref property, index, len } => "Index "@
                    + dec_str(index as nat) + " out of bounds for insert in model "@ + dec_str(
                    id as nat,
                ) + " '"@ + property@ + "' (size: "@ + dec_str(len as nat) + ")"@,
            },
    {
        match self {
            ModelError::NotFound { id } => {
                let mut s = String::from_str("Model ");
                s.append(u32_string(*id).as_str());
                s.append(" not found");
                proof {
                    assert(s@ =~= "Model "@ + dec_str(*id as nat) + " not found"@);
                }
                s
            },
            ModelError::OutOfBounds { id, property, index, len } => {
                let mut s = String::from_str("Index ");
                s.append(usize_string(*index).as_str());
                s.append(" out of bounds for model ");
                s.append(u32_string(*id).as_str());
                s.append(" '");
                s.append(property.as_str());
                s.append("' (size: ");
                s.append(usize_string(*len).as_str());
                s.append(")");
                proof {
                    assert(s@ =~= "Index "@ + dec_str(*index as nat)
                        + " out of bounds for model "@ + dec_str(*id as nat) + " '"@ + property@
                        + "' (size: "@ + dec_str(*len as nat) + ")"@);
                }
                s
            },
            ModelError::OutOfBoundsInsert { id, property, index, len } => {
                let mut s = String::from_str("Index ");
                s.append(usize_string(*index).as_str());
                s.append(" out of bounds for insert in model ");
                s.append(u32_string(*id).as_str());
                s.append(" '");
                s.append(property.as_str());
                s.append("' (size: ");
                s.append(usize_string(*len).as_str());
                s.append(")");
                proof {
                    assert(s@ =~= "Index "@ + dec_str(*index as nat)
                        + " out of bounds for insert in model "@ + dec_str(*id as nat) + " '"@
                        + property@ + "' (size: "@ + dec_str(*len as nat) + ")"@);
                }
                s
            },
        }
    }
}

struct ModelEntry {
    id: u32,
    property: String,
    rows: Vec<UiValue>,
}

/// The table of live observable collections, keyed by id.
pub struct ModelRegistry {
    entries: Vec<ModelEntry>,
    next_id: u32,
}

impl ModelRegistry {
    /// Well-formedness: ids appear in strictly increasing order and stay
    /// below the next id to be handed out; in particular they are unique.
    /// Every operation preserves it.
    pub closed spec fn wf(self) -> bool {
        &&& forall|i: int, j: int|
            0 <= i < j < self.entries@.len() ==> (#[trigger] self.entries@[i]).id < (
            #[trigger] self.entries@[j]).id
        &&& forall|i: int|
            0 <= i < self.entries@.len() ==> (#[trigger] self.entries@[i]).id < self.next_id
    }

    /// Whether `id` is in the table.
    pub closed spec fn contains(self, id: u32) -> bool {
        exists|i: int| 0 <= i < self.entries@.len() && (#[trigger] self.entries@[i]).id == id
    }

    spec fn idx_of(self, id: u32) -> int {
        choose|i: int| 0 <= i < self.entries@.len() && (#[trigger] self.entries@[i]).id == id
    }

    /// The rows of the collection with this id.
    pub closed spec fn rows_of(self, id: u32) -> Seq<UiVal> {
        ui_views(self.entries@[self.idx_of(id)].rows@)
    }

    /// The property name the collection with this id is bound to.
    pub closed spec fn prop_of(self, id: u32) -> Seq<char> {
        self.entries@[self.idx_of(id)].property@
    }

    /// The id the next `create` will hand out.
    pub closed spec fn fresh_id(self) -> u32 {
        self.next_id
    }

    /// How many collections are live.
    pub closed spec fn count_live(self) -> nat {
        self.entries@.len()
    }

    proof fn lemma_idx(self, id: u32)
        requires
            self.wf(),
            self.contains(id),
        ensures
            0 <= self.idx_of(id) < self.entries@.len(),
            self.entries@[self.idx_of(id)].id == id,
            forall|j: int|
                0 <= j < self.entries@.len() && j != self.idx_of(id) ==> (
                #[trigger] self.entries@[j]).id != id,
    {
        let k = self.idx_of(id);
        assert(0 <= k < self.entries@.len() && self.entries@[k].id == id);
        assert forall|j: int|
            0 <= j < self.entries@.len() && j != k implies (#[trigger] self.entries@[j]).id
            != id by {
            if j < k {
                assert(self.entries@[j].id < self.entries@[k].id);
            } else {
                assert(self.entries@[k].id < self.entries@[j].id);
            }
        }
    }

    /// An empty registry that will hand out ids from 1, as the bridge does.
    pub fn new() -> (r: ModelRegistry)
        ensures
            r.wf(),
            forall|id: u32| !r.contains(id),
            r.fresh_id() == 1u32,
            r.count_live() == 0,
    {
        ModelRegistry { entries: Vec::new(), next_id: 1 }
    }

    /// Whether another collection can still be allocated (ids are never
    /// reused, so the id space can in principle run out).
    pub fn has_capacity(&self) -> (r: bool)
        ensures
            r == (self.fresh_id() < u32::MAX),
    {
        self.next_id < u32::MAX
    }

    fn find(&self, id: u32) -> (r: Option<usize>)
        requires
            self.wf(),
        ensures
            match r {
                Some(i) => self.contains(id) && i == self.idx_of(id),
                None => !self.contains(id),
            },
    {
        let n = self.entries.len();
        let mut i: usize = 0;
        while i < n
            invariant
                self.wf(),
                n == self.entries@.len(),
                0 <= i <= n,
                forall|j: int| 0 <= j < i ==> (#[trigger] self.entries@[j]).id != id,
            decreases n - i,
        {
            if self.entries[i].id == id {
                proof {
                    self.lemma_idx(id);
                }
                return Some(i);
            }
            i += 1;
        }
        None
    }

    /// Allocates a fresh empty collection bound to `property` and returns
    /// its id, which no earlier collection ever had.
    pub fn create(&mut self, property: &str) -> (id: u32)
        requires
            old(self).wf(),
            old(self).fresh_id() < u32::MAX,
        ensures
            final(self).wf(),
            id == old(self).fresh_id(),
            !old(self).contains(id),
            final(self).contains(id),
            final(self).rows_of(id) == Seq::<UiVal>::empty(),
            final(self).prop_of(id) == property@,
            final(self).fresh_id() == id + 1,
            final(self).count_live() == old(self).count_live() + 1,
            forall|o: u32| o != id ==> final(self).contains(o) == old(self).contains(o),
            forall|o: u32|
                o != id && old(self).contains(o) ==> final(self).rows_of(o) == old(self).rows_of(o)
                    && final(self).prop_of(o) == old(self).prop_of(o),
    {
        let id = self.next_id;
        let entry = ModelEntry { id, property: String::from_str(property), rows: Vec::new() };
        self.entries.push(entry);
        self.next_id = self.next_id + 1;
        proof {
            let ghost newself = *self;
            assert(newself.entries@[newself.entries@.len() - 1].id == id);
            assert(newself.contains(id));
            newself.lemma_idx(id);
            assert(newself.rows_of(id) =~= Seq::<UiVal>::empty());
            assert forall|o: u32| o != id implies final(self).contains(o) == old(self).contains(o) by {
                self.lemma_frame_push(*old(self), o);
            }
            assert forall|o: u32| o != id && old(self).contains(o) implies final(self).rows_of(o)
                == old(self).rows_of(o) && final(self).prop_of(o) == old(self).prop_of(o) by {
                self.lemma_frame_push(*old(self), o);
            }
        }
        id
    }

    proof fn lemma_frame_push(self, prev: ModelRegistry, o: u32)
        requires
            prev.wf(),
            self.entries@.len() == prev.entries@.len() + 1,
            self.entries@ == prev.entries@.push(self.entries@.last()),
            self.entries@.last().id != o,
        ensures
            self.contains(o) == prev.contains(o),
            prev.contains(o) ==> self.rows_of(o) == prev.rows_of(o) && self.prop_of(o)
                == prev.prop_of(o),
    {
        let n = prev.entries@.len() as int;
        assert(forall|j: int| 0 <= j < n ==> self.entries@[j] == prev.entries@[j]);
        if prev.contains(o) {
            let k = prev.idx_of(o);
            assert(0 <= k < n && prev.entries@[k].id == o);
            assert(self.entries@[k].id == o);
            assert(self.contains(o));
            let k2 = self.idx_of(o);
            assert(0 <= k2 < n + 1 && self.entries@[k2].id == o);
            if k2 == n {
                assert(self.entries@.last().id == o);
            }
            assert(k2 < n);
            assert(prev.entries@[k2].id == o);
            prev.lemma_idx_unique(o, k, k2);
            assert(self.rows_of(o) == prev.rows_of(o));
            assert(self.prop_of(o) == prev.prop_of(o));
        } else {
            if self.contains(o) {
                let k2 = self.idx_of(o);
                assert(0 <= k2 < n + 1 && self.entries@[k2].id == o);
                if k2 < n {
                    assert(prev.entries@[k2].id == o);
                    assert(prev.contains(o));
                } else {
                    assert(self.entries@.last().id == o);
                }
            }
        }
    }

    proof fn lemma_idx_unique(self, id: u32, a: int, b: int)
        requires
            self.wf(),
            0 <= a < self.entries@.len(),
            0 <= b < self.entries@.len(),
            self.entries@[a].id == id,
            self.entries@[b].id == id,
        ensures
            a == b,
    {
        if a < b {
            assert(self.entries@[a].id < self.entries@[b].id);
        } else if b < a {
            assert(self.entries@[b].id < self.entries@[a].id);
        }
    }

    proof fn lemma_update_entry(prev: ModelRegistry, cur: ModelRegistry, k: int)
        requires
            prev.wf(),
            0 <= k < prev.entries@.len(),
            cur.entries@.len() == prev.entries@.len(),
            cur.entries@ == prev.entries@.update(k, cur.entries@[k]),
            cur.entries@[k].id == prev.entries@[k].id,
            cur.next_id == prev.next_id,
        ensures
            cur.wf(),
            forall|o: u32| cur.contains(o) == prev.contains(o),
            cur.idx_of(prev.entries@[k].id) == k,
            prev.idx_of(prev.entries@[k].id) == k,
            cur.prop_of(prev.entries@[k].id) == cur.entries@[k].property@,
            cur.rows_of(prev.entries@[k].id) == ui_views(cur.entries@[k].rows@),
            forall|o: u32|
                o != prev.entries@[k].id && prev.contains(o) ==> cur.rows_of(o) == prev.rows_of(o)
                    && cur.prop_of(o) == prev.prop_of(o),
    {
        let id = prev.entries@[k].id;
        assert(forall|j: int|
            0 <= j < prev.entries@.len() && j != k ==> cur.entries@[j] == prev.entries@[j]);
        assert(forall|j: int|
            0 <= j < cur.entries@.len() ==> (#[trigger] cur.entries@[j]).id
                == prev.entries@[j].id);
        assert(cur.wf());
        assert forall|o: u32| cur.contains(o) == prev.contains(o) by {
            if cur.contains(o) {
                let a = cur.idx_of(o);
                assert(prev.entries@[a].id == o);
            }
            if prev.contains(o) {
                let a = prev.idx_of(o);
                assert(cur.entries@[a].id == o);
            }
        }
        assert(cur.contains(id));
        cur.lemma_idx(id);
        cur.lemma_idx_unique(id, cur.idx_of(id), k);
        prev.lemma_idx(id);
        prev.lemma_idx_unique(id, prev.idx_of(id), k);
        assert forall|o: u32|
            o != id && prev.contains(o) implies cur.rows_of(o) == prev.rows_of(o) && cur.prop_of(o)
            == prev.prop_of(o) by {
            prev.lemma_idx(o);
            let a = prev.idx_of(o);
            assert(cur.entries@[a].id == o);
            assert(cur.contains(o));
            cur.lemma_idx(o);
            cur.lemma_idx_unique(o, cur.idx_of(o), a);
            assert(a != k);
            assert(cur.entries@[a] == prev.entries@[a]);
        }
    }

    proof fn lemma_remove_entry(prev: ModelRegistry, cur: ModelRegistry, k: int)
        requires
            prev.wf(),
            0 <= k < prev.entries@.len(),
            cur.entries@ == prev.entries@.remove(k),
            cur.next_id == prev.next_id,
        ensures
            cur.wf(),
            !cur.contains(prev.entries@[k].id),
            forall|o: u32|
                o != prev.entries@[k].id ==> cur.contains(o) == prev.contains(o),
            forall|o: u32|
                o != prev.entries@[k].id && prev.contains(o) ==> cur.rows_of(o) == prev.rows_of(o)
                    && cur.prop_of(o) == prev.prop_of(o),
    {
        let id = prev.entries@[k].id;
        let n = prev.entries@.len() as int;
        assert(cur.entries@.len() == n - 1);
        assert(forall|j: int| 0 <= j < k ==> cur.entries@[j] == prev.entries@[j]);
        assert(forall|j: int| k <= j < n - 1 ==> cur.entries@[j] == prev.entries@[j + 1]);
        assert forall|i: int, j: int|
            0 <= i < j < cur.entries@.len() implies (#[trigger] cur.entries@[i]).id < (
        #[trigger] cur.entries@[j]).id by {
            if i < k && j < k {
            } else if i < k {
                assert(cur.entries@[j] == prev.entries@[j + 1]);
            } else {
                assert(cur.entries@[i] == prev.entries@[i + 1]);
                assert(cur.entries@[j] == prev.entries@[j + 1]);
            }
        }
        assert forall|i: int|
            0 <= i < cur.entries@.len() implies (#[trigger] cur.entries@[i]).id
            < cur.next_id by {
            if i >= k {
                assert(cur.entries@[i] == prev.entries@[i + 1]);
            }
        }
        prev.lemma_idx(id);
        prev.lemma_idx_unique(id, prev.idx_of(id), k);
        if cur.contains(id) {
            let a = cur.idx_of(id);
            if a < k {
                assert(prev.entries@[a].id == id);
            } else {
                assert(prev.entries@[a + 1].id == id);
            }
        }
        assert forall|o: u32| o != id implies cur.contains(o) == prev.contains(o) by {
            if cur.contains(o) {
                let a = cur.idx_of(o);
                if a < k {
                    assert(prev.entries@[a].id == o);
                } else {
                    assert(prev.entries@[a + 1].id == o);
                }
            }
            if prev.contains(o) {
                let a = prev.idx_of(o);
                assert(prev.entries@[a].id == o);
                if a < k {
                    assert(cur.entries@[a].id == o);
                } else {
                    assert(a != k);
                    assert(cur.entries@[a - 1] == prev.entries@[a]);
                }
            }
        }
        assert forall|o: u32|
            o != id && prev.contains(o) implies cur.rows_of(o) == prev.rows_of(o) && cur.prop_of(o)
            == prev.prop_of(o) by {
            prev.lemma_idx(o);
            let a = prev.idx_of(o);
            let b: int = if a < k {
                a
            } else {
                a - 1
            };
            assert(a != k);
            assert(cur.entries@[b] == prev.entries@[a]);
            assert(cur.contains(o));
            cur.lemma_idx(o);
            cur.lemma_idx_unique(o, cur.idx_of(o), b);
        }
    }

    /// Appends a row to the collection with this id; fails with "not found"
    /// on an unknown or destroyed id, and changes nothing else.
    pub fn push(&mut self, id: u32, value: UiValue) -> (r: Result<(), ModelError>)
        requires
            old(self).wf(),
        ensures
            final(self).wf(),
            final(self).fresh_id() == old(self).fresh_id(),
            match r {
                Ok(()) => old(self).contains(id) && final(self).rows_of(id) == old(self).rows_of(
                    id,
                ).push(value@) && final(self).prop_of(id) == old(self).prop_of(id) && (forall|
                    o: u32,
                |
                    final(self).contains(o) == old(self).contains(o)) && (forall|o: u32|
                    o != id && old(self).contains(o) ==> final(self).rows_of(o) == old(self).rows_of(o) && final(self).prop_of(o) == old(self).prop_of(o)),
                Err(e) => !old(self).contains(id) && *final(self) == *old(self) && e == (
                ModelError::NotFound { id }),
            },
    {
        match self.find(id) {
            None => Err(ModelError::NotFound { id }),
            Some(k) => {
                let ghost prev = *self;
                let mut entry = self.entries.remove(k);
                entry.rows.push(value);
                self.entries.insert(k, entry);
                proof {
                    assert(self.entries@ =~= prev.entries@.update(k as int, self.entries@[k as int]));
                    Self::lemma_update_entry(prev, *self, k as int);
                    assert(self.rows_of(id) =~= prev.rows_of(id).push(value@));
                }
                Ok(())
            },
        }
    }

    /// Inserts a row at `index`, which may equal the current length
    /// (append); a larger index is out of bounds, an unknown id not found.
    pub fn insert(&mut self, id: u32, index: usize, value: UiValue) -> (r: Result<
        (),
        ModelError,
    >)
        requires
            old(self).wf(),
        ensures
            final(self).wf(),
            final(self).fresh_id() == old(self).fresh_id(),
            match r {
                Ok(()) => old(self).contains(id) && index <= old(self).rows_of(id).len() && final(self).rows_of(id) == old(self).rows_of(id).insert(index as int, value@) && final(self).prop_of(id) == old(self).prop_of(id) && (forall|o: u32|
                    final(self).contains(o) == old(self).contains(o)) && (forall|o: u32|
                    o != id && old(self).contains(o) ==> final(self).rows_of(o) == old(self).rows_of(o) && final(self).prop_of(o) == old(self).prop_of(o)),
                Err(e) => *final(self) == *old(self) && match e {
                    ModelError::NotFound { id: eid } => eid == id && !old(self).contains(id),
                    ModelError::OutOfBoundsInsert { id: eid, property, index: ei, len } => eid
                        == id && old(self).contains(id) && property@ == old(self).prop_of(id) && ei
                        == index && len == old(self).rows_of(id).len() && index > old(
                        self,
                    ).rows_of(id).len(),
                    _ => false,
                },
            },
    {
        match self.find(id) {
            None => Err(ModelError::NotFound { id }),
            Some(k) => {
                let ghost prev = *self;
                if index > self.entries[k].rows.len() {
                    let e = ModelError::OutOfBoundsInsert {
                        id,
                        property: self.entries[k].property.clone(),
                        index,
                        len: self.entries[k].rows.len(),
                    };
                    proof {
                        prev.lemma_idx(id);
                    }
                    return Err(e);
                }
                let mut entry = self.entries.remove(k);
                entry.rows.insert(index, value);
                self.entries.insert(k, entry);
                proof {
                    assert(self.entries@ =~= prev.entries@.update(k as int, self.entries@[k as int]));
                    Self::lemma_update_entry(prev, *self, k as int);
                    assert(self.rows_of(id) =~= prev.rows_of(id).insert(index as int, value@));
                }
                Ok(())
            },
        }
    }

    /// Replaces the row at `index`; the index must lie strictly inside the
    /// current bounds.
    pub fn set(&mut self, id: u32, index: usize, value: UiValue) -> (r: Result<(), ModelError>)
        requires
            old(self).wf(),
        ensures
            final(self).wf(),
            final(self).fresh_id() == old(self).fresh_id(),
            match r {
                Ok(()) => old(self).contains(id) && index < old(self).rows_of(id).len() && final(self).rows_of(id) == old(self).rows_of(id).update(index as int, value@) && final(self).prop_of(id) == old(self).prop_of(id) && (forall|o: u32|
                    final(self).contains(o) == old(self).contains(o)) && (forall|o: u32|
                    o != id && old(self).contains(o) ==> final(self).rows_of(o) == old(self).rows_of(o) && final(self).prop_of(o) == old(self).prop_of(o)),
                Err(e) => *final(self) == *old(self) && match e {
                    ModelError::NotFound { id: eid } => eid == id && !old(self).contains(id),
                    ModelError::OutOfBounds { id: eid, property, index: ei, len } => eid == id
                        && old(self).contains(id) && property@ == old(self).prop_of(id) && ei
                        == index && len == old(self).rows_of(id).len() && index >= old(
                        self,
                    ).rows_of(id).len(),
                    _ => false,
                },
            },
    {
        match self.find(id) {
            None => Err(ModelError::NotFound { id }),
            Some(k) => {
                let ghost prev = *self;
                if index >= self.entries[k].rows.len() {
                    let e = ModelError::OutOfBounds {
                        id,
                        property: self.entries[k].property.clone(),
                        index,
                        len: self.entries[k].rows.len(),
                    };
                    proof {
                        prev.lemma_idx(id);
                    }
                    return Err(e);
                }
                let mut entry = self.entries.remove(k);
                entry.rows.set(index, value);
                self.entries.insert(k, entry);
                proof {
                    assert(self.entries@ =~= prev.entries@.update(k as int, self.entries@[k as int]));
                    Self::lemma_update_entry(prev, *self, k as int);
                    assert(self.rows_of(id) =~= prev.rows_of(id).update(index as int, value@));
                }
                Ok(())
            },
        }
    }

    /// Removes the row at `index`; the index must lie strictly inside the
    /// current bounds.
    pub fn remove(&mut self, id: u32, index: usize) -> (r: Result<(), ModelError>)
        requires
            old(self).wf(),
        ensures
            final(self).wf(),
            final(self).fresh_id() == old(self).fresh_id(),
            match r {
                Ok(()) => old(self).contains(id) && index < old(self).rows_of(id).len() && final(self).rows_of(id) == old(self).rows_of(id).remove(index as int) && final(self).prop_of(id) == old(self).prop_of(id) && (forall|o: u32|
                    final(self).contains(o) == old(self).contains(o)) && (forall|o: u32|
                    o != id && old(self).contains(o) ==> final(self).rows_of(o) == old(self).rows_of(o) && final(self).prop_of(o) == old(self).prop_of(o)),
                Err(e) => *final(self) == *old(self) && match e {
                    ModelError::NotFound { id: eid } => eid == id && !old(self).contains(id),
                    ModelError::OutOfBounds { id: eid, property, index: ei, len } => eid == id
                        && old(self).contains(id) && property@ == old(self).prop_of(id) && ei
                        == index && len == old(self).rows_of(id).len() && index >= old(
                        self,
                    ).rows_of(id).len(),
                    _ => false,
                },
            },
    {
        match self.find(id) {
            None => Err(ModelError::NotFound { id }),
            Some(k) => {
                let ghost prev = *self;
                if index >= self.entries[k].rows.len() {
                    let e = ModelError::OutOfBounds {
                        id,
                        property: self.entries[k].property.clone(),
                        index,
                        len: self.entries[k].rows.len(),
                    };
                    proof {
                        prev.lemma_idx(id);
                    }
                    return Err(e);
                }
                let mut entry = self.entries.remove(k);
                entry.rows.remove(index);
                self.entries.insert(k, entry);
                proof {
                    assert(self.entries@ =~= prev.entries@.update(k as int, self.entries@[k as int]));
                    Self::lemma_update_entry(prev, *self, k as int);
                    assert(self.rows_of(id) =~= prev.rows_of(id).remove(index as int));
                }
                Ok(())
            },
        }
    }

    /// The row at `index`, by reference.
    pub fn get(&self, id: u32, index: usize) -> (r: Result<&UiValue, ModelError>)
        requires
            self.wf(),
        ensures
            match r {
                Ok(v) => self.contains(id) && index < self.rows_of(id).len() && v@ == self.rows_of(
                    id,
                )[index as int],
                Err(e) => match e {
                    ModelError::NotFound { id: eid } => eid == id && !self.contains(id),
                    ModelError::OutOfBounds { id: eid, property, index: ei, len } => eid == id
                        && self.contains(id) && property@ == self.prop_of(id) && ei == index && len
                        == self.rows_of(id).len() && index >= self.rows_of(id).len(),
                    _ => false,
                },
            },
    {
        match self.find(id) {
            None => Err(ModelError::NotFound { id }),
            Some(k) => {
                proof {
                    self.lemma_idx(id);
                }
                let entry = &self.entries[k];
                if index >= entry.rows.len() {
                    return Err(
                        ModelError::OutOfBounds {
                            id,
                            property: entry.property.clone(),
                            index,
                            len: entry.rows.len(),
                        },
                    );
                }
                Ok(&entry.rows[index])
            },
        }
    }

    /// How many rows the collection with this id holds.
    pub fn count(&self, id: u32) -> (r: Result<usize, ModelError>)
        requires
            self.wf(),
        ensures
            match r {
                Ok(n) => self.contains(id) && n == self.rows_of(id).len(),
                Err(e) => !self.contains(id) && e == (ModelError::NotFound { id }),
            },
    {
        match self.find(id) {
            None => Err(ModelError::NotFound { id }),
            Some(k) => {
                proof {
                    self.lemma_idx(id);
                }
                Ok(self.entries[k].rows.len())
            },
        }
    }

    /// Removes every row of the collection with this id.
    pub fn clear(&mut self, id: u32) -> (r: Result<(), ModelError>)
        requires
            old(self).wf(),
        ensures
            final(self).wf(),
            final(self).fresh_id() == old(self).fresh_id(),
            match r {
                Ok(()) => old(self).contains(id) && final(self).rows_of(id) == Seq::<
                    UiVal,
                >::empty() && final(self).prop_of(id) == old(self).prop_of(id) && (forall|o: u32|
                    final(self).contains(o) == old(self).contains(o)) && (forall|o: u32|
                    o != id && old(self).contains(o) ==> final(self).rows_of(o) == old(self).rows_of(o) && final(self).prop_of(o) == old(self).prop_of(o)),
                Err(e) => !old(self).contains(id) && *final(self) == *old(self) && e == (
                ModelError::NotFound { id }),
            },
    {
        match self.find(id) {
            None => Err(ModelError::NotFound { id }),
            Some(k) => {
                let ghost prev = *self;
                let mut entry = self.entries.remove(k);
                entry.rows = Vec::new();
                self.entries.insert(k, entry);
                proof {
                    assert(self.entries@ =~= prev.entries@.update(k as int, self.entries@[k as int]));
                    Self::lemma_update_entry(prev, *self, k as int);
                    assert(self.rows_of(id) =~= Seq::<UiVal>::empty());
                }
                Ok(())
            },
        }
    }

    /// Removes the table entry for this id; the id is never handed out
    /// again, so later operations on it keep failing with "not found".
    /// Destroying twice reports "not found" the second time.
    pub fn destroy(&mut self, id: u32) -> (r: Result<(), ModelError>)
        requires
            old(self).wf(),
        ensures
            final(self).wf(),
            final(self).fresh_id() == old(self).fresh_id(),
            !final(self).contains(id),
            match r {
                Ok(()) => old(self).contains(id) && final(self).count_live() == old(self).count_live() - 1 && (forall|o: u32|
                    o != id ==> final(self).contains(o) == old(self).contains(o)) && (forall|
                    o: u32,
                |
                    o != id && old(self).contains(o) ==> final(self).rows_of(o) == old(self).rows_of(o) && final(self).prop_of(o) == old(self).prop_of(o)),
                Err(e) => !old(self).contains(id) && *final(self) == *old(self) && e == (
                ModelError::NotFound { id }),
            },
    {
        match self.find(id) {
            None => Err(ModelError::NotFound { id }),
            Some(k) => {
                let ghost prev = *self;
                proof {
                    prev.lemma_idx(id);
                }
                self.entries.remove(k);
                proof {
                    Self::lemma_remove_entry(prev, *self, k as int);
                }
                Ok(())
            },
        }
    }
}

} // verus!
