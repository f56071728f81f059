//! Owner-scoped metadata records and the ciphertext blobs they point to.

use crate::entity::Model;
use vstd::prelude::*;

verus! {

#[derive(Clone, Copy, Debug, PartialEq, Eq, Structural)]
pub enum StoreError {
    /// No entry matches the lookup.
    NotFound,
    /// An entry with that id is already stored.
    DuplicateId,
}

/// `records[i]` is the file `id` and belongs to `owner`.
pub open spec fn owned_at(records: Seq<Model>, id: Seq<char>, owner: Seq<char>, i: int) -> bool {
    &&& 0 <= i < records.len()
    &&& records[i].id@ == id
    &&& records[i].user_id@ == owner
}

pub open spec fn has_id(records: Seq<Model>, id: Seq<char>) -> bool {
    exists|i: int| 0 <= i < records.len() && #[trigger] records[i].id@ == id
}

pub open spec fn ids_unique(records: Seq<Model>) -> bool {
    forall|i: int, j: int|
        0 <= i < records.len() && 0 <= j < records.len() && i != j ==> #[trigger] records[i].id@
            != #[trigger] records[j].id@
}

/// The records of `owner`, in stored order.
pub open spec fn owned_by(records: Seq<Model>, owner: Seq<char>) -> Seq<Model>
    decreases records.len(),
{
    if records.len() == 0 {
        Seq::empty()
    } else {
        let earlier = owned_by(records.drop_last(), owner);
        if records.last().user_id@ == owner {
            earlier.push(records.last())
        } else {
            earlier
        }
    }
}

/// The metadata store: file records with distinct ids, read and removed only
/// through lookups scoped to their owner.
pub struct MetadataStore {
    records: Vec<Model>,
}

impl View for MetadataStore {
    type V = Seq<Model>;

    closed spec fn view(&self) -> Seq<Model> {
        self.records@
    }
}

impl MetadataStore {
    pub closed spec fn wf(&self) -> bool {
        ids_unique(self.records@)
    }

    pub proof fn lemma_ids_unique(&self)
        requires
            self.wf(),
        ensures
            ids_unique(self@),
    {
    }

    pub fn new() -> (r: MetadataStore)
        ensures
            r.wf(),
            r@ == Seq::<Model>::empty(),
    {
        MetadataStore { records: Vec::new() }
    }

    /// Number of stored records.
    pub fn len(&self) -> (r: usize)
        ensures
            r == self@.len(),
    {
        self.records.len()
    }

    /// The record at position `i`, in stored order.
    pub fn record(&self, i: usize) -> (r: &Model)
        requires
            i < self@.len(),
        ensures
            *r == self@[i as int],
    {
        &self.records[i]
    }

    /// Whether any record has id `id`, whoever owns it.
    pub fn contains_id(&self, id: &str) -> (r: bool)
        ensures
            r == has_id(self@, id@),
    {
        let mut i: usize = 0;
        while i < self.records.len()
            invariant
                i <= self.records@.len(),
                forall|j: int| 0 <= j < i ==> self.records@[j].id@ != id@,
            decreases self.records@.len() - i,
        {
            if crate::cipher::same_text(self.records[i].id.as_str(), id) {
                return true;
            }
            i = i + 1;
        }
        false
    }

    /// Index of the record `id` of `owner`, if there is one.
    fn position_owned(&self, id: &str, owner: &str) -> (r: Option<usize>)
        ensures
            r matches Some(i) ==> owned_at(self@, id@, owner@, i as int),
            r is None ==> forall|i: int| !owned_at(self@, id@, owner@, i),
    {
        let mut i: usize = 0;
        while i < self.records.len()
            invariant
                i <= self.records@.len(),
                forall|j: int| 0 <= j < i ==> !owned_at(self.records@, id@, owner@, j),
            decreases self.records@.len() - i,
        {
            if crate::cipher::same_text(self.records[i].id.as_str(), id) && crate::cipher::same_text(
                self.records[i].user_id.as_str(),
                owner,
            ) {
                return Some(i);
            }
            i = i + 1;
        }
        None
    }

    /// Adds `record`; fails with `DuplicateId`, storing nothing, when its id
    /// is taken.
    pub fn insert(&mut self, record: Model) -> (r: Result<(), StoreError>)
        requires
            old(self).wf(),
        ensures
            final(self).wf(),
            has_id(old(self)@, record.id@) ==> r == Err::<(), StoreError>(StoreError::DuplicateId)
                && final(self)@ == old(self)@,
            !has_id(old(self)@, record.id@) ==> r is Ok && final(self)@ == old(self)@.push(record),
    {
        if self.contains_id(record.id.as_str()) {
            return Err(StoreError::DuplicateId);
        }
        self.records.push(record);
        Ok(())
    }

    /// The record `id` if `owner` owns it; `None` otherwise, also when the id
    /// belongs to someone else.
    pub fn find_owned(&self, id: &str, owner: &str) -> (r: Option<Model>)
        ensures
            r matches Some(m) ==> exists|i: int| owned_at(self@, id@, owner@, i) && m == self@[i],
            r is None ==> forall|i: int| !owned_at(self@, id@, owner@, i),
    {
        match self.position_owned(id, owner) {
            Some(i) => Some(self.records[i].duplicate()),
            None => None,
        }
    }

    /// The records of `owner`, in stored order.
    pub fn list_owned(&self, owner: &str) -> (r: Vec<Model>)
        ensures
            r@ == owned_by(self@, owner@),
    {
        let mut out: Vec<Model> = Vec::new();
        let mut i: usize = 0;
        while i < self.records.len()
            invariant
                i <= self.records@.len(),
                out@ == owned_by(self.records@.subrange(0, i as int), owner@),
            decreases self.records@.len() - i,
        {
            assert(self.records@.subrange(0, i + 1).drop_last() =~= self.records@.subrange(
                0,
                i as int,
            ));
            if crate::cipher::same_text(self.records[i].user_id.as_str(), owner) {
                out.push(self.records[i].duplicate());
            }
            i = i + 1;
        }
        assert(self.records@.subrange(0, i as int) =~= self.records@);
        out
    }

    /// Removes and returns the record `id` of `owner`; `NotFound`, removing
    /// nothing, when `owner` has no such record.
    pub fn delete_owned(&mut self, id: &str, owner: &str) -> (r: Result<Model, StoreError>)
        requires
            old(self).wf(),
        ensures
            final(self).wf(),
            r matches Ok(m) ==> exists|i: int|
                owned_at(old(self)@, id@, owner@, i) && m == old(self)@[i] && final(self)@ == old(
                    self,
                )@.remove(i),
            r is Err ==> r == Err::<Model, StoreError>(StoreError::NotFound) && final(self)@ == old(
                self,
            )@ && forall|i: int| !owned_at(old(self)@, id@, owner@, i),
    {
        match self.position_owned(id, owner) {
            Some(i) => {
                let m = self.records.remove(i);
                proof {
                    let before = old(self).records@;
                    let after = self.records@;
                    assert forall|a: int, b: int|
                        0 <= a < after.len() && 0 <= b < after.len() && a != b implies #[trigger] after[a].id@
                        != #[trigger] after[b].id@ by {
                        let a0 = if a < i { a } else { a + 1 };
                        let b0 = if b < i { b } else { b + 1 };
                        assert(after[a] == before[a0]);
                        assert(after[b] == before[b0]);
                    }
                }
                Ok(m)
            },
            None => Err(StoreError::NotFound),
        }
    }
}

/// One stored ciphertext, under the id of its file.
pub struct Blob {
    pub id: String,
    pub data: Vec<u8>,
}

/// The ciphertext stored under `id`, if any.
pub open spec fn blob_of(blobs: Seq<Blob>, id: Seq<char>) -> Option<Seq<u8>> {
    if exists|i: int| 0 <= i < blobs.len() && #[trigger] blobs[i].id@ == id {
        let i = choose|i: int| 0 <= i < blobs.len() && #[trigger] blobs[i].id@ == id;
        Some(blobs[i].data@)
    } else {
        None
    }
}

pub open spec fn blob_ids_unique(blobs: Seq<Blob>) -> bool {
    forall|i: int, j: int|
        0 <= i < blobs.len() && 0 <= j < blobs.len() && i != j ==> #[trigger] blobs[i].id@
            != #[trigger] blobs[j].id@
}

/// The blob store: ciphertexts keyed by file id, at most one per id.
pub struct BlobStore {
    blobs: Vec<Blob>,
}

impl BlobStore {
    pub closed spec fn wf(&self) -> bool {
        blob_ids_unique(self.blobs@)
    }

    /// The ciphertext stored under `id`, if any.
    pub closed spec fn get_spec(&self, id: Seq<char>) -> Option<Seq<u8>> {
        blob_of(self.blobs@, id)
    }

    pub fn new() -> (r: BlobStore)
        ensures
            r.wf(),
            forall|id: Seq<char>| r.get_spec(id) is None,
    {
        BlobStore { blobs: Vec::new() }
    }

    fn position(&self, id: &str) -> (r: Option<usize>)
        requires
            self.wf(),
        ensures
            r matches Some(i) ==> i < self.blobs@.len() && self.blobs@[i as int].id@ == id@
                && self.get_spec(id@) == Some(self.blobs@[i as int].data@),
            r is None ==> self.get_spec(id@) is None,
    {
        let mut i: usize = 0;
        while i < self.blobs.len()
            invariant
                self.wf(),
                i <= self.blobs@.len(),
                forall|j: int| 0 <= j < i ==> self.blobs@[j].id@ != id@,
            decreases self.blobs@.len() - i,
        {
            if crate::cipher::same_text(self.blobs[i].id.as_str(), id) {
                proof {
                    let k = choose|k: int|
                        0 <= k < self.blobs@.len() && #[trigger] self.blobs@[k].id@ == id@;
                    assert(k == i);
                }
                return Some(i);
            }
            i = i + 1;
        }
        None
    }

    /// Stores `data` under `id`; fails with `DuplicateId`, storing nothing,
    /// when `id` already holds a ciphertext.
    pub fn put(&mut self, id: String, data: Vec<u8>) -> (r: Result<(), StoreError>)
        requires
            old(self).wf(),
        ensures
            final(self).wf(),
            old(self).get_spec(id@) is Some ==> r == Err::<(), StoreError>(StoreError::DuplicateId)
                && *final(self) == *old(self),
            old(self).get_spec(id@) is None ==> r is Ok && final(self).get_spec(id@) == Some(
                data@,
            ) && forall|other: Seq<char>|
                other != id@ ==> final(self).get_spec(other) == old(self).get_spec(other),
    {
        match self.position(id.as_str()) {
            Some(_) => Err(StoreError::DuplicateId),
            None => {
                let ghost before = self.blobs@;
                let ghost key = id@;
                let ghost value = data@;
                self.blobs.push(Blob { id, data });
                proof {
                    let after = self.blobs@;
                    let n = before.len() as int;
                    assert(after[n].id@ == key);
                    assert forall|other: Seq<char>| other != key implies blob_of(after, other)
                        == blob_of(before, other) by {
                        if exists|i: int| 0 <= i < after.len() && #[trigger] after[i].id@ == other {
                            let i = choose|i: int| 0 <= i < after.len() && #[trigger] after[i].id@ == other;
                            assert(before[i] == after[i]);
                        }
                        if exists|i: int| 0 <= i < before.len() && #[trigger] before[i].id@ == other {
                            let i = choose|i: int| 0 <= i < before.len() && #[trigger] before[i].id@ == other;
                            assert(before[i] == after[i]);
                        }
                    }
                    let k = choose|k: int| 0 <= k < after.len() && #[trigger] after[k].id@ == key;
                    if k != n {
                        assert(before[k] == after[k]);
                    }
                }
                Ok(())
            },
        }
    }

    /// A copy of the ciphertext stored under `id`.
    pub fn get(&self, id: &str) -> (r: Option<Vec<u8>>)
        requires
            self.wf(),
        ensures
            r matches Some(d) ==> self.get_spec(id@) == Some(d@),
            r is None ==> self.get_spec(id@) is None,
    {
        match self.position(id) {
            Some(i) => Some(self.blobs[i].data.clone()),
            None => None,
        }
    }

    /// Removes the ciphertext stored under `id`, if any.
    pub fn remove(&mut self, id: &str) -> (r: bool)
        requires
            old(self).wf(),
        ensures
            final(self).wf(),
            r == old(self).get_spec(id@) is Some,
            final(self).get_spec(id@) is None,
            forall|other: Seq<char>|
                other != id@ ==> final(self).get_spec(other) == old(self).get_spec(other),
    {
        match self.position(id) {
            Some(i) => {
                let ghost before = self.blobs@;
                self.blobs.remove(i);
                proof {
                    let after = self.blobs@;
                    let idx = i as int;
                    let shift = |a: int| if a < idx { a } else { a + 1 };
                    assert forall|a: int, b: int|
                        0 <= a < after.len() && 0 <= b < after.len() && a != b implies #[trigger] after[a].id@
                        != #[trigger] after[b].id@ by {
                        assert(after[a] == before[shift(a)]);
                        assert(after[b] == before[shift(b)]);
                    }
                    assert forall|other: Seq<char>| other != id@ implies blob_of(after, other)
                        == blob_of(before, other) by {
                        if exists|a: int| 0 <= a < after.len() && #[trigger] after[a].id@ == other {
                            let a = choose|a: int| 0 <= a < after.len() && #[trigger] after[a].id@ == other;
                            assert(after[a] == before[shift(a)]);
                        }
                        if exists|a: int| 0 <= a < before.len() && #[trigger] before[a].id@ == other {
                            let a = choose|a: int| 0 <= a < before.len() && #[trigger] before[a].id@ == other;
                            assert(a != idx);
                            let b = if a < idx { a } else { a - 1 };
                            assert(after[b] == before[a]);
                        }
                    }
                    if exists|a: int| 0 <= a < after.len() && #[trigger] after[a].id@ == id@ {
                        let a = choose|a: int| 0 <= a < after.len() && #[trigger] after[a].id@ == id@;
                        assert(after[a] == before[shift(a)]);
                    }
                }
                true
            },
            None => false,
        }
    }
}

/// Once the record `id` is removed from a store of distinct ids, no record
/// with that id is left, for its owner or anyone else.
pub proof fn lemma_removed_id_gone(records: Seq<Model>, i: int)
    requires
        ids_unique(records),
        0 <= i < records.len(),
    ensures
        !has_id(records.remove(i), records[i].id@),
{
    let after = records.remove(i);
    if has_id(after, records[i].id@) {
        let j = choose|j: int| 0 <= j < after.len() && #[trigger] after[j].id@ == records[i].id@;
        let j0 = if j < i { j } else { j + 1 };
        assert(after[j] == records[j0]);
    }
}

} // verus!
