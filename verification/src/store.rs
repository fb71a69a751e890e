//! The document store model: one collection of documents, each addressed by
//! a store-assigned identifier.
//!
//! The collection's mathematical value is the sequence of its entries in
//! insertion order; every operation's contract says exactly which entries
//! the result holds.  The operations mirror a document database driver:
//! `find_one`, `find`, `count_documents`, `insert_one`, `update_one`,
//! `delete_one`, `delete_many`.

use crate::document::{doc_matches, Document, ValueModel};
use crate::error::ServiceError;
use crate::object_id::ObjectId;
use vstd::prelude::*;

verus! {

/// The mathematical value of one stored entry: its identifier and its
/// fields.
#[verifier::ext_equal]
pub ghost struct EntryModel {
    pub id: int,
    pub doc: Map<Seq<char>, ValueModel>,
}

/// One stored entry: a document together with its assigned identifier.
#[derive(Debug)]
pub struct StoredDocument {
    pub id: ObjectId,
    pub doc: Document,
}

impl View for StoredDocument {
    type V = EntryModel;

    open spec fn view(&self) -> EntryModel {
        EntryModel { id: self.id@, doc: self.doc@ }
    }
}

impl StoredDocument {
    /// The identifier is in range and the document well-formed.
    pub open spec fn wf(&self) -> bool {
        self.id.wf() && self.doc.wf()
    }
}

impl Clone for StoredDocument {
    fn clone(&self) -> (r: Self)
        ensures
            r@ == self@,
            r.id == self.id,
            self.wf() ==> r.wf(),
    {
        StoredDocument { id: self.id, doc: self.doc.clone() }
    }
}

/// Whether some entry carries the given identifier.
pub open spec fn contains_id(s: Seq<EntryModel>, id: int) -> bool {
    exists|i: int| 0 <= i < s.len() && (#[trigger] s[i]).id == id
}

/// The index of the entry carrying the given identifier (meaningful when
/// identifiers are unique and the identifier is present).
pub open spec fn idx_of(s: Seq<EntryModel>, id: int) -> int {
    choose|i: int| 0 <= i < s.len() && (#[trigger] s[i]).id == id
}

/// The fields of the entry carrying the given identifier, if any.
pub open spec fn lookup(s: Seq<EntryModel>, id: int) -> Option<Map<Seq<char>, ValueModel>> {
    if contains_id(s, id) {
        Some(s[idx_of(s, id)].doc)
    } else {
        None
    }
}

/// Whether no two entries share an identifier.
pub open spec fn unique_ids(s: Seq<EntryModel>) -> bool {
    forall|i: int, j: int| 0 <= i < j < s.len() ==> (#[trigger] s[i]).id != (#[trigger] s[j]).id
}

/// The entries matching a structural filter, in store order.
pub open spec fn matching(s: Seq<EntryModel>, filter: Map<Seq<char>, ValueModel>) -> Seq<
    EntryModel,
>
    decreases s.len(),
{
    if s.len() == 0 {
        Seq::empty()
    } else {
        let rest = matching(s.drop_last(), filter);
        if doc_matches(s.last().doc, filter) {
            rest.push(s.last())
        } else {
            rest
        }
    }
}

/// The entries not matching a structural filter, in store order.
pub open spec fn rejecting(s: Seq<EntryModel>, filter: Map<Seq<char>, ValueModel>) -> Seq<
    EntryModel,
>
    decreases s.len(),
{
    if s.len() == 0 {
        Seq::empty()
    } else {
        let rest = rejecting(s.drop_last(), filter);
        if doc_matches(s.last().doc, filter) {
            rest
        } else {
            rest.push(s.last())
        }
    }
}

/// Every entry either matches a filter or does not: the two partitions'
/// lengths add up to the collection's.
pub proof fn lemma_matching_partition(s: Seq<EntryModel>, filter: Map<Seq<char>, ValueModel>)
    ensures
        matching(s, filter).len() + rejecting(s, filter).len() == s.len(),
    decreases s.len(),
{
    if s.len() > 0 {
        lemma_matching_partition(s.drop_last(), filter);
    }
}

/// Removing the matching entries keeps identifiers unique, and introduces
/// no identifier that the collection did not hold.
pub proof fn lemma_rejecting_unique(s: Seq<EntryModel>, filter: Map<Seq<char>, ValueModel>)
    requires
        unique_ids(s),
    ensures
        unique_ids(rejecting(s, filter)),
        forall|id: int| contains_id(rejecting(s, filter), id) ==> contains_id(s, id),
    decreases s.len(),
{
    if s.len() > 0 {
        let pre = s.drop_last();
        assert forall|i: int, j: int| 0 <= i < j < pre.len() implies (#[trigger] pre[i]).id != (
        #[trigger] pre[j]).id by {
            assert(pre[i] == s[i]);
            assert(pre[j] == s[j]);
        }
        lemma_rejecting_unique(pre, filter);
        let r0 = rejecting(pre, filter);
        let r = rejecting(s, filter);
        if !doc_matches(s.last().doc, filter) {
            assert(r == r0.push(s.last()));
            assert forall|i: int, j: int| 0 <= i < j < r.len() implies (#[trigger] r[i]).id != (
            #[trigger] r[j]).id by {
                if j < r.len() - 1 {
                    assert(r[i] == r0[i]);
                    assert(r[j] == r0[j]);
                } else {
                    assert(r[i] == r0[i]);
                    assert(contains_id(r0, r0[i].id));
                    assert(contains_id(pre, r0[i].id));
                    let k = choose|k: int|
                        0 <= k < pre.len() && (#[trigger] pre[k]).id == r0[i].id;
                    assert(pre[k] == s[k]);
                    assert(s[k].id != s[s.len() - 1].id);
                    assert(r[j] == s.last());
                }
            }
            assert forall|id: int| contains_id(r, id) implies contains_id(s, id) by {
                let k = choose|k: int| 0 <= k < r.len() && (#[trigger] r[k]).id == id;
                if k < r.len() - 1 {
                    assert(r[k] == r0[k]);
                    assert(0 <= k < r0.len() && r0[k].id == id);
                    assert(contains_id(r0, id));
                    assert(contains_id(pre, id));
                    let m = choose|m: int| 0 <= m < pre.len() && (#[trigger] pre[m]).id == id;
                    assert(pre[m] == s[m]);
                    assert(s[m].id == id);
                } else {
                    assert(r[k] == s.last());
                    assert(s[s.len() - 1].id == id);
                }
            }
        } else {
            assert(r == r0);
            assert forall|id: int| contains_id(r, id) implies contains_id(s, id) by {
                let k = choose|k: int| 0 <= k < r.len() && (#[trigger] r[k]).id == id;
                assert(0 <= k < r0.len() && r0[k].id == id);
                assert(contains_id(r0, id));
                assert(contains_id(pre, id));
                let m = choose|m: int| 0 <= m < pre.len() && (#[trigger] pre[m]).id == id;
                assert(pre[m] == s[m]);
                assert(s[m].id == id);
            }
        }
    }
}

/// A freshly pushed entry is found under its identifier: looking the
/// identifier up in the extended collection yields exactly the pushed
/// document.
pub proof fn lemma_lookup_push(s: Seq<EntryModel>, e: EntryModel)
    requires
        !contains_id(s, e.id),
    ensures
        contains_id(s.push(e), e.id),
        lookup(s.push(e), e.id) == Some(e.doc),
{
    let s2 = s.push(e);
    assert(s2[s.len() as int] == e);
    assert(contains_id(s2, e.id));
    let k = idx_of(s2, e.id);
    assert(0 <= k < s2.len() && s2[k].id == e.id);
    if k < s.len() {
        assert(s2[k] == s[k]);
        assert(contains_id(s, e.id));
    }
}

/// The empty filter matches every entry: an unrestricted `find` returns
/// the whole collection and an unrestricted `count` its size.
pub proof fn lemma_matching_all(s: Seq<EntryModel>)
    ensures
        matching(s, Map::<Seq<char>, ValueModel>::empty()) == s,
    decreases s.len(),
{
    if s.len() > 0 {
        lemma_matching_all(s.drop_last());
        assert(doc_matches(s.last().doc, Map::<Seq<char>, ValueModel>::empty()));
        assert(matching(s, Map::<Seq<char>, ValueModel>::empty()) =~= s);
    } else {
        assert(matching(s, Map::<Seq<char>, ValueModel>::empty()) =~= s);
    }
}

/// A collection of documents addressed by store-assigned identifiers.
#[derive(Debug)]
pub struct Collection {
    docs: Vec<StoredDocument>,
    next_id: u64,
}

impl View for Collection {
    type V = Seq<EntryModel>;

    closed spec fn view(&self) -> Seq<EntryModel> {
        self.docs@.map_values(|d: StoredDocument| d@)
    }
}

impl Collection {
    /// Entries are well-formed, identifiers unique and below the counter.
    pub closed spec fn wf(&self) -> bool {
        &&& forall|i: int| 0 <= i < self.docs@.len() ==> (#[trigger] self.docs@[i]).wf()
        &&& forall|i: int|
            0 <= i < self.docs@.len() ==> (#[trigger] self.docs@[i]).id@ < self.next_id as int
        &&& unique_ids(self@)
    }

    /// Whether the store can still assign a fresh identifier.
    pub closed spec fn fresh_ids_left(&self) -> bool {
        (self.next_id as int) < 0xffff_ffff_ffff_ffff
    }

    /// A well-formed collection has unique identifiers.
    pub proof fn lemma_wf_unique(&self)
        requires
            self.wf(),
        ensures
            unique_ids(self@),
    {
    }

    /// The empty collection.
    pub fn new() -> (r: Collection)
        ensures
            r.wf(),
            r.fresh_ids_left(),
            r@ == Seq::<EntryModel>::empty(),
    {
        let r = Collection { docs: Vec::new(), next_id: 0 };
        proof {
            assert(r@ =~= Seq::<EntryModel>::empty());
        }
        r
    }

    /// The document stored under an identifier, if any.
    pub fn find_one(&self, id: &ObjectId) -> (r: Option<Document>)
        requires
            self.wf(),
        ensures
            r is Some <==> contains_id(self@, id@),
            r matches Some(d) ==> d.wf() && lookup(self@, id@) == Some(d@),
    {
        let n = self.docs.len();
        let mut i: usize = 0;
        while i < n
            invariant
                self.wf(),
                n == self.docs@.len(),
                i <= n,
                forall|j: int| 0 <= j < i ==> (#[trigger] self@[j]).id != id@,
            decreases n - i,
        {
            if self.docs[i].id.equals(id) {
                proof {
                    assert(self@[i as int] == self.docs@[i as int]@);
                    assert(self@[i as int].id == id@);
                    assert(contains_id(self@, id@));
                    let k = idx_of(self@, id@);
                    assert(0 <= k < self@.len() && self@[k].id == id@);
                    if k != i as int {
                        assert(false);
                    }
                    assert(self.docs@[i as int].wf());
                }
                return Some(self.docs[i].doc.clone());
            }
            proof {
                assert(self@[i as int] == self.docs@[i as int]@);
            }
            i = i + 1;
        }
        proof {
            if contains_id(self@, id@) {
                let k = choose|k: int| 0 <= k < self@.len() && (#[trigger] self@[k]).id == id@;
                assert(self@[k].id != id@);
            }
        }
        None
    }

    /// All documents matching a structural filter, in store order.
    pub fn find(&self, filter: &Document) -> (r: Vec<StoredDocument>)
        requires
            self.wf(),
            filter.wf(),
        ensures
            r@.map_values(|d: StoredDocument| d@) == matching(self@, filter@),
            forall|i: int| 0 <= i < r@.len() ==> (#[trigger] r@[i]).wf(),
    {
        let n = self.docs.len();
        let mut out: Vec<StoredDocument> = Vec::new();
        let mut i: usize = 0;
        proof {
            assert(out@.map_values(|d: StoredDocument| d@) =~= matching(
                self@.subrange(0, 0),
                filter@,
            ));
        }
        while i < n
            invariant
                self.wf(),
                filter.wf(),
                n == self.docs@.len(),
                i <= n,
                out@.map_values(|d: StoredDocument| d@) == matching(
                    self@.subrange(0, i as int),
                    filter@,
                ),
                forall|k: int| 0 <= k < out@.len() ==> (#[trigger] out@[k]).wf(),
            decreases n - i,
        {
            let ghost prefix = self@.subrange(0, i as int);
            let ghost prefix1 = self@.subrange(0, i + 1);
            proof {
                assert(prefix1.drop_last() =~= prefix);
                assert(prefix1.last() == self@[i as int]);
                assert(self@[i as int] == self.docs@[i as int]@);
                assert(self.docs@[i as int].wf());
            }
            let d = &self.docs[i];
            if d.doc.matches(filter) {
                let ghost out_pre = out@;
                out.push(d.clone());
                proof {
                    assert(out@.drop_last() =~= out_pre);
                    assert(out@.map_values(|d: StoredDocument| d@) =~= out_pre.map_values(
                        |d: StoredDocument| d@,
                    ).push(self@[i as int]));
                    assert(out@.map_values(|d: StoredDocument| d@) =~= matching(prefix1, filter@));
                }
            } else {
                proof {
                    assert(out@.map_values(|d: StoredDocument| d@) =~= matching(prefix1, filter@));
                }
            }
            i = i + 1;
        }
        proof {
            assert(self@.subrange(0, n as int) =~= self@);
        }
        out
    }

    /// How many documents match a structural filter, without materializing
    /// them.
    pub fn count_documents(&self, filter: &Document) -> (r: usize)
        requires
            self.wf(),
            filter.wf(),
        ensures
            r == matching(self@, filter@).len(),
    {
        let n = self.docs.len();
        let mut count: usize = 0;
        let mut i: usize = 0;
        while i < n
            invariant
                self.wf(),
                filter.wf(),
                n == self.docs@.len(),
                i <= n,
                count == matching(self@.subrange(0, i as int), filter@).len(),
                count <= i,
            decreases n - i,
        {
            let ghost prefix = self@.subrange(0, i as int);
            let ghost prefix1 = self@.subrange(0, i + 1);
            proof {
                assert(prefix1.drop_last() =~= prefix);
                assert(prefix1.last() == self@[i as int]);
                assert(self@[i as int] == self.docs@[i as int]@);
                assert(self.docs@[i as int].wf());
            }
            if self.docs[i].doc.matches(filter) {
                count = count + 1;
            }
            i = i + 1;
        }
        proof {
            assert(self@.subrange(0, n as int) =~= self@);
        }
        count
    }

    /// Insert a document; the store assigns and returns a fresh identifier.
    /// Fails only when the identifier space is exhausted, which counts as a
    /// write failure.
    pub fn insert_one(&mut self, doc: &Document) -> (r: Result<ObjectId, ServiceError>)
        requires
            old(self).wf(),
            doc.wf(),
        ensures
            final (self).wf(),
            r is Ok <==> old(self).fresh_ids_left(),
            r matches Ok(id) ==> {
                &&& id.wf()
                &&& !contains_id(old(self)@, id@)
                &&& final (self)@ == old(self)@.push(EntryModel { id: id@, doc: doc@ })
            },
            r is Err ==> *final (self) == *old(self),
            r matches Err(e) ==> e is DatabaseError,
    {
        if self.next_id >= 0xffff_ffff_ffff_ffffu64 {
            return Err(
                ServiceError::DatabaseError("identifier space exhausted".to_owned()),
            );
        }
        let id = ObjectId::from_u64(self.next_id);
        proof {
            if contains_id(self@, id@) {
                let k = choose|k: int| 0 <= k < self@.len() && (#[trigger] self@[k]).id == id@;
                assert(self@[k] == self.docs@[k]@);
                assert(self.docs@[k].id@ < self.next_id as int);
            }
        }
        let ghost docs_pre = self.docs@;
        let stored = StoredDocument { id, doc: doc.clone() };
        self.docs.push(stored);
        self.next_id = self.next_id + 1;
        proof {
            assert(self.docs@.drop_last() =~= docs_pre);
            assert(self@ =~= old(self)@.push(EntryModel { id: id@, doc: doc@ }));
            assert forall|i: int| 0 <= i < self.docs@.len() implies (
            #[trigger] self.docs@[i]).wf() by {
                if i < self.docs@.len() - 1 {
                    assert(self.docs@[i] == docs_pre[i]);
                }
            }
            assert forall|i: int| 0 <= i < self.docs@.len() implies (#[trigger] self.docs@[i]).id@
                < self.next_id as int by {
                if i < self.docs@.len() - 1 {
                    assert(self.docs@[i] == docs_pre[i]);
                }
            }
            assert forall|i: int, j: int| 0 <= i < j < self@.len() implies (#[trigger] self@[i]).id
                != (#[trigger] self@[j]).id by {
                assert(self@[i] == self.docs@[i]@);
                assert(self@[j] == self.docs@[j]@);
                if j < self@.len() - 1 {
                    assert(self.docs@[i] == docs_pre[i]);
                    assert(self.docs@[j] == docs_pre[j]);
                    assert(old(self)@[i].id != old(self)@[j].id);
                } else {
                    assert(self.docs@[i] == docs_pre[i]);
                    assert(docs_pre[i].id@ < old(self).next_id as int);
                }
            }
        }
        Ok(id)
    }

    /// Merge a patch into the document stored under an identifier.  Returns
    /// whether a document matched; on a miss the collection is unchanged.
    pub fn update_one(&mut self, id: &ObjectId, patch: &Document) -> (r: bool)
        requires
            old(self).wf(),
            patch.wf(),
        ensures
            final (self).wf(),
            r == contains_id(old(self)@, id@),
            r ==> final (self)@ == old(self)@.update(
                idx_of(old(self)@, id@),
                EntryModel {
                    id: id@,
                    doc: old(self)@[idx_of(old(self)@, id@)].doc.union_prefer_right(patch@),
                },
            ),
            !r ==> *final (self) == *old(self),
    {
        let n = self.docs.len();
        let mut i: usize = 0;
        while i < n
            invariant
                self == old(self),
                self.wf(),
                patch.wf(),
                n == self.docs@.len(),
                i <= n,
                forall|j: int| 0 <= j < i ==> (#[trigger] self@[j]).id != id@,
            decreases n - i,
        {
            if self.docs[i].id.equals(id) {
                proof {
                    assert(self@[i as int] == self.docs@[i as int]@);
                    assert(self@[i as int].id == id@);
                    assert(contains_id(self@, id@));
                    let k = idx_of(self@, id@);
                    assert(0 <= k < self@.len() && self@[k].id == id@);
                    if k != i as int {
                        assert(false);
                    }
                    assert(self.docs@[i as int].wf());
                }
                let ghost docs_pre = self.docs@;
                let entry_id = self.docs[i].id;
                let mut doc = self.docs[i].doc.clone();
                doc.merge(patch);
                self.docs[i] = StoredDocument { id: entry_id, doc };
                proof {
                    assert(self@ =~= old(self)@.update(
                        i as int,
                        EntryModel {
                            id: id@,
                            doc: old(self)@[i as int].doc.union_prefer_right(patch@),
                        },
                    ));
                    assert forall|p: int| 0 <= p < self.docs@.len() implies (
                    #[trigger] self.docs@[p]).wf() && (#[trigger] self.docs@[p]).id@
                        < self.next_id as int by {
                        if p != i as int {
                            assert(self.docs@[p] == docs_pre[p]);
                        } else {
                            assert(docs_pre[p].id@ < self.next_id as int);
                        }
                    }
                    assert forall|p: int, q: int| 0 <= p < q < self@.len() implies (
                    #[trigger] self@[p]).id != (#[trigger] self@[q]).id by {
                        assert(old(self)@[p].id == self@[p].id);
                        assert(old(self)@[q].id == self@[q].id);
                    }
                }
                return true;
            }
            proof {
                assert(self@[i as int] == self.docs@[i as int]@);
            }
            i = i + 1;
        }
        proof {
            if contains_id(self@, id@) {
                let k = choose|k: int| 0 <= k < self@.len() && (#[trigger] self@[k]).id == id@;
                assert(self@[k].id != id@);
            }
        }
        false
    }

    /// Remove the document stored under an identifier.  Returns whether a
    /// document was removed; on a miss the collection is unchanged.
    pub fn delete_one(&mut self, id: &ObjectId) -> (r: bool)
        requires
            old(self).wf(),
        ensures
            final (self).wf(),
            r == contains_id(old(self)@, id@),
            r ==> final (self)@ == old(self)@.remove(idx_of(old(self)@, id@)),
            !r ==> *final (self) == *old(self),
    {
        let n = self.docs.len();
        let mut i: usize = 0;
        while i < n
            invariant
                self == old(self),
                self.wf(),
                n == self.docs@.len(),
                i <= n,
                forall|j: int| 0 <= j < i ==> (#[trigger] self@[j]).id != id@,
            decreases n - i,
        {
            if self.docs[i].id.equals(id) {
                proof {
                    assert(self@[i as int] == self.docs@[i as int]@);
                    assert(self@[i as int].id == id@);
                    assert(contains_id(self@, id@));
                    let k = idx_of(self@, id@);
                    assert(0 <= k < self@.len() && self@[k].id == id@);
                    if k != i as int {
                        assert(false);
                    }
                }
                let ghost docs_pre = self.docs@;
                self.docs.remove(i);
                proof {
                    assert(self@ =~= old(self)@.remove(i as int));
                    assert forall|p: int| 0 <= p < self.docs@.len() implies (
                    #[trigger] self.docs@[p]).wf() && (#[trigger] self.docs@[p]).id@
                        < self.next_id as int by {
                        if p < i as int {
                            assert(self.docs@[p] == docs_pre[p]);
                        } else {
                            assert(self.docs@[p] == docs_pre[p + 1]);
                        }
                    }
                    assert forall|p: int, q: int| 0 <= p < q < self@.len() implies (
                    #[trigger] self@[p]).id != (#[trigger] self@[q]).id by {
                        let p0: int = if p < i as int {
                            p
                        } else {
                            p + 1
                        };
                        let q0: int = if q < i as int {
                            q
                        } else {
                            q + 1
                        };
                        assert(self.docs@[p] == docs_pre[p0]);
                        assert(self.docs@[q] == docs_pre[q0]);
                        assert(old(self)@[p0] == docs_pre[p0]@);
                        assert(old(self)@[q0] == docs_pre[q0]@);
                        assert(old(self)@[p0].id != old(self)@[q0].id);
                    }
                }
                return true;
            }
            proof {
                assert(self@[i as int] == self.docs@[i as int]@);
            }
            i = i + 1;
        }
        proof {
            if contains_id(self@, id@) {
                let k = choose|k: int| 0 <= k < self@.len() && (#[trigger] self@[k]).id == id@;
                assert(self@[k].id != id@);
            }
        }
        false
    }

    /// Remove every document matching a structural filter; returns how many
    /// were removed.  An unrestricted (empty) filter removes everything.
    pub fn delete_many(&mut self, filter: &Document) -> (r: usize)
        requires
            old(self).wf(),
            filter.wf(),
        ensures
            final (self).wf(),
            final (self)@ == rejecting(old(self)@, filter@),
            r == matching(old(self)@, filter@).len(),
    {
        let n = self.docs.len();
        let mut kept: Vec<StoredDocument> = Vec::new();
        let mut i: usize = 0;
        proof {
            assert(kept@.map_values(|d: StoredDocument| d@) =~= rejecting(
                self@.subrange(0, 0),
                filter@,
            ));
        }
        while i < n
            invariant
                self == old(self),
                self.wf(),
                filter.wf(),
                n == self.docs@.len(),
                i <= n,
                kept@.map_values(|d: StoredDocument| d@) == rejecting(
                    self@.subrange(0, i as int),
                    filter@,
                ),
                kept@.len() <= i,
                forall|k: int|
                    0 <= k < kept@.len() ==> (#[trigger] kept@[k]).wf() && kept@[k].id@
                        < self.next_id as int,
            decreases n - i,
        {
            let ghost prefix = self@.subrange(0, i as int);
            let ghost prefix1 = self@.subrange(0, i + 1);
            proof {
                assert(prefix1.drop_last() =~= prefix);
                assert(prefix1.last() == self@[i as int]);
                assert(self@[i as int] == self.docs@[i as int]@);
                assert(self.docs@[i as int].wf());
            }
            let d = &self.docs[i];
            if !d.doc.matches(filter) {
                let ghost kept_pre = kept@;
                kept.push(d.clone());
                proof {
                    assert(kept@.drop_last() =~= kept_pre);
                    assert(kept@.map_values(|d: StoredDocument| d@) =~= kept_pre.map_values(
                        |d: StoredDocument| d@,
                    ).push(self@[i as int]));
                    assert(kept@.map_values(|d: StoredDocument| d@) =~= rejecting(
                        prefix1,
                        filter@,
                    ));
                    assert forall|k: int| 0 <= k < kept@.len() implies (#[trigger] kept@[k]).wf()
                        && kept@[k].id@ < self.next_id as int by {
                        if k < kept@.len() - 1 {
                            assert(kept@[k] == kept_pre[k]);
                        } else {
                            assert(kept@[k].id == self.docs@[i as int].id);
                            assert(self.docs@[i as int].id@ < self.next_id as int);
                        }
                    }
                }
            } else {
                proof {
                    assert(kept@.map_values(|d: StoredDocument| d@) =~= rejecting(
                        prefix1,
                        filter@,
                    ));
                }
            }
            i = i + 1;
        }
        proof {
            assert(self@.subrange(0, n as int) =~= self@);
            lemma_matching_partition(self@, filter@);
        }
        let removed = n - kept.len();
        self.docs = kept;
        proof {
            assert(self@ =~= rejecting(old(self)@, filter@));
            lemma_rejecting_unique(old(self)@, filter@);
        }
        removed
    }
}

} // verus!
