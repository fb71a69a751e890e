//! The generic CRUD service: creation and mutation on top of the read
//! service, with the touch-the-timestamp write policy.
//!
//! `create` persists a document and returns it with its store-assigned
//! identifier — the post-write read-back provably succeeds, so the
//! consistency failure it would report can never arise.  `update` applies a
//! merge-patch and stamps `updated_at` in the same atomic store write.
//! `delete` and `delete_many` remove documents; deleting an absent
//! identifier reports `false`, never an error.

use crate::document::{Document, Value, ValueModel};
use crate::error::ServiceError;
use crate::object_id::{is_oid_str, oid_of, ObjectId};
use crate::store::{contains_id, idx_of, matching, rejecting, EntryModel, StoredDocument};
use crate::base_service::BaseService;
use vstd::prelude::*;

verus! {

/// A merge-patch with `updated_at` stamped to the write's timestamp, as
/// one atomic update document.
pub open spec fn stamp_updated(
    patch: Map<Seq<char>, ValueModel>,
    now: int,
) -> Map<Seq<char>, ValueModel> {
    patch.insert("updated_at"@, ValueModel::Int(now))
}

/// The fields of an entry after a merge-patch stamped at `now`: patch
/// fields and `updated_at` win, every other field keeps its value.
pub open spec fn merged_fields(
    before: Map<Seq<char>, ValueModel>,
    patch: Map<Seq<char>, ValueModel>,
    now: int,
) -> Map<Seq<char>, ValueModel> {
    before.union_prefer_right(stamp_updated(patch, now))
}

/// Merge-patch semantics: an update changes exactly the supplied fields
/// plus `updated_at`, which is stamped to the write's timestamp; every
/// other field keeps its pre-update value, and no field disappears.
pub proof fn lemma_merge_patch(
    before: Map<Seq<char>, ValueModel>,
    patch: Map<Seq<char>, ValueModel>,
    now: int,
)
    ensures
        merged_fields(before, patch, now).dom().contains("updated_at"@),
        merged_fields(before, patch, now)["updated_at"@] == ValueModel::Int(now),
        forall|k: Seq<char>|
            patch.dom().contains(k) && k != "updated_at"@ ==> merged_fields(
                before,
                patch,
                now,
            ).dom().contains(k) && merged_fields(before, patch, now)[k] == patch[k],
        forall|k: Seq<char>|
            before.dom().contains(k) && !patch.dom().contains(k) && k != "updated_at"@
                ==> merged_fields(before, patch, now).dom().contains(k) && merged_fields(
                before,
                patch,
                now,
            )[k] == before[k],
        forall|k: Seq<char>|
            merged_fields(before, patch, now).dom().contains(k) <==> (before.dom().contains(k)
                || patch.dom().contains(k) || k == "updated_at"@),
{
}

/// Generic create/update/delete on top of the read service.
#[derive(Debug)]
pub struct CrudService {
    pub base: BaseService,
}

impl View for CrudService {
    type V = Seq<EntryModel>;

    open spec fn view(&self) -> Seq<EntryModel> {
        self.base@
    }
}

impl CrudService {
    /// The underlying collection is well-formed.
    pub open spec fn wf(&self) -> bool {
        self.base.wf()
    }

    /// Whether the underlying store can still assign a fresh identifier.
    pub open spec fn fresh_ids_left(&self) -> bool {
        self.base.fresh_ids_left()
    }

    /// A service over an empty collection.
    pub fn new() -> (r: CrudService)
        ensures
            r.wf(),
            r.fresh_ids_left(),
            r@ == Seq::<EntryModel>::empty(),
    {
        CrudService { base: BaseService::new() }
    }

    /// Persist a document; the store assigns the identifier, and the
    /// stored entry is returned.  The post-write read-back cannot miss the
    /// just-written document, so the only failure is a store write failure
    /// (identifier exhaustion in this model).
    pub fn create(&mut self, data: &Document) -> (r: Result<StoredDocument, ServiceError>)
        requires
            old(self).wf(),
            data.wf(),
        ensures
            final (self).wf(),
            r is Ok <==> old(self).fresh_ids_left(),
            r matches Ok(sd) ==> {
                &&& sd.wf()
                &&& sd.doc@ == data@
                &&& !contains_id(old(self)@, sd.id@)
                &&& final (self)@ == old(self)@.push(EntryModel { id: sd.id@, doc: data@ })
            },
            r is Err ==> *final (self) == *old(self),
            r matches Err(e) ==> e is DatabaseError,
    {
        let id = match self.base.collection.insert_one(data) {
            Err(e) => {
                return Err(e);
            },
            Ok(id) => id,
        };
        proof {
            self.base.collection.lemma_wf_unique();
            assert(self@[self@.len() - 1].id == id@);
            assert(contains_id(self@, id@));
            let k = idx_of(self@, id@);
            assert(0 <= k < self@.len() && self@[k].id == id@);
            if k != self@.len() - 1 {
                assert(false);
            }
        }
        match self.base.collection.find_one(&id) {
            Some(doc) => Ok(StoredDocument { id, doc }),
            None => Err(
                ServiceError::InternalServerError(
                    "created document not found on read-back".to_owned(),
                ),
            ),
        }
    }

    /// Apply a merge-patch to the document under an identifier string,
    /// stamping `updated_at` to `now` in the same atomic write, and return
    /// the post-update entry.  A malformed identifier fails with
    /// `InvalidId` before any store access; a well-formed but absent one
    /// gives an empty result.
    pub fn update(&mut self, id: &str, data: &Document, now: i64) -> (r: Result<
        Option<StoredDocument>,
        ServiceError,
    >)
        requires
            old(self).wf(),
            data.wf(),
        ensures
            final (self).wf(),
            r is Ok <==> is_oid_str(id@),
            r matches Err(e) ==> e matches ServiceError::InvalidId(t) && t@ == id@ && *final (self)
                == *old(self),
            r matches Ok(o) ==> (o is Some <==> contains_id(old(self)@, oid_of(id@))),
            r matches Ok(None) ==> *final (self) == *old(self),
            r matches Ok(Some(sd)) ==> {
                &&& sd.wf()
                &&& sd.id@ == oid_of(id@)
                &&& sd.doc@ == merged_fields(
                    old(self)@[idx_of(old(self)@, oid_of(id@))].doc,
                    data@,
                    now as int,
                )
                &&& final (self)@ == old(self)@.update(
                    idx_of(old(self)@, oid_of(id@)),
                    EntryModel { id: oid_of(id@), doc: sd.doc@ },
                )
            },
    {
        let oid = match ObjectId::parse_str(id) {
            Err(e) => {
                return Err(e);
            },
            Ok(oid) => oid,
        };
        let mut update_doc = data.clone();
        update_doc.set("updated_at", Value::Int(now));
        let matched = self.base.collection.update_one(&oid, &update_doc);
        if !matched {
            return Ok(None);
        }
        let ghost k = idx_of(old(self)@, oid@);
        proof {
            self.base.collection.lemma_wf_unique();
            assert(0 <= k < old(self)@.len() && old(self)@[k].id == oid@);
            assert(self@[k].id == oid@);
            assert(contains_id(self@, oid@));
            let k2 = idx_of(self@, oid@);
            assert(0 <= k2 < self@.len() && self@[k2].id == oid@);
            if k2 != k {
                assert(false);
            }
        }
        match self.base.collection.find_one(&oid) {
            Some(doc) => Ok(Some(StoredDocument { id: oid, doc })),
            None => Err(
                ServiceError::InternalServerError(
                    "updated document not found on read-back".to_owned(),
                ),
            ),
        }
    }

    /// Remove the document under an identifier string.  Returns `true` iff
    /// exactly one document was removed; an absent identifier gives
    /// `false`, never an error.  A malformed identifier fails with
    /// `InvalidId` before any store access.
    pub fn delete(&mut self, id: &str) -> (r: Result<bool, ServiceError>)
        requires
            old(self).wf(),
        ensures
            final (self).wf(),
            r is Ok <==> is_oid_str(id@),
            r matches Err(e) ==> e matches ServiceError::InvalidId(t) && t@ == id@ && *final (self)
                == *old(self),
            r matches Ok(b) ==> b == contains_id(old(self)@, oid_of(id@)),
            r matches Ok(b) && b ==> final (self)@ == old(self)@.remove(
                idx_of(old(self)@, oid_of(id@)),
            ),
            r matches Ok(b) && !b ==> *final (self) == *old(self),
    {
        let oid = match ObjectId::parse_str(id) {
            Err(e) => {
                return Err(e);
            },
            Ok(oid) => oid,
        };
        Ok(self.base.collection.delete_one(&oid))
    }

    /// Remove every document matching a structural filter; returns how
    /// many were removed.  The filter is unrestricted: an empty filter
    /// removes the whole collection.
    pub fn delete_many(&mut self, filter: &Document) -> (r: Result<u64, ServiceError>)
        requires
            old(self).wf(),
            filter.wf(),
        ensures
            final (self).wf(),
            r matches Ok(c) && c == matching(old(self)@, filter@).len(),
            final (self)@ == rejecting(old(self)@, filter@),
    {
        let c = self.base.collection.delete_many(filter);
        Ok(c as u64)
    }
}

} // verus!
