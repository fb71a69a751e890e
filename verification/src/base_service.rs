//! The generic read service: uniform read access over a document
//! collection.
//!
//! `find_by_id` rejects malformed identifiers before touching the store,
//! `find_many` returns the matching entries of a window described by an
//! optional limit and skip, and `count` counts matches without
//! materializing them.

use crate::document::Document;
use crate::error::ServiceError;
use crate::object_id::{is_oid_str, oid_of, ObjectId};
use crate::store::{contains_id, lookup, matching, Collection, EntryModel, StoredDocument};
use vstd::prelude::*;

verus! {

/// How many leading matches an optional skip discards.
pub open spec fn skip_count(skip: Option<i64>) -> int {
    match skip {
        None => 0,
        Some(k) => k as int,
    }
}

/// The window of a match sequence described by an optional limit and skip:
/// drop the first `skip` entries, then keep at most `limit`.
pub open spec fn window(s: Seq<EntryModel>, limit: Option<i64>, skip: Option<i64>) -> Seq<
    EntryModel,
> {
    let start = if skip_count(skip) <= s.len() {
        skip_count(skip)
    } else {
        s.len() as int
    };
    let end = match limit {
        None => s.len() as int,
        Some(l) => if start + l <= s.len() {
            start + l
        } else {
            s.len() as int
        },
    };
    s.subrange(start, end)
}

/// Count and find agree: for every filter, the number `count` reports
/// equals the length of the result of `find_many` with no limit and no
/// skip.
pub proof fn lemma_count_find_consistency(s: Seq<EntryModel>, filter: Map<Seq<char>, crate::document::ValueModel>)
    ensures
        window(matching(s, filter), None, None).len() == matching(s, filter).len(),
{
    assert(window(matching(s, filter), None, None) =~= matching(s, filter));
}

/// Generic read access over one document collection.
#[derive(Debug)]
pub struct BaseService {
    pub collection: Collection,
}

impl View for BaseService {
    type V = Seq<EntryModel>;

    open spec fn view(&self) -> Seq<EntryModel> {
        self.collection@
    }
}

impl BaseService {
    /// The underlying collection is well-formed.
    pub open spec fn wf(&self) -> bool {
        self.collection.wf()
    }

    /// Whether the underlying store can still assign a fresh identifier.
    pub open spec fn fresh_ids_left(&self) -> bool {
        self.collection.fresh_ids_left()
    }

    /// A service over an empty collection.
    pub fn new() -> (r: BaseService)
        ensures
            r.wf(),
            r.fresh_ids_left(),
            r@ == Seq::<EntryModel>::empty(),
    {
        BaseService { collection: Collection::new() }
    }

    /// The entry stored under an identifier string.  A malformed string
    /// fails with `InvalidId` before any store access; a well-formed but
    /// absent identifier gives an empty result, not an error.
    pub fn find_by_id(&self, id: &str) -> (r: Result<Option<StoredDocument>, ServiceError>)
        requires
            self.wf(),
        ensures
            r is Ok <==> is_oid_str(id@),
            r matches Err(e) ==> e matches ServiceError::InvalidId(t) && t@ == id@,
            r matches Ok(o) ==> (o is Some <==> contains_id(self@, oid_of(id@))),
            r matches Ok(Some(sd)) ==> sd.wf() && sd.id@ == oid_of(id@) && lookup(
                self@,
                oid_of(id@),
            ) == Some(sd.doc@),
    {
        let oid = match ObjectId::parse_str(id) {
            Err(e) => {
                return Err(e);
            },
            Ok(oid) => oid,
        };
        match self.collection.find_one(&oid) {
            None => Ok(None),
            Some(doc) => Ok(Some(StoredDocument { id: oid, doc })),
        }
    }

    /// The entries matching a structural filter, within the window
    /// described by an optional limit and skip, in store order.
    pub fn find_many(&self, filter: &Document, limit: Option<i64>, skip: Option<i64>) -> (r: Result<
        Vec<StoredDocument>,
        ServiceError,
    >)
        requires
            self.wf(),
            filter.wf(),
            limit matches Some(l) ==> l >= 0,
            skip matches Some(k) ==> k >= 0,
        ensures
            r is Ok,
            r matches Ok(v) ==> {
                &&& v@.map_values(|d: StoredDocument| d@) == window(
                    matching(self@, filter@),
                    limit,
                    skip,
                )
                &&& forall|i: int| 0 <= i < v@.len() ==> (#[trigger] v@[i]).wf()
            },
    {
        let all = self.collection.find(filter);
        let ghost m = matching(self@, filter@);
        proof {
            assert(all@.len() == m.len());
        }
        let start: usize = match skip {
            None => 0,
            Some(k) => {
                if (k as u64) >= (all.len() as u64) {
                    all.len()
                } else {
                    k as usize
                }
            },
        };
        let remaining = all.len() - start;
        let take: usize = match limit {
            None => remaining,
            Some(l) => {
                if (l as u64) >= (remaining as u64) {
                    remaining
                } else {
                    l as usize
                }
            },
        };
        let end = start + take;
        proof {
            assert(window(m, limit, skip) == m.subrange(start as int, end as int));
        }
        let mut out: Vec<StoredDocument> = Vec::new();
        let mut i: usize = start;
        proof {
            assert(out@.map_values(|d: StoredDocument| d@) =~= m.subrange(
                start as int,
                start as int,
            ));
        }
        while i < end
            invariant
                start <= i <= end <= all@.len(),
                all@.map_values(|d: StoredDocument| d@) == m,
                m.len() == all@.len(),
                forall|k: int| 0 <= k < all@.len() ==> (#[trigger] all@[k]).wf(),
                out@.map_values(|d: StoredDocument| d@) == m.subrange(start as int, i as int),
                forall|k: int| 0 <= k < out@.len() ==> (#[trigger] out@[k]).wf(),
            decreases end - i,
        {
            let ghost out_pre = out@;
            out.push(all[i].clone());
            proof {
                assert(all@[i as int]@ == m[i as int]);
                assert(out@.drop_last() =~= out_pre);
                assert(m.subrange(start as int, i + 1).drop_last() =~= m.subrange(
                    start as int,
                    i as int,
                ));
                assert(out@.map_values(|d: StoredDocument| d@) =~= out_pre.map_values(
                    |d: StoredDocument| d@,
                ).push(m[i as int]));
                assert(out@.map_values(|d: StoredDocument| d@) =~= m.subrange(start as int, i + 1));
            }
            i = i + 1;
        }
        Ok(out)
    }

    /// How many documents match a structural filter.  The count is taken
    /// without materializing the matching set.
    pub fn count(&self, filter: &Document) -> (r: Result<u64, ServiceError>)
        requires
            self.wf(),
            filter.wf(),
        ensures
            r matches Ok(c) && c == matching(self@, filter@).len(),
    {
        let c = self.collection.count_documents(filter);
        Ok(c as u64)
    }
}

} // verus!
