//! The user service: the generic CRUD contract bound to the user entity,
//! plus entity-specific lookups and validation.
//!
//! Every read decodes stored documents through the strict codec; a decode
//! failure fails the whole call as a storage error instead of silently
//! dropping the bad document.  Entity invariants — a non-empty email, a
//! non-negative age — are enforced here with `ValidationError` before any
//! write is delegated.

use crate::base_service::window;
use crate::crud_service::{merged_fields, CrudService};
use crate::document::{Document, Value, ValueModel};
use crate::error::ServiceError;
use crate::object_id::{is_oid_str, oid_of};
use crate::store::{contains_id, idx_of, matching, rejecting, EntryModel};
use crate::user_model::{decode_user, user_fields, User, UserModel};
use vstd::prelude::*;

verus! {

/// The entities a sequence of stored entries decodes to, if every entry
/// decodes.
pub open spec fn decode_entries(s: Seq<EntryModel>) -> Option<Seq<UserModel>>
    decreases s.len(),
{
    if s.len() == 0 {
        Some(Seq::empty())
    } else {
        match (decode_entries(s.drop_last()), decode_user(s.last().id, s.last().doc)) {
            (Some(us), Some(u)) => Some(us.push(u)),
            _ => None,
        }
    }
}

/// A whole sequence decodes exactly when each entry decodes, and then
/// element by element.
pub proof fn lemma_decode_entries(s: Seq<EntryModel>)
    ensures
        decode_entries(s) is Some <==> (forall|i: int|
            0 <= i < s.len() ==> decode_user((#[trigger] s[i]).id, s[i].doc) is Some),
        decode_entries(s) matches Some(us) ==> us.len() == s.len() && (forall|i: int|
            0 <= i < s.len() ==> Some(us[i]) == decode_user((#[trigger] s[i]).id, s[i].doc)),
    decreases s.len(),
{
    if s.len() > 0 {
        let pre = s.drop_last();
        lemma_decode_entries(pre);
        if decode_entries(s) is Some {
            assert forall|i: int| 0 <= i < s.len() implies decode_user(
                (#[trigger] s[i]).id,
                s[i].doc,
            ) is Some by {
                if i < s.len() - 1 {
                    assert(pre[i] == s[i]);
                }
            }
            let us = decode_entries(s).unwrap();
            let us0 = decode_entries(pre).unwrap();
            assert forall|i: int| 0 <= i < s.len() implies Some(us[i]) == decode_user(
                (#[trigger] s[i]).id,
                s[i].doc,
            ) by {
                if i < s.len() - 1 {
                    assert(pre[i] == s[i]);
                    assert(us[i] == us0[i]);
                }
            }
        }
        if forall|i: int| 0 <= i < s.len() ==> decode_user((#[trigger] s[i]).id, s[i].doc) is Some {
            assert forall|i: int| 0 <= i < pre.len() implies decode_user(
                (#[trigger] pre[i]).id,
                pre[i].doc,
            ) is Some by {
                assert(pre[i] == s[i]);
            }
            assert(decode_entries(pre) is Some);
            assert(decode_user(s[s.len() - 1].id, s[s.len() - 1].doc) is Some);
            assert(decode_entries(s) is Some);
        }
    }
}

/// Round trip: an entity persisted by `create_user` is found again under
/// the identifier the store assigned, decodes to the very same entity, and
/// carries equal creation and update timestamps.  The hypotheses are
/// exactly what `create_user` ensures about the entity it returns and the
/// entry it appends; the conclusions are what `find_by_id` then reads.
pub proof fn lemma_create_find_round_trip(s: Seq<EntryModel>, u: UserModel, oid: int)
    requires
        !contains_id(s, oid),
        u.id == Some(oid),
        u.created_at == u.updated_at,
        i64::MIN <= u.created_at <= i64::MAX,
        i64::MIN <= u.updated_at <= i64::MAX,
        u.age matches Some(a) ==> i32::MIN <= a <= i32::MAX,
        i32::MIN <= u.status <= i32::MAX,
    ensures
        contains_id(s.push(EntryModel { id: oid, doc: user_fields(u) }), oid),
        crate::store::lookup(s.push(EntryModel { id: oid, doc: user_fields(u) }), oid) == Some(
            user_fields(u),
        ),
        decode_user(oid, user_fields(u)) == Some(u),
{
    crate::store::lemma_lookup_push(s, EntryModel { id: oid, doc: user_fields(u) });
    crate::user_model::lemma_user_codec_round_trip(oid, u);
}

/// The structural filter `find_by_email` queries with: equality on the
/// email field.
pub open spec fn email_filter(email: Seq<char>) -> Map<Seq<char>, ValueModel> {
    Map::<Seq<char>, ValueModel>::empty().insert("email"@, ValueModel::Str(email))
}

/// The merge-patch `update_user` builds from its optional arguments.
pub open spec fn user_patch(
    name: Option<Seq<char>>,
    email: Option<Seq<char>>,
    age: Option<int>,
) -> Map<Seq<char>, ValueModel> {
    let m = Map::<Seq<char>, ValueModel>::empty();
    let m = match name {
        Some(n) => m.insert("name"@, ValueModel::Str(n)),
        None => m,
    };
    let m = match email {
        Some(e) => m.insert("email"@, ValueModel::Str(e)),
        None => m,
    };
    match age {
        Some(a) => m.insert("age"@, ValueModel::Int(a)),
        None => m,
    }
}

/// The entity invariants enforced before a create: a non-empty email and
/// a non-negative age.
pub open spec fn valid_new_user(email: Seq<char>, age: Option<int>) -> bool {
    email.len() > 0 && (age matches Some(a) ==> a >= 0)
}

/// The entity invariants enforced on the fields an update supplies.
pub open spec fn valid_user_patch(email: Option<Seq<char>>, age: Option<int>) -> bool {
    (email matches Some(e) ==> e.len() > 0) && (age matches Some(a) ==> a >= 0)
}

/// Check the entity invariants a create must satisfy: a non-empty email
/// and a non-negative age.  This is the validation decision the service
/// applies before persisting, available to any caller that fronts another
/// store.
pub fn validate_new_user(email: &str, age: Option<i32>) -> (r: Result<(), ServiceError>)
    ensures
        r is Ok <==> valid_new_user(email@, match age {
            None => None::<int>,
            Some(a) => Some(a as int),
        }),
        r matches Err(e) ==> e is ValidationError,
{
    if email.is_empty() {
        return Err(ServiceError::ValidationError("email must not be empty".to_owned()));
    }
    if let Some(a) = age {
        if a < 0 {
            return Err(ServiceError::ValidationError("age must not be negative".to_owned()));
        }
    }
    Ok(())
}

/// The user service: the generic CRUD service bound to the user entity.
#[derive(Debug)]
pub struct UserService {
    pub crud: CrudService,
}

impl View for UserService {
    type V = Seq<EntryModel>;

    open spec fn view(&self) -> Seq<EntryModel> {
        self.crud@
    }
}

impl UserService {
    /// The underlying collection is well-formed.
    pub open spec fn wf(&self) -> bool {
        self.crud.wf()
    }

    /// Whether the underlying store can still assign a fresh identifier.
    pub open spec fn fresh_ids_left(&self) -> bool {
        self.crud.fresh_ids_left()
    }

    /// A service over an empty collection.
    pub fn new() -> (r: UserService)
        ensures
            r.wf(),
            r.fresh_ids_left(),
            r@ == Seq::<EntryModel>::empty(),
    {
        UserService { crud: CrudService::new() }
    }

    /// Validate and persist a new user.  On success the returned entity
    /// carries the store-assigned identifier, equal creation and update
    /// timestamps, and the default status.
    pub fn create_user(&mut self, name: String, email: String, age: Option<i32>, now: i64) -> (r:
        Result<User, ServiceError>)
        requires
            old(self).wf(),
        ensures
            final (self).wf(),
            !valid_new_user(email@, match age {
                None => None::<int>,
                Some(a) => Some(a as int),
            }) ==> (r matches Err(e) && e is ValidationError && *final (self) == *old(self)),
            valid_new_user(email@, match age {
                None => None::<int>,
                Some(a) => Some(a as int),
            }) && !old(self).fresh_ids_left() ==> (r matches Err(e) && e is DatabaseError && *final (
            self) == *old(self)),
            valid_new_user(email@, match age {
                None => None::<int>,
                Some(a) => Some(a as int),
            }) && old(self).fresh_ids_left() ==> (r matches Ok(u) && u@.id matches Some(oid) && {
                &&& !contains_id(old(self)@, oid)
                &&& u@.name == name@
                &&& u@.email == email@
                &&& u@.age == (match age {
                    None => None::<int>,
                    Some(a) => Some(a as int),
                })
                &&& u@.created_at == now as int
                &&& u@.updated_at == now as int
                &&& u@.status == 1
                &&& final (self)@ == old(self)@.push(EntryModel { id: oid, doc: user_fields(u@) })
            }),
    {
        if let Err(e) = validate_new_user(email.as_str(), age) {
            return Err(e);
        }
        let user = User::new(name, email, age, now);
        let doc = user.to_document();
        match self.crud.create(&doc) {
            Err(e) => Err(e),
            Ok(sd) => {
                let mut created = user;
                created.id = Some(sd.id);
                proof {
                    assert(user_fields(created@) =~= user_fields(user@));
                }
                Ok(created)
            },
        }
    }

    /// The entity stored under an identifier string.  A malformed string
    /// fails with `InvalidId` before any store access; a well-formed but
    /// absent identifier gives an empty result; a stored document that
    /// does not decode fails the call as a storage error.
    pub fn find_by_id(&self, id: &str) -> (r: Result<Option<User>, ServiceError>)
        requires
            self.wf(),
        ensures
            !is_oid_str(id@) ==> (r matches Err(e) && e matches ServiceError::InvalidId(t) && t@
                == id@),
            is_oid_str(id@) && !contains_id(self@, oid_of(id@)) ==> r matches Ok(None),
            is_oid_str(id@) && contains_id(self@, oid_of(id@)) ==> {
                let f = self@[idx_of(self@, oid_of(id@))].doc;
                &&& (decode_user(oid_of(id@), f) matches Some(u) ==> r matches Ok(Some(ru)) && ru@
                    == u)
                &&& (decode_user(oid_of(id@), f) is None ==> (r matches Err(e)
                    && e is DatabaseError))
            },
    {
        match self.crud.base.find_by_id(id) {
            Err(e) => Err(e),
            Ok(None) => Ok(None),
            Ok(Some(sd)) => {
                match User::from_document(sd.id, &sd.doc) {
                    Err(e) => Err(e),
                    Ok(u) => Ok(Some(u)),
                }
            },
        }
    }

    /// The entities matching a structural filter within the window
    /// described by an optional limit and skip.  Any entry that does not
    /// decode fails the whole call as a storage error.
    pub fn find_many(&self, filter: &Document, limit: Option<i64>, skip: Option<i64>) -> (r: Result<
        Vec<User>,
        ServiceError,
    >)
        requires
            self.wf(),
            filter.wf(),
            limit matches Some(l) ==> l >= 0,
            skip matches Some(k) ==> k >= 0,
        ensures
            decode_entries(window(matching(self@, filter@), limit, skip)) matches Some(us) ==> (r
                matches Ok(v) && v@.map_values(|u: User| u@) == us),
            decode_entries(window(matching(self@, filter@), limit, skip)) is None ==> (r matches Err(
                e,
            ) && e is DatabaseError),
    {
        let ghost w = window(matching(self@, filter@), limit, skip);
        let docs = match self.crud.base.find_many(filter, limit, skip) {
            Err(e) => {
                return Err(e);
            },
            Ok(v) => v,
        };
        proof {
            lemma_decode_entries(w);
        }
        let n = docs.len();
        let mut users: Vec<User> = Vec::new();
        let mut i: usize = 0;
        while i < n
            invariant
                w == window(matching(self@, filter@), limit, skip),
                n == docs@.len(),
                i <= n,
                docs@.map_values(|d: crate::store::StoredDocument| d@) == w,
                w.len() == n,
                forall|k: int| 0 <= k < n ==> (#[trigger] docs@[k]).wf(),
                users@.len() == i,
                forall|k: int|
                    0 <= k < i ==> Some((#[trigger] users@[k])@) == decode_user(w[k].id, w[k].doc),
                decode_entries(w) is Some <==> (forall|k: int|
                    0 <= k < w.len() ==> decode_user((#[trigger] w[k]).id, w[k].doc) is Some),
                decode_entries(w) matches Some(us) ==> us.len() == w.len() && (forall|k: int|
                    0 <= k < w.len() ==> Some(us[k]) == decode_user(
                        (#[trigger] w[k]).id,
                        w[k].doc,
                    )),
            decreases n - i,
        {
            proof {
                assert(docs@[i as int]@ == w[i as int]);
            }
            match User::from_document(docs[i].id, &docs[i].doc) {
                Err(e) => {
                    proof {
                        assert(decode_user(w[i as int].id, w[i as int].doc) is None);
                        assert(!(forall|k: int|
                            0 <= k < w.len() ==> decode_user(
                                (#[trigger] w[k]).id,
                                w[k].doc,
                            ) is Some)) by {
                            assert(0 <= i < w.len() && !(decode_user(
                                w[i as int].id,
                                w[i as int].doc,
                            ) is Some));
                        }
                        assert(decode_entries(w) is None);
                    }
                    return Err(e);
                },
                Ok(u) => {
                    users.push(u);
                },
            }
            i = i + 1;
        }
        proof {
            assert forall|k: int| 0 <= k < w.len() implies decode_user(
                (#[trigger] w[k]).id,
                w[k].doc,
            ) is Some by {
                assert(Some(users@[k]@) == decode_user(w[k].id, w[k].doc));
            }
            assert(decode_entries(w) is Some);
            let us = decode_entries(w).unwrap();
            assert forall|k: int| 0 <= k < w.len() implies users@.map_values(|u: User| u@)[k]
                == us[k] by {
                assert(Some(users@[k]@) == decode_user(w[k].id, w[k].doc));
                assert(Some(us[k]) == decode_user(w[k].id, w[k].doc));
            }
            assert(users@.map_values(|u: User| u@) =~= us);
        }
        Ok(users)
    }

    /// Every entity in the collection.  Any entry that does not decode
    /// fails the whole call as a storage error.
    pub fn find_all(&self) -> (r: Result<Vec<User>, ServiceError>)
        requires
            self.wf(),
        ensures
            decode_entries(self@) matches Some(us) ==> (r matches Ok(v) && v@.map_values(
                |u: User| u@,
            ) == us),
            decode_entries(self@) is None ==> (r matches Err(e) && e is DatabaseError),
    {
        let filter = Document::new();
        proof {
            crate::store::lemma_matching_all(self@);
            assert(window(matching(self@, filter@), None, None) =~= self@);
        }
        self.find_many(&filter, None, None)
    }

    /// The first entity whose email equals the argument, queried through
    /// the generic find with an equality filter limited to one result.
    pub fn find_by_email(&self, email: &str) -> (r: Result<Option<User>, ServiceError>)
        requires
            self.wf(),
        ensures
            matching(self@, email_filter(email@)).len() == 0 ==> r matches Ok(None),
            matching(self@, email_filter(email@)).len() > 0 ==> {
                let e0 = matching(self@, email_filter(email@))[0];
                &&& (decode_user(e0.id, e0.doc) matches Some(u) ==> r matches Ok(Some(ru)) && ru@
                    == u)
                &&& (decode_user(e0.id, e0.doc) is None ==> (r matches Err(e)
                    && e is DatabaseError))
            },
    {
        let mut filter = Document::new();
        filter.set("email", Value::Str(email.to_owned()));
        let ghost m = matching(self@, email_filter(email@));
        let ghost w = window(m, Some(1), None);
        proof {
            assert(filter@ =~= email_filter(email@));
            if m.len() == 0 {
                assert(w =~= Seq::<EntryModel>::empty());
                assert(decode_entries(w) == Some(Seq::<UserModel>::empty()));
            } else {
                assert(w =~= seq![m[0]]);
                assert(w.drop_last() =~= Seq::<EntryModel>::empty());
                assert(w.last() == m[0]);
            }
        }
        let mut users = match self.find_many(&filter, Some(1), None) {
            Err(e) => {
                proof {
                    assert(m.len() > 0);
                    assert(w.len() == 1);
                    assert(w.drop_last() =~= Seq::<EntryModel>::empty());
                    assert(decode_entries(w.drop_last()) == Some(Seq::<UserModel>::empty()));
                    assert(w.last() == m[0]);
                    assert(decode_entries(w) is None);
                    assert(decode_user(m[0].id, m[0].doc) is None);
                }
                return Err(e);
            },
            Ok(v) => v,
        };
        if users.is_empty() {
            proof {
                if m.len() > 0 {
                    assert(decode_entries(w) matches Some(us) && us.len() == 1);
                    assert(users@.map_values(|u: User| u@).len() == 1);
                    assert(false);
                }
            }
            Ok(None)
        } else {
            proof {
                if m.len() == 0 {
                    assert(decode_entries(w) == Some(Seq::<UserModel>::empty()));
                    assert(users@.map_values(|u: User| u@).len() == 0);
                    assert(false);
                }
                assert(decode_entries(w) is Some);
                assert(w.len() == 1);
                assert(w.drop_last() =~= Seq::<EntryModel>::empty());
                assert(decode_entries(w.drop_last()) == Some(Seq::<UserModel>::empty()));
                assert(w.last() == m[0]);
                let us = decode_entries(w).unwrap();
                assert(us == Seq::<UserModel>::empty().push(
                    decode_user(w.last().id, w.last().doc).unwrap(),
                ));
                assert(us[0] == decode_user(m[0].id, m[0].doc).unwrap());
                assert(users@.map_values(|u: User| u@) == us);
                assert(users@[0]@ == us[0]);
            }
            let u = users.remove(0);
            Ok(Some(u))
        }
    }

    /// How many entities match a structural filter.
    pub fn count(&self, filter: &Document) -> (r: Result<u64, ServiceError>)
        requires
            self.wf(),
            filter.wf(),
        ensures
            r matches Ok(c) && c == matching(self@, filter@).len(),
    {
        self.crud.base.count(filter)
    }

    /// How many entities the collection holds: a count with an
    /// unrestricted filter.
    pub fn count_all(&self) -> (r: Result<u64, ServiceError>)
        requires
            self.wf(),
        ensures
            r matches Ok(c) && c == self@.len(),
    {
        let filter = Document::new();
        proof {
            crate::store::lemma_matching_all(self@);
            assert(filter@ =~= Map::<Seq<char>, ValueModel>::empty());
        }
        self.crud.base.count(&filter)
    }

    /// Apply a document-level merge-patch to the entity under an
    /// identifier string, stamping `updated_at`, and return the decoded
    /// post-update entity.
    pub fn update(&mut self, id: &str, data: &Document, now: i64) -> (r: Result<
        Option<User>,
        ServiceError,
    >)
        requires
            old(self).wf(),
            data.wf(),
        ensures
            final (self).wf(),
            !is_oid_str(id@) ==> (r matches Err(e) && e matches ServiceError::InvalidId(t) && t@
                == id@ && *final (self) == *old(self)),
            is_oid_str(id@) && !contains_id(old(self)@, oid_of(id@)) ==> (r matches Ok(None)
                && *final (self) == *old(self)),
            is_oid_str(id@) && contains_id(old(self)@, oid_of(id@)) ==> {
                let k = idx_of(old(self)@, oid_of(id@));
                let merged = merged_fields(old(self)@[k].doc, data@, now as int);
                &&& final (self)@ == old(self)@.update(
                    k,
                    EntryModel { id: oid_of(id@), doc: merged },
                )
                &&& (decode_user(oid_of(id@), merged) matches Some(u) ==> r matches Ok(Some(ru))
                    && ru@ == u)
                &&& (decode_user(oid_of(id@), merged) is None ==> (r matches Err(e)
                    && e is DatabaseError))
            },
    {
        match self.crud.update(id, data, now) {
            Err(e) => Err(e),
            Ok(None) => Ok(None),
            Ok(Some(sd)) => {
                match User::from_document(sd.id, &sd.doc) {
                    Err(e) => Err(e),
                    Ok(u) => Ok(Some(u)),
                }
            },
        }
    }

    /// Validate the supplied fields, build the merge-patch from them, and
    /// apply it to the entity under an identifier string.
    pub fn update_user(
        &mut self,
        id: &str,
        name: Option<String>,
        email: Option<String>,
        age: Option<i32>,
        now: i64,
    ) -> (r: Result<Option<User>, ServiceError>)
        requires
            old(self).wf(),
        ensures
            final (self).wf(),
            !valid_user_patch(
                match email {
                    None => None::<Seq<char>>,
                    Some(e) => Some(e@),
                },
                match age {
                    None => None::<int>,
                    Some(a) => Some(a as int),
                },
            ) ==> (r matches Err(e) && e is ValidationError && *final (self) == *old(self)),
            valid_user_patch(
                match email {
                    None => None::<Seq<char>>,
                    Some(e) => Some(e@),
                },
                match age {
                    None => None::<int>,
                    Some(a) => Some(a as int),
                },
            ) ==> {
                let patch = user_patch(
                    match name {
                        None => None::<Seq<char>>,
                        Some(n) => Some(n@),
                    },
                    match email {
                        None => None::<Seq<char>>,
                        Some(e) => Some(e@),
                    },
                    match age {
                        None => None::<int>,
                        Some(a) => Some(a as int),
                    },
                );
                &&& (!is_oid_str(id@) ==> (r matches Err(e) && e matches ServiceError::InvalidId(t)
                    && t@ == id@ && *final (self) == *old(self)))
                &&& (is_oid_str(id@) && !contains_id(old(self)@, oid_of(id@)) ==> (r matches Ok(
                    None,
                ) && *final (self) == *old(self)))
                &&& (is_oid_str(id@) && contains_id(old(self)@, oid_of(id@)) ==> {
                    let k = idx_of(old(self)@, oid_of(id@));
                    let merged = merged_fields(old(self)@[k].doc, patch, now as int);
                    &&& final (self)@ == old(self)@.update(
                        k,
                        EntryModel { id: oid_of(id@), doc: merged },
                    )
                    &&& (decode_user(oid_of(id@), merged) matches Some(u) ==> r matches Ok(Some(ru))
                        && ru@ == u)
                    &&& (decode_user(oid_of(id@), merged) is None ==> (r matches Err(e)
                        && e is DatabaseError))
                })
            },
    {
        if let Some(e) = &email {
            if e.as_str().is_empty() {
                return Err(ServiceError::ValidationError("email must not be empty".to_owned()));
            }
        }
        if let Some(a) = age {
            if a < 0 {
                return Err(
                    ServiceError::ValidationError("age must not be negative".to_owned()),
                );
            }
        }
        let mut patch = Document::new();
        if let Some(n) = name {
            patch.set("name", Value::Str(n));
        }
        if let Some(e) = email {
            patch.set("email", Value::Str(e));
        }
        if let Some(a) = age {
            patch.set("age", Value::Int(a as i64));
        }
        self.update(id, &patch, now)
    }

    /// Remove the entity under an identifier string.  Returns `true` iff
    /// exactly one entity was removed; an absent identifier gives `false`,
    /// never an error; a malformed one fails with `InvalidId` before any
    /// store access.
    pub fn delete(&mut self, id: &str) -> (r: Result<bool, ServiceError>)
        requires
            old(self).wf(),
        ensures
            final (self).wf(),
            r is Ok <==> is_oid_str(id@),
            r matches Err(e) ==> e matches ServiceError::InvalidId(t) && t@ == id@ && *final (self)
                == *old(self),
            r matches Ok(b) ==> b == contains_id(old(self)@, oid_of(id@)),
            r matches Ok(b) && b ==> final (self)@ == old(self)@.remove(
                idx_of(old(self)@, oid_of(id@)),
            ),
            r matches Ok(b) && !b ==> *final (self) == *old(self),
    {
        self.crud.delete(id)
    }

    /// Remove every entity matching a structural filter; returns how many
    /// were removed.
    pub fn delete_many(&mut self, filter: &Document) -> (r: Result<u64, ServiceError>)
        requires
            old(self).wf(),
            filter.wf(),
        ensures
            final (self).wf(),
            r matches Ok(c) && c == matching(old(self)@, filter@).len(),
            final (self)@ == rejecting(old(self)@, filter@),
    {
        self.crud.delete_many(filter)
    }
}

} // verus!
