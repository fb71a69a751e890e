//! The user entity: its typed shape, its construction defaults, and the
//! verified codec between the entity and its stored document.
//!
//! Decoding is strict: a stored document whose fields do not carry the
//! entity's shape (a name that is not a string, an age out of range) is a
//! decode failure, surfaced by the services as a storage error rather than
//! silently dropped.

use crate::document::{Document, Value, ValueModel};
use crate::error::ServiceError;
use crate::object_id::ObjectId;
use vstd::prelude::*;

verus! {

/// The status value a freshly constructed entity carries ("active").
pub fn default_status() -> (r: i32)
    ensures
        r == 1,
{
    1
}

/// The mathematical value of a user entity.
#[verifier::ext_equal]
pub ghost struct UserModel {
    pub id: Option<int>,
    pub name: Seq<char>,
    pub email: Seq<char>,
    pub age: Option<int>,
    pub created_at: int,
    pub updated_at: int,
    pub status: int,
}

/// A user entity.  The identifier is absent before first persistence and
/// assigned by the store on creation; `created_at` and `updated_at` are
/// set at construction, and `updated_at` is touched on every mutation.
#[derive(Debug, PartialEq)]
pub struct User {
    pub id: Option<ObjectId>,
    pub name: String,
    pub email: String,
    pub age: Option<i32>,
    pub created_at: i64,
    pub updated_at: i64,
    pub status: i32,
}

impl View for User {
    type V = UserModel;

    open spec fn view(&self) -> UserModel {
        UserModel {
            id: match self.id {
                None => None,
                Some(oid) => Some(oid@),
            },
            name: self.name@,
            email: self.email@,
            age: match self.age {
                None => None,
                Some(a) => Some(a as int),
            },
            created_at: self.created_at as int,
            updated_at: self.updated_at as int,
            status: self.status as int,
        }
    }
}

impl Clone for User {
    fn clone(&self) -> (r: Self)
        ensures
            r@ == self@,
    {
        User {
            id: self.id,
            name: self.name.clone(),
            email: self.email.clone(),
            age: self.age,
            created_at: self.created_at,
            updated_at: self.updated_at,
            status: self.status,
        }
    }
}

impl User {
    /// Construct a user without an identifier: both timestamps are set to
    /// the construction time and the status to its default.
    pub fn new(name: String, email: String, age: Option<i32>, now: i64) -> (r: User)
        ensures
            r@.id is None,
            r@.name == name@,
            r@.email == email@,
            r@.age == (match age {
                None => None::<int>,
                Some(a) => Some(a as int),
            }),
            r@.created_at == now as int,
            r@.updated_at == now as int,
            r@.status == 1,
    {
        User {
            id: None,
            name,
            email,
            age,
            created_at: now,
            updated_at: now,
            status: default_status(),
        }
    }
}

/// The stored fields of a user entity.
pub open spec fn user_fields(u: UserModel) -> Map<Seq<char>, ValueModel> {
    Map::<Seq<char>, ValueModel>::empty().insert("name"@, ValueModel::Str(u.name)).insert(
        "email"@,
        ValueModel::Str(u.email),
    ).insert(
        "age"@,
        match u.age {
            None => ValueModel::Null,
            Some(a) => ValueModel::Int(a),
        },
    ).insert("created_at"@, ValueModel::Int(u.created_at)).insert(
        "updated_at"@,
        ValueModel::Int(u.updated_at),
    ).insert("status"@, ValueModel::Int(u.status))
}

/// The entity a stored document decodes to under a given identifier, if
/// its fields carry the entity's shape: `name` and `email` must be
/// strings, `age` may be absent, null or an integer in range, both
/// timestamps must be integers, and `status` may be absent (defaulting to
/// active) or an integer in range.
pub open spec fn decode_user(id: int, f: Map<Seq<char>, ValueModel>) -> Option<UserModel> {
    if f.dom().contains("name"@) && f.dom().contains("email"@) && f.dom().contains("created_at"@)
        && f.dom().contains("updated_at"@) {
        match (f["name"@], f["email"@], f["created_at"@], f["updated_at"@]) {
            (
                ValueModel::Str(name),
                ValueModel::Str(email),
                ValueModel::Int(created_at),
                ValueModel::Int(updated_at),
            ) => {
                if i64::MIN <= created_at <= i64::MAX && i64::MIN <= updated_at <= i64::MAX {
                    let age = if !f.dom().contains("age"@) {
                        Some(None::<int>)
                    } else {
                        match f["age"@] {
                            ValueModel::Null => Some(None::<int>),
                            ValueModel::Int(a) => if i32::MIN <= a <= i32::MAX {
                                Some(Some(a))
                            } else {
                                None
                            },
                            _ => None,
                        }
                    };
                    let status = if !f.dom().contains("status"@) {
                        Some(1int)
                    } else {
                        match f["status"@] {
                            ValueModel::Int(s) => if i32::MIN <= s <= i32::MAX {
                                Some(s)
                            } else {
                                None
                            },
                            _ => None,
                        }
                    };
                    match (age, status) {
                        (Some(age), Some(status)) => Some(
                            UserModel {
                                id: Some(id),
                                name,
                                email,
                                age,
                                created_at,
                                updated_at,
                                status,
                            },
                        ),
                        _ => None,
                    }
                } else {
                    None
                }
            },
            _ => None,
        }
    } else {
        None
    }
}

impl User {
    /// The document this entity stores: every entity field under its
    /// name, with an absent age stored as null.
    pub fn to_document(&self) -> (d: Document)
        ensures
            d.wf(),
            d@ == user_fields(self@),
    {
        let mut d = Document::new();
        d.set("name", Value::Str(self.name.clone()));
        d.set("email", Value::Str(self.email.clone()));
        match self.age {
            None => d.set("age", Value::Null),
            Some(a) => d.set("age", Value::Int(a as i64)),
        }
        d.set("created_at", Value::Int(self.created_at));
        d.set("updated_at", Value::Int(self.updated_at));
        d.set("status", Value::Int(self.status as i64));
        d
    }

    /// Decode the entity stored under an identifier.  A document that does
    /// not carry the entity's shape is a decode failure, reported as a
    /// storage error.
    pub fn from_document(id: ObjectId, doc: &Document) -> (r: Result<User, ServiceError>)
        requires
            doc.wf(),
        ensures
            r is Ok <==> decode_user(id@, doc@) is Some,
            r matches Ok(u) ==> decode_user(id@, doc@) == Some(u@),
            r matches Err(e) ==> e is DatabaseError,
    {
        let name = match doc.get("name") {
            Some(Value::Str(s)) => s.clone(),
            _ => {
                return Err(ServiceError::DatabaseError("user document: bad name".to_owned()));
            },
        };
        let email = match doc.get("email") {
            Some(Value::Str(s)) => s.clone(),
            _ => {
                return Err(ServiceError::DatabaseError("user document: bad email".to_owned()));
            },
        };
        let created_at = match doc.get("created_at") {
            Some(Value::Int(n)) => *n,
            _ => {
                return Err(
                    ServiceError::DatabaseError("user document: bad created_at".to_owned()),
                );
            },
        };
        let updated_at = match doc.get("updated_at") {
            Some(Value::Int(n)) => *n,
            _ => {
                return Err(
                    ServiceError::DatabaseError("user document: bad updated_at".to_owned()),
                );
            },
        };
        let age = match doc.get("age") {
            None => None,
            Some(Value::Null) => None,
            Some(Value::Int(n)) => {
                if *n < i32::MIN as i64 || *n > i32::MAX as i64 {
                    return Err(
                        ServiceError::DatabaseError("user document: bad age".to_owned()),
                    );
                }
                Some(*n as i32)
            },
            _ => {
                return Err(ServiceError::DatabaseError("user document: bad age".to_owned()));
            },
        };
        let status = match doc.get("status") {
            None => default_status(),
            Some(Value::Int(n)) => {
                if *n < i32::MIN as i64 || *n > i32::MAX as i64 {
                    return Err(
                        ServiceError::DatabaseError("user document: bad status".to_owned()),
                    );
                }
                *n as i32
            },
            _ => {
                return Err(ServiceError::DatabaseError("user document: bad status".to_owned()));
            },
        };
        Ok(User { id: Some(id), name, email, age, created_at, updated_at, status })
    }
}

/// Encoding an entity and decoding it under its identifier returns the
/// entity unchanged, provided its fields are in machine range.
pub proof fn lemma_user_codec_round_trip(id: int, u: UserModel)
    requires
        u.id == Some(id),
        i64::MIN <= u.created_at <= i64::MAX,
        i64::MIN <= u.updated_at <= i64::MAX,
        u.age matches Some(a) ==> i32::MIN <= a <= i32::MAX,
        i32::MIN <= u.status <= i32::MAX,
    ensures
        decode_user(id, user_fields(u)) == Some(u),
{
    let f = user_fields(u);
    reveal_strlit("name");
    reveal_strlit("email");
    reveal_strlit("age");
    reveal_strlit("created_at");
    reveal_strlit("updated_at");
    reveal_strlit("status");
    assert("name"@.len() == 4 && "email"@.len() == 5 && "age"@.len() == 3 && "created_at"@.len()
        == 10 && "updated_at"@.len() == 10 && "status"@.len() == 6);
    assert("created_at"@[0] == 'c' && "updated_at"@[0] == 'u');
    assert("created_at"@ != "updated_at"@);
    assert(f.dom().contains("name"@));
    assert(f.dom().contains("email"@));
    assert(f.dom().contains("age"@));
    assert(f.dom().contains("created_at"@));
    assert(f.dom().contains("updated_at"@));
    assert(f.dom().contains("status"@));
    assert(f["name"@] == ValueModel::Str(u.name));
    assert(f["email"@] == ValueModel::Str(u.email));
    assert(f["age"@] == (match u.age {
        None => ValueModel::Null,
        Some(a) => ValueModel::Int(a),
    }));
    assert(f["created_at"@] == ValueModel::Int(u.created_at));
    assert(f["updated_at"@] == ValueModel::Int(u.updated_at));
    assert(f["status"@] == ValueModel::Int(u.status));
    assert(decode_user(id, f) == Some(u));
}

} // verus!
