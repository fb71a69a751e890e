//! Schema-flexible records: a document is a finite map from field names to
//! values, and the generic service layers treat entity-specific fields as
//! opaque content of such a map.
//!
//! A document's mathematical value is a `Map<Seq<char>, ValueModel>`; the
//! executable representation keeps one entry per name, so `get`, `set` and
//! `merge` are specified entirely over the map.

use vstd::prelude::*;
use vstd::string::*;

verus! {

/// The mathematical value of one document field.
pub ghost enum ValueModel {
    Null,
    Bool(bool),
    Int(int),
    Str(Seq<char>),
}

/// One field value: the scalar shapes the store can hold.
#[derive(Debug)]
pub enum Value {
    Null,
    Bool(bool),
    Int(i64),
    Str(String),
}

impl View for Value {
    type V = ValueModel;

    open spec fn view(&self) -> ValueModel {
        match self {
            Value::Null => ValueModel::Null,
            Value::Bool(b) => ValueModel::Bool(*b),
            Value::Int(n) => ValueModel::Int(*n as int),
            Value::Str(s) => ValueModel::Str(s@),
        }
    }
}

impl Clone for Value {
    fn clone(&self) -> (r: Self)
        ensures
            r == *self,
    {
        match self {
            Value::Null => Value::Null,
            Value::Bool(b) => Value::Bool(*b),
            Value::Int(n) => Value::Int(*n),
            Value::Str(s) => Value::Str(s.clone()),
        }
    }
}

/// Whether two strings hold the same characters.
pub fn str_eq(a: &str, b: &str) -> (r: bool)
    ensures
        r == (a@ == b@),
{
    let alen = a.unicode_len();
    let blen = b.unicode_len();
    if alen != blen {
        return false;
    }
    let mut i: usize = 0;
    while i < alen
        invariant
            alen == a@.len(),
            alen == b@.len(),
            i <= alen,
            forall|j: int| 0 <= j < i ==> a@[j] == b@[j],
        decreases alen - i,
    {
        if a.get_char(i) != b.get_char(i) {
            return false;
        }
        i = i + 1;
    }
    proof {
        assert(a@ =~= b@);
    }
    true
}

/// Whether two values are equal, decided structurally.
pub fn value_eq(a: &Value, b: &Value) -> (r: bool)
    ensures
        r == (a@ == b@),
{
    match (a, b) {
        (Value::Null, Value::Null) => true,
        (Value::Bool(x), Value::Bool(y)) => *x == *y,
        (Value::Int(x), Value::Int(y)) => *x == *y,
        (Value::Str(x), Value::Str(y)) => str_eq(x.as_str(), y.as_str()),
        _ => false,
    }
}

/// A named field inside a document.
#[derive(Debug)]
pub struct Field {
    pub name: String,
    pub value: Value,
}

/// The map described by a field sequence; on a duplicated name the later
/// field wins.
pub open spec fn fields_map(fields: Seq<Field>) -> Map<Seq<char>, ValueModel>
    decreases fields.len(),
{
    if fields.len() == 0 {
        Map::empty()
    } else {
        fields_map(fields.drop_last()).insert(fields.last().name@, fields.last().value@)
    }
}

/// Whether a field sequence has one entry per name.
pub open spec fn wf_fields(fields: Seq<Field>) -> bool {
    forall|i: int, j: int|
        0 <= i < j < fields.len() ==> (#[trigger] fields[i].name)@ != (#[trigger] fields[j].name)@
}

/// Whether some field carries the given name.
pub open spec fn has_name(fields: Seq<Field>, n: Seq<char>) -> bool {
    exists|i: int| 0 <= i < fields.len() && (#[trigger] fields[i].name)@ == n
}

/// The domain of a field sequence's map is exactly its set of names.
proof fn lemma_fields_map_domain(fields: Seq<Field>)
    ensures
        forall|n: Seq<char>| #[trigger] fields_map(fields).dom().contains(n) <==> has_name(
            fields,
            n,
        ),
    decreases fields.len(),
{
    if fields.len() > 0 {
        let pre = fields.drop_last();
        lemma_fields_map_domain(pre);
        assert forall|n: Seq<char>| #[trigger] fields_map(fields).dom().contains(n) implies
        has_name(fields, n) by {
            if n == fields.last().name@ {
                assert(fields[fields.len() - 1].name@ == n);
            } else {
                assert(fields_map(pre).dom().contains(n));
                assert(has_name(pre, n));
                let i = choose|i: int| 0 <= i < pre.len() && (#[trigger] pre[i].name)@ == n;
                assert(pre[i] == fields[i]);
                assert(fields[i].name@ == n);
            }
        }
        assert forall|n: Seq<char>| has_name(fields, n) implies #[trigger] fields_map(
            fields,
        ).dom().contains(n) by {
            let i = choose|i: int| 0 <= i < fields.len() && (#[trigger] fields[i].name)@ == n;
            if i < fields.len() - 1 {
                assert(pre[i] == fields[i]);
                assert(pre[i].name@ == n);
                assert(has_name(pre, n));
                assert(fields_map(pre).dom().contains(n));
            }
        }
    }
}

/// In a well-formed field sequence the map sends each name to its field's
/// value.
proof fn lemma_fields_map_index(fields: Seq<Field>)
    requires
        wf_fields(fields),
    ensures
        forall|i: int| 0 <= i < fields.len() ==> fields_map(fields)[(
        #[trigger] fields[i].name)@] == fields[i].value@,
    decreases fields.len(),
{
    if fields.len() > 0 {
        let pre = fields.drop_last();
        lemma_fields_map_index(pre);
        assert forall|i: int| 0 <= i < fields.len() implies fields_map(fields)[(
        #[trigger] fields[i].name)@] == fields[i].value@ by {
            if i < fields.len() - 1 {
                assert(pre[i] == fields[i]);
                assert(pre[i].name@ == fields[i].name@);
                assert(fields[i].name@ != fields[fields.len() - 1].name@);
                assert(fields_map(pre)[pre[i].name@] == pre[i].value@);
            }
        }
    }
}

/// A well-formed field sequence has as many entries as names.
proof fn lemma_fields_map_card(fields: Seq<Field>)
    requires
        wf_fields(fields),
    ensures
        fields_map(fields).dom().finite(),
        fields_map(fields).dom().len() == fields.len(),
    decreases fields.len(),
{
    if fields.len() == 0 {
        assert(fields_map(fields).dom() =~= Set::<Seq<char>>::empty());
    } else {
        let pre = fields.drop_last();
        lemma_fields_map_card(pre);
        lemma_fields_map_domain(pre);
        assert(!has_name(pre, fields.last().name@)) by {
            if has_name(pre, fields.last().name@) {
                let i = choose|i: int|
                    0 <= i < pre.len() && (#[trigger] pre[i].name)@ == fields.last().name@;
                assert(pre[i] == fields[i]);
                assert(fields[i].name@ == fields[fields.len() - 1].name@);
            }
        }
        assert(!fields_map(pre).dom().contains(fields.last().name@));
        assert(fields_map(fields).dom() =~= fields_map(pre).dom().insert(fields.last().name@));
    }
}

/// Whether a document matches a structural filter: every filter field is
/// present in the document with an equal value.  The empty filter matches
/// everything.
pub open spec fn doc_matches(
    doc: Map<Seq<char>, ValueModel>,
    filter: Map<Seq<char>, ValueModel>,
) -> bool {
    forall|n: Seq<char>| #[trigger]
        filter.dom().contains(n) ==> doc.dom().contains(n) && doc[n] == filter[n]
}

/// A document: a finite map from field names to values.
#[derive(Debug)]
pub struct Document {
    fields: Vec<Field>,
}

impl View for Document {
    type V = Map<Seq<char>, ValueModel>;

    closed spec fn view(&self) -> Map<Seq<char>, ValueModel> {
        fields_map(self.fields@)
    }
}

impl Document {
    /// One entry per name.
    pub closed spec fn wf(&self) -> bool {
        wf_fields(self.fields@)
    }

    /// The empty document.
    pub fn new() -> (r: Document)
        ensures
            r.wf(),
            r@ == Map::<Seq<char>, ValueModel>::empty(),
    {
        Document { fields: Vec::new() }
    }

    /// How many fields the document holds.
    pub fn len(&self) -> (r: usize)
        requires
            self.wf(),
        ensures
            r == self@.dom().len(),
            self@.dom().finite(),
    {
        proof {
            lemma_fields_map_card(self.fields@);
        }
        self.fields.len()
    }

    /// Look a field up by name.
    pub fn get(&self, name: &str) -> (r: Option<&Value>)
        requires
            self.wf(),
        ensures
            r is Some <==> self@.dom().contains(name@),
            r matches Some(v) ==> self@.dom().contains(name@) && v@ == self@[name@],
    {
        proof {
            lemma_fields_map_domain(self.fields@);
            lemma_fields_map_index(self.fields@);
        }
        let n = self.fields.len();
        let mut i: usize = 0;
        while i < n
            invariant
                self.wf(),
                n == self.fields@.len(),
                i <= n,
                forall|j: int| 0 <= j < i ==> (#[trigger] self.fields@[j].name)@ != name@,
            decreases n - i,
        {
            if str_eq(self.fields[i].name.as_str(), name) {
                proof {
                    lemma_fields_map_domain(self.fields@);
                    lemma_fields_map_index(self.fields@);
                    assert(self.fields@[i as int].name@ == name@);
                    assert(has_name(self.fields@, name@));
                }
                return Some(&self.fields[i].value);
            }
            i = i + 1;
        }
        proof {
            if has_name(self.fields@, name@) {
                let j = choose|j: int|
                    0 <= j < self.fields@.len() && (#[trigger] self.fields@[j].name)@ == name@;
                assert(self.fields@[j].name@ != name@);
            }
        }
        None
    }

    /// Set a field, replacing any previous entry under the same name.
    pub fn set(&mut self, name: &str, value: Value)
        requires
            old(self).wf(),
        ensures
            final (self).wf(),
            final (self)@ == old(self)@.insert(name@, value@),
    {
        let ghost allf = old(self).fields@;
        let n = self.fields.len();
        let mut kept: Vec<Field> = Vec::new();
        let mut i: usize = 0;
        while i < n
            invariant
                wf_fields(allf),
                allf == self.fields@,
                n == allf.len(),
                i <= n,
                fields_map(kept@) == fields_map(allf.subrange(0, i as int)).remove(name@),
                forall|k: int| 0 <= k < kept@.len() ==> (#[trigger] kept@[k].name)@ != name@,
                forall|k: int|
                    0 <= k < kept@.len() ==> has_name(
                        allf.subrange(0, i as int),
                        (#[trigger] kept@[k].name)@,
                    ),
                wf_fields(kept@),
            decreases n - i,
        {
            let ghost prefix = allf.subrange(0, i as int);
            let ghost prefix1 = allf.subrange(0, i + 1);
            proof {
                assert(prefix1.drop_last() =~= prefix);
                assert(prefix1.last() == allf[i as int]);
            }
            if !str_eq(self.fields[i].name.as_str(), name) {
                let ghost kept_pre = kept@;
                let f = &self.fields[i];
                kept.push(Field { name: f.name.clone(), value: f.value.clone() });
                proof {
                    assert(kept@.drop_last() =~= kept_pre);
                    assert(kept@.last().name@ == allf[i as int].name@);
                    assert(kept@.last().value@ == allf[i as int].value@);
                    assert(fields_map(kept@) =~= fields_map(prefix1).remove(name@));
                    assert forall|k: int| 0 <= k < kept@.len() implies has_name(
                        prefix1,
                        (#[trigger] kept@[k].name)@,
                    ) by {
                        if k < kept@.len() - 1 {
                            assert(kept@[k] == kept_pre[k]);
                            assert(has_name(prefix, kept_pre[k].name@));
                            let j = choose|j: int|
                                0 <= j < prefix.len() && (#[trigger] prefix[j].name)@
                                    == kept_pre[k].name@;
                            assert(prefix1[j] == prefix[j]);
                            assert(prefix1[j].name@ == kept@[k].name@);
                        } else {
                            assert(prefix1[i as int].name@ == kept@[k].name@);
                        }
                    }
                    assert forall|k1: int, k2: int| 0 <= k1 < k2 < kept@.len() implies (
                    #[trigger] kept@[k1].name)@ != (#[trigger] kept@[k2].name)@ by {
                        if k2 < kept@.len() - 1 {
                            assert(kept@[k1] == kept_pre[k1]);
                            assert(kept@[k2] == kept_pre[k2]);
                            assert(kept_pre[k1].name@ != kept_pre[k2].name@);
                        } else {
                            assert(kept@[k1] == kept_pre[k1]);
                            assert(has_name(prefix, kept_pre[k1].name@));
                            let j = choose|j: int|
                                0 <= j < prefix.len() && (#[trigger] prefix[j].name)@
                                    == kept_pre[k1].name@;
                            assert(prefix[j] == allf[j]);
                            assert(allf[j].name@ != allf[i as int].name@);
                            assert(kept@[k2].name@ == allf[i as int].name@);
                        }
                    }
                }
            } else {
                proof {
                    assert(allf[i as int].name@ == name@);
                    assert(fields_map(prefix1) =~= fields_map(prefix).insert(
                        allf[i as int].name@,
                        allf[i as int].value@,
                    ));
                    assert(fields_map(kept@) =~= fields_map(prefix1).remove(name@));
                    assert forall|k: int| 0 <= k < kept@.len() implies has_name(
                        prefix1,
                        (#[trigger] kept@[k].name)@,
                    ) by {
                        assert(has_name(prefix, kept@[k].name@));
                        let j = choose|j: int|
                            0 <= j < prefix.len() && (#[trigger] prefix[j].name)@
                                == kept@[k].name@;
                        assert(prefix1[j] == prefix[j]);
                        assert(prefix1[j].name@ == kept@[k].name@);
                    }
                }
            }
            i = i + 1;
        }
        proof {
            assert(allf.subrange(0, n as int) =~= allf);
        }
        let ghost kept_all = kept@;
        kept.push(Field { name: name.to_owned(), value });
        self.fields = kept;
        proof {
            assert(self.fields@.drop_last() =~= kept_all);
            assert(self.fields@.last().name@ == name@);
            assert(fields_map(self.fields@) =~= old(self)@.insert(name@, value@));
            assert forall|k1: int, k2: int| 0 <= k1 < k2 < self.fields@.len() implies (
            #[trigger] self.fields@[k1].name)@ != (#[trigger] self.fields@[k2].name)@ by {
                assert(self.fields@[k1] == kept_all[k1]);
                if k2 < self.fields@.len() - 1 {
                    assert(self.fields@[k2] == kept_all[k2]);
                    assert(kept_all[k1].name@ != kept_all[k2].name@);
                } else {
                    assert(kept_all[k1].name@ != name@);
                }
            }
        }
    }

    /// Merge a patch into this document: every field of the patch is set,
    /// every other field keeps its value.
    pub fn merge(&mut self, patch: &Document)
        requires
            old(self).wf(),
            patch.wf(),
        ensures
            final (self).wf(),
            final (self)@ == old(self)@.union_prefer_right(patch@),
    {
        proof {
            lemma_fields_map_domain(patch.fields@);
            lemma_fields_map_index(patch.fields@);
            assert(self@ =~= old(self)@.union_prefer_right(
                fields_map(patch.fields@.subrange(0, 0)),
            ));
        }
        let n = patch.fields.len();
        let mut i: usize = 0;
        while i < n
            invariant
                old(self).wf(),
                patch.wf(),
                n == patch.fields@.len(),
                i <= n,
                self.wf(),
                self@ == old(self)@.union_prefer_right(
                    fields_map(patch.fields@.subrange(0, i as int)),
                ),
            decreases n - i,
        {
            let ghost prefix = patch.fields@.subrange(0, i as int);
            let ghost prefix1 = patch.fields@.subrange(0, i + 1);
            let f = &patch.fields[i];
            self.set(f.name.as_str(), f.value.clone());
            proof {
                assert(prefix1.drop_last() =~= prefix);
                assert(prefix1.last() == patch.fields@[i as int]);
                assert(fields_map(prefix1) =~= fields_map(prefix).insert(f.name@, f.value@));
                assert(self@ =~= old(self)@.union_prefer_right(fields_map(prefix1)));
            }
            i = i + 1;
        }
        proof {
            assert(patch.fields@.subrange(0, n as int) =~= patch.fields@);
        }
    }

    /// Whether this document matches a structural filter: every field of
    /// the filter is present with an equal value.
    pub fn matches(&self, filter: &Document) -> (r: bool)
        requires
            self.wf(),
            filter.wf(),
        ensures
            r == doc_matches(self@, filter@),
    {
        proof {
            lemma_fields_map_domain(filter.fields@);
            lemma_fields_map_index(filter.fields@);
        }
        let n = filter.fields.len();
        let mut i: usize = 0;
        while i < n
            invariant
                self.wf(),
                filter.wf(),
                n == filter.fields@.len(),
                i <= n,
                forall|j: int|
                    0 <= j < i ==> {
                        let fname = (#[trigger] filter.fields@[j].name)@;
                        self@.dom().contains(fname) && self@[fname] == filter@[fname]
                    },
                forall|nm: Seq<char>| #[trigger] filter@.dom().contains(nm) <==> has_name(
                    filter.fields@,
                    nm,
                ),
                forall|j: int| 0 <= j < n ==> filter@[(#[trigger] filter.fields@[j].name)@]
                    == filter.fields@[j].value@,
            decreases n - i,
        {
            let f = &filter.fields[i];
            proof {
                assert(filter.fields@[i as int].name@ == f.name@);
                assert(has_name(filter.fields@, f.name@));
                assert(filter@.dom().contains(f.name@));
                assert(filter@[f.name@] == f.value@);
            }
            match self.get(f.name.as_str()) {
                None => {
                    proof {
                        assert(!self@.dom().contains(f.name@));
                        assert(!doc_matches(self@, filter@));
                    }
                    return false;
                },
                Some(v) => {
                    if !value_eq(v, &f.value) {
                        proof {
                            assert(self@[f.name@] != filter@[f.name@]);
                            assert(!doc_matches(self@, filter@));
                        }
                        return false;
                    }
                },
            }
            i = i + 1;
        }
        proof {
            assert forall|nm: Seq<char>| #[trigger] filter@.dom().contains(nm) implies
            self@.dom().contains(nm) && self@[nm] == filter@[nm] by {
                assert(has_name(filter.fields@, nm));
                let j = choose|j: int|
                    0 <= j < filter.fields@.len() && (#[trigger] filter.fields@[j].name)@ == nm;
                assert(filter.fields@[j].name@ == nm);
            }
        }
        true
    }
}

impl Clone for Document {
    fn clone(&self) -> (r: Self)
        ensures
            r@ == self@,
            self.wf() ==> r.wf(),
    {
        let n = self.fields.len();
        let mut fields: Vec<Field> = Vec::new();
        let mut i: usize = 0;
        while i < n
            invariant
                n == self.fields@.len(),
                i <= n,
                fields@.len() == i,
                forall|j: int|
                    0 <= j < i ==> (#[trigger] fields@[j].name)@ == self.fields@[j].name@
                        && fields@[j].value@ == self.fields@[j].value@,
                fields_map(fields@) == fields_map(self.fields@.subrange(0, i as int)),
            decreases n - i,
        {
            let ghost fields_pre = fields@;
            let f = &self.fields[i];
            fields.push(Field { name: f.name.clone(), value: f.value.clone() });
            proof {
                let prefix = self.fields@.subrange(0, i as int);
                let prefix1 = self.fields@.subrange(0, i + 1);
                assert(prefix1.drop_last() =~= prefix);
                assert(prefix1.last() == self.fields@[i as int]);
                assert(fields@.drop_last() =~= fields_pre);
                assert(fields_map(fields@) =~= fields_map(prefix1));
            }
            i = i + 1;
        }
        proof {
            assert(self.fields@.subrange(0, n as int) =~= self.fields@);
            if wf_fields(self.fields@) {
                assert forall|k1: int, k2: int| 0 <= k1 < k2 < fields@.len() implies (
                #[trigger] fields@[k1].name)@ != (#[trigger] fields@[k2].name)@ by {
                    assert(self.fields@[k1].name@ != self.fields@[k2].name@);
                }
            }
        }
        Document { fields }
    }
}

} // verus!
