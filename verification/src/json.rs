//! The JSON value model.
//!
//! Messages on the wire are JSON; the core models a JSON document as [`Json`],
//! whose strings are the raw UTF-8 bytes of the document. The mathematical
//! model of a value is [`JsonV`], reached through [`Json::jv`]; every contract
//! of the crate speaks of values through that view. A number is an [`Json::Int`]
//! when it is a plain integer in the 64-bit signed range — the form of every
//! number the protocol itself reads (request ids, error codes) — and otherwise
//! a [`Json::Num`] carrying the literal digit bytes untouched, so that
//! fractional, exponent-form and oversized numeric payloads pass through the
//! client byte-identically without the crate doing arithmetic on them.

use vstd::prelude::*;

verus! {

/// A JSON value. Object members keep their textual order; a lookup takes the
/// first member with the key.
#[derive(Debug)]
pub enum Json {
    Null,
    Bool(bool),
    Int(i64),
    /// A number that is not a plain integer in the `i64` range: its literal
    /// bytes, carried and re-serialized verbatim.
    Num(Vec<u8>),
    Str(Vec<u8>),
    Arr(Vec<Json>),
    Obj(Vec<(Vec<u8>, Json)>),
}

/// The mathematical model of a JSON value.
pub enum JsonV {
    Null,
    Bool(bool),
    Int(i64),
    Num(Seq<u8>),
    Str(Seq<u8>),
    Arr(Seq<JsonV>),
    Obj(Seq<(Seq<u8>, JsonV)>),
}

impl Json {
    /// The mathematical value of this JSON document.
    pub open spec fn jv(self) -> JsonV
        decreases self,
    {
        match self {
            Json::Null => JsonV::Null,
            Json::Bool(b) => JsonV::Bool(b),
            Json::Int(n) => JsonV::Int(n),
            Json::Num(d) => JsonV::Num(d@),
            Json::Str(s) => JsonV::Str(s@),
            Json::Arr(items) => JsonV::Arr(
                Seq::new(
                    items@.len(),
                    |i: int|
                        if 0 <= i < items@.len() {
                            items@[i].jv()
                        } else {
                            JsonV::Null
                        },
                ),
            ),
            Json::Obj(fields) => JsonV::Obj(
                Seq::new(
                    fields@.len(),
                    |i: int|
                        if 0 <= i < fields@.len() {
                            (fields@[i].0@, fields@[i].1.jv())
                        } else {
                            (Seq::<u8>::empty(), JsonV::Null)
                        },
                ),
            ),
        }
    }
}

/// The first member of `fields` named `key`, if any.
pub open spec fn obj_lookup(fields: Seq<(Seq<u8>, JsonV)>, key: Seq<u8>) -> Option<JsonV>
    decreases fields.len(),
{
    if fields.len() == 0 {
        None
    } else if fields[0].0 == key {
        Some(fields[0].1)
    } else {
        obj_lookup(fields.drop_first(), key)
    }
}

/// The member named `key` of `v`, when `v` is an object that has one.
pub open spec fn jv_get(v: JsonV, key: Seq<u8>) -> Option<JsonV> {
    match v {
        JsonV::Obj(fields) => obj_lookup(fields, key),
        _ => None,
    }
}

/// True when `v` is an object with a member named `key`.
pub open spec fn jv_has_key(v: JsonV, key: Seq<u8>) -> bool {
    jv_get(v, key) is Some
}

/// When no member before position `i` is named `key`, the lookup is decided
/// at or after `i`: by the member at `i` when it is named `key`, and by the
/// end of the object when `i` is the length.
pub proof fn lemma_obj_lookup_at(fields: Seq<(Seq<u8>, JsonV)>, key: Seq<u8>, i: int)
    requires
        0 <= i <= fields.len(),
        forall|k: int| 0 <= k < i ==> (#[trigger] fields[k]).0 != key,
    ensures
        i < fields.len() && fields[i].0 == key ==> obj_lookup(fields, key) == Some(fields[i].1),
        i == fields.len() ==> obj_lookup(fields, key) is None,
    decreases fields.len(),
{
    if fields.len() > 0 && i > 0 {
        assert(fields[0].0 != key);
        lemma_obj_lookup_at(fields.drop_first(), key, i - 1);
        assert(forall|k: int|
            0 <= k < i - 1 ==> (#[trigger] fields.drop_first()[k]) == fields[k + 1]);
    }
}

/// Compares two byte vectors for equality of contents.
pub fn bytes_eq(a: &Vec<u8>, b: &Vec<u8>) -> (r: bool)
    ensures
        r <==> a@ == b@,
{
    if a.len() != b.len() {
        assert(a@.len() != b@.len());
        return false;
    }
    let n = a.len();
    let mut i: usize = 0;
    while i < n
        invariant
            0 <= i <= n,
            n == a@.len() == b@.len(),
            forall|k: int| 0 <= k < i ==> a@[k] == b@[k],
        decreases n - i,
    {
        if a[i] != b[i] {
            return false;
        }
        i = i + 1;
    }
    assert(a@ =~= b@);
    true
}

/// Appends a copy of `b` to `a`.
pub fn extend_bytes(a: &mut Vec<u8>, b: &Vec<u8>)
    ensures
        final(a)@ == old(a)@ + b@,
{
    let mut i: usize = 0;
    while i < b.len()
        invariant
            0 <= i <= b@.len(),
            a@ == old(a)@ + b@.take(i as int),
        decreases b@.len() - i,
    {
        a.push(b[i]);
        assert(a@ =~= old(a)@ + b@.take(i as int + 1));
        i = i + 1;
    }
    assert(b@.take(b@.len() as int) =~= b@);
}

/// Copies a byte vector.
pub fn clone_bytes(v: &Vec<u8>) -> (r: Vec<u8>)
    ensures
        r@ == v@,
{
    let mut r: Vec<u8> = Vec::new();
    let mut i: usize = 0;
    while i < v.len()
        invariant
            0 <= i <= v@.len(),
            r@ == v@.subrange(0, i as int),
        decreases v@.len() - i,
    {
        r.push(v[i]);
        assert(r@ =~= v@.subrange(0, i as int + 1));
        i = i + 1;
    }
    assert(r@ =~= v@);
    r
}

impl Json {
    /// The member of this object named `key`, if this is an object that has
    /// one; `None` otherwise.
    pub fn get<'a>(&'a self, key: &Vec<u8>) -> (r: Option<&'a Json>)
        ensures
            match r {
                Some(m) => jv_get(self.jv(), key@) == Some(m.jv()),
                None => jv_get(self.jv(), key@) is None,
            },
    {
        match self {
            Json::Obj(fields) => {
                let ghost fs = self.jv()->Obj_0;
                assert(fs.len() == fields@.len());
                let n = fields.len();
                let mut i: usize = 0;
                while i < n
                    invariant
                        0 <= i <= n,
                        n == fields@.len(),
                        fs.len() == n,
                        jv_get(self.jv(), key@) == obj_lookup(fs, key@),
                        forall|k: int| 0 <= k < n ==> #[trigger] fs[k] == (
                            fields@[k].0@,
                            fields@[k].1.jv(),
                        ),
                        forall|k: int| 0 <= k < i ==> (#[trigger] fs[k]).0 != key@,
                    decreases n - i,
                {
                    let entry = &fields[i];
                    if bytes_eq(&entry.0, key) {
                        proof {
                            lemma_obj_lookup_at(fs, key@, i as int);
                        }
                        return Some(&entry.1);
                    }
                    i = i + 1;
                }
                proof {
                    lemma_obj_lookup_at(fs, key@, n as int);
                }
                None
            },
            _ => None,
        }
    }

    /// True when this value is an object with a member named `key`.
    pub fn has_key(&self, key: &Vec<u8>) -> (r: bool)
        ensures
            r == jv_has_key(self.jv(), key@),
    {
        self.get(key).is_some()
    }

    /// A copy of this value with the same mathematical value.
    pub fn deep_clone(&self) -> (r: Json)
        ensures
            r.jv() == self.jv(),
        decreases *self,
    {
        match self {
            Json::Null => Json::Null,
            Json::Bool(b) => Json::Bool(*b),
            Json::Int(n) => Json::Int(*n),
            Json::Num(d) => Json::Num(clone_bytes(d)),
            Json::Str(s) => Json::Str(clone_bytes(s)),
            Json::Arr(items) => {
                let n = items.len();
                let mut out: Vec<Json> = Vec::new();
                let mut i: usize = 0;
                while i < n
                    invariant
                        0 <= i <= n,
                        self is Arr && self->Arr_0 == *items,
                        n == items@.len(),
                        out@.len() == i,
                        forall|k: int| 0 <= k < i ==> (#[trigger] out@[k]).jv() == items@[k].jv(),
                    decreases n - i,
                {
                    let item = &items[i];
                    proof {
                        assert(decreases_to!(*self => self->Arr_0));
                        assert(decreases_to!(self->Arr_0 => items@));
                        assert(decreases_to!(items@ => items@[i as int]));
                        assert(decreases_to!(*self => *item));
                    }
                    out.push(item.deep_clone());
                    i = i + 1;
                }
                let r = Json::Arr(out);
                assert forall|k: int| 0 <= k < n implies (r.jv()->Arr_0)[k] == (
                self.jv()->Arr_0)[k] by {
                    assert(out@[k].jv() == items@[k].jv());
                }
                assert(r.jv()->Arr_0 =~= self.jv()->Arr_0);
                r
            },
            Json::Obj(fields) => {
                let n = fields.len();
                let mut out: Vec<(Vec<u8>, Json)> = Vec::new();
                let mut i: usize = 0;
                while i < n
                    invariant
                        0 <= i <= n,
                        self is Obj && self->Obj_0 == *fields,
                        n == fields@.len(),
                        out@.len() == i,
                        forall|k: int|
                            0 <= k < i ==> (#[trigger] out@[k]).0@ == fields@[k].0@
                                && out@[k].1.jv() == fields@[k].1.jv(),
                    decreases n - i,
                {
                    let entry = &fields[i];
                    proof {
                        assert(decreases_to!(*self => self->Obj_0));
                        assert(decreases_to!(self->Obj_0 => fields@));
                        assert(decreases_to!(fields@ => fields@[i as int]));
                        assert(decreases_to!(fields@[i as int] => fields@[i as int].1));
                        assert(decreases_to!(*self => entry.1));
                    }
                    out.push((clone_bytes(&entry.0), entry.1.deep_clone()));
                    i = i + 1;
                }
                let r = Json::Obj(out);
                assert forall|k: int| 0 <= k < n implies (r.jv()->Obj_0)[k] == (
                self.jv()->Obj_0)[k] by {
                    assert(out@[k].0@ == fields@[k].0@ && out@[k].1.jv() == fields@[k].1.jv());
                }
                assert(r.jv()->Obj_0 =~= self.jv()->Obj_0);
                r
            },
        }
    }
}

} // verus!
