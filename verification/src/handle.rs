//! Handles and reference expressions: the remote-object model.
//!
//! A handle is a pair of a handle id and a type id; its wire form is an
//! object with the reserved sibling keys `$handle` and `$type`. A reference
//! expression is a format string with a list of argument values; its wire
//! form is an object with the single reserved key `$refExpr`.

use vstd::prelude::*;

use crate::json::{obj_lookup, jv_get, jv_has_key, Json, JsonV, clone_bytes};
use crate::keys;

verus! {

/// A reference to a live server-side object. The client never interprets the
/// id; equality of handles is equality of their ids.
#[derive(Debug)]
pub struct Handle {
    pub handle_id: Vec<u8>,
    pub type_id: Vec<u8>,
}

/// The mathematical value of a [`Handle`].
pub struct HandleV {
    pub handle_id: Seq<u8>,
    pub type_id: Seq<u8>,
}

impl View for Handle {
    type V = HandleV;

    open spec fn view(&self) -> HandleV {
        HandleV { handle_id: self.handle_id@, type_id: self.type_id@ }
    }
}

impl HandleV {
    /// A validly-decoded handle never carries an empty handle id.
    pub open spec fn wf(self) -> bool {
        self.handle_id.len() > 0
    }
}

/// The wire form of a handle: `{"$handle": <id>, "$type": <type>}`.
pub open spec fn handle_jv(h: HandleV) -> JsonV {
    JsonV::Obj(
        seq![
            (keys::handle_key(), JsonV::Str(h.handle_id)),
            (keys::type_key(), JsonV::Str(h.type_id)),
        ],
    )
}

/// Reads a handle back from its wire form: an object whose `$handle` and
/// `$type` members are strings, with a non-empty handle id.
pub open spec fn jv_to_handle(v: JsonV) -> Option<HandleV> {
    match (jv_get(v, keys::handle_key()), jv_get(v, keys::type_key())) {
        (Some(JsonV::Str(id)), Some(JsonV::Str(ty))) => if id.len() > 0 {
            Some(HandleV { handle_id: id, type_id: ty })
        } else {
            None
        },
        _ => None,
    }
}

/// True when `v` is a JSON object carrying both the `$handle` and the
/// `$type` member, whatever their values: the marshalled-handle test.
pub open spec fn spec_is_marshalled_handle(v: JsonV) -> bool {
    jv_has_key(v, keys::handle_key()) && jv_has_key(v, keys::type_key())
}

/// True when `v` is a JSON object carrying an `$error` member: the test for
/// the capability error envelope.
pub open spec fn spec_is_ats_error(v: JsonV) -> bool {
    jv_has_key(v, keys::error_key())
}

/// Checks whether a value is a marshalled handle: an object that has both
/// the `$handle` and the `$type` member.
pub fn is_marshalled_handle(value: &Json) -> (r: bool)
    ensures
        r == spec_is_marshalled_handle(value.jv()),
{
    value.has_key(&keys::handle_key_vec()) && value.has_key(&keys::type_key_vec())
}

/// Checks whether a value is a capability error envelope: an object that has
/// an `$error` member.
pub fn is_ats_error(value: &Json) -> (r: bool)
    ensures
        r == spec_is_ats_error(value.jv()),
{
    value.has_key(&keys::error_key_vec())
}

impl Handle {
    /// A handle from its two ids.
    pub fn new(handle_id: Vec<u8>, type_id: Vec<u8>) -> (h: Handle)
        ensures
            h@ == (HandleV { handle_id: handle_id@, type_id: type_id@ }),
    {
        Handle { handle_id, type_id }
    }

    /// The wire form of this handle.
    pub fn to_json(&self) -> (j: Json)
        ensures
            j.jv() == handle_jv(self@),
    {
        let mut fields: Vec<(Vec<u8>, Json)> = Vec::new();
        fields.push((keys::handle_key_vec(), Json::Str(clone_bytes(&self.handle_id))));
        fields.push((keys::type_key_vec(), Json::Str(clone_bytes(&self.type_id))));
        let j = Json::Obj(fields);
        assert(fields@.len() == 2);
        assert(j.jv()->Obj_0[0] == (fields@[0].0@, fields@[0].1.jv()));
        assert(j.jv()->Obj_0[1] == (fields@[1].0@, fields@[1].1.jv()));
        assert(j.jv()->Obj_0 =~= handle_jv(self@)->Obj_0);
        j
    }

    /// A copy of this handle.
    pub fn clone_handle(&self) -> (h: Handle)
        ensures
            h@ == self@,
    {
        Handle { handle_id: clone_bytes(&self.handle_id), type_id: clone_bytes(&self.type_id) }
    }
}

impl Default for Handle {
    /// The default handle: both ids empty.
    fn default() -> (h: Handle)
        ensures
            h@.handle_id.len() == 0,
            h@.type_id.len() == 0,
    {
        Handle { handle_id: Vec::new(), type_id: Vec::new() }
    }
}

/// Reads a handle from its wire form, if `value` is one.
pub fn handle_from_json(value: &Json) -> (r: Option<Handle>)
    ensures
        match r {
            Some(h) => jv_to_handle(value.jv()) == Some(h@),
            None => jv_to_handle(value.jv()) is None,
        },
{
    let id = match value.get(&keys::handle_key_vec()) {
        Some(Json::Str(id)) => id,
        _ => {
            return None;
        },
    };
    let ty = match value.get(&keys::type_key_vec()) {
        Some(Json::Str(ty)) => ty,
        _ => {
            return None;
        },
    };
    if id.len() == 0 {
        return None;
    }
    Some(Handle { handle_id: clone_bytes(id), type_id: clone_bytes(ty) })
}

/// Encoding then decoding a well-formed handle yields the handle back.
pub proof fn lemma_handle_round_trip(h: HandleV)
    requires
        h.wf(),
    ensures
        jv_to_handle(handle_jv(h)) == Some(h),
{
    let fields = handle_jv(h)->Obj_0;
    assert(keys::handle_key().len() != keys::type_key().len());
    assert(obj_lookup(fields, keys::handle_key()) == Some(JsonV::Str(h.handle_id)));
    assert(obj_lookup(fields.drop_first(), keys::type_key()) == Some(JsonV::Str(h.type_id)));
    assert(obj_lookup(fields, keys::type_key()) == Some(JsonV::Str(h.type_id)));
}

/// Every handle's wire form passes the marshalled-handle test.
pub proof fn lemma_handle_jv_is_marshalled(h: HandleV)
    ensures
        spec_is_marshalled_handle(handle_jv(h)),
{
    let fields = handle_jv(h)->Obj_0;
    assert(keys::handle_key().len() != keys::type_key().len());
    assert(obj_lookup(fields, keys::handle_key()) == Some(JsonV::Str(h.handle_id)));
    assert(obj_lookup(fields.drop_first(), keys::type_key()) == Some(JsonV::Str(h.type_id)));
    assert(obj_lookup(fields, keys::type_key()) == Some(JsonV::Str(h.type_id)));
}

/// A deferred or computed value: a format string applied to argument values,
/// passed through to the server unread.
#[derive(Debug)]
pub struct ReferenceExpression {
    pub format: Vec<u8>,
    pub args: Vec<Json>,
}

/// The mathematical value of a [`ReferenceExpression`].
pub struct ReferenceExpressionV {
    pub format: Seq<u8>,
    pub args: Seq<JsonV>,
}

impl View for ReferenceExpression {
    type V = ReferenceExpressionV;

    open spec fn view(&self) -> ReferenceExpressionV {
        ReferenceExpressionV {
            format: self.format@,
            args: Seq::new(
                self.args@.len(),
                |i: int|
                    if 0 <= i < self.args@.len() {
                        self.args@[i].jv()
                    } else {
                        JsonV::Null
                    },
            ),
        }
    }
}

/// The wire form of a reference expression:
/// `{"$refExpr": {"format": <format>, "args": [<args>]}}`.
pub open spec fn ref_expr_jv(r: ReferenceExpressionV) -> JsonV {
    JsonV::Obj(
        seq![
            (
                keys::ref_expr_key(),
                JsonV::Obj(
                    seq![
                        (keys::format_key(), JsonV::Str(r.format)),
                        (keys::args_key(), JsonV::Arr(r.args)),
                    ],
                ),
            ),
        ],
    )
}

/// Reads a reference expression back from its wire form.
pub open spec fn jv_to_ref_expr(v: JsonV) -> Option<ReferenceExpressionV> {
    match jv_get(v, keys::ref_expr_key()) {
        Some(inner) => match (jv_get(inner, keys::format_key()), jv_get(
            inner,
            keys::args_key(),
        )) {
            (Some(JsonV::Str(f)), Some(JsonV::Arr(args))) => Some(
                ReferenceExpressionV { format: f, args },
            ),
            _ => None,
        },
        None => None,
    }
}

impl ReferenceExpression {
    /// A reference expression from its format string and arguments.
    pub fn new(format: Vec<u8>, args: Vec<Json>) -> (r: ReferenceExpression)
        ensures
            r.format@ == format@,
            r@.args.len() == args@.len(),
            forall|i: int| 0 <= i < args@.len() ==> r@.args[i] == (#[trigger] args@[i]).jv(),
    {
        ReferenceExpression { format, args }
    }

    /// The wire form of this reference expression.
    pub fn to_json(&self) -> (j: Json)
        ensures
            j.jv() == ref_expr_jv(self@),
    {
        let mut args: Vec<Json> = Vec::new();
        let mut i: usize = 0;
        while i < self.args.len()
            invariant
                0 <= i <= self.args@.len(),
                args@.len() == i,
                forall|k: int| 0 <= k < i ==> (#[trigger] args@[k]).jv() == self.args@[k].jv(),
            decreases self.args@.len() - i,
        {
            args.push(self.args[i].deep_clone());
            i = i + 1;
        }
        let inner_args = Json::Arr(args);
        assert(inner_args.jv()->Arr_0 =~= self@.args);
        let mut inner: Vec<(Vec<u8>, Json)> = Vec::new();
        inner.push((keys::format_key_vec(), Json::Str(clone_bytes(&self.format))));
        inner.push((keys::args_key_vec(), inner_args));
        let inner_obj = Json::Obj(inner);
        assert(inner@.len() == 2);
        assert(inner_obj.jv()->Obj_0[0] == (inner@[0].0@, inner@[0].1.jv()));
        assert(inner_obj.jv()->Obj_0[1] == (inner@[1].0@, inner@[1].1.jv()));
        assert(inner_obj.jv()->Obj_0 =~= ref_expr_jv(self@)->Obj_0[0].1->Obj_0);
        assert(inner_obj.jv() == ref_expr_jv(self@)->Obj_0[0].1);
        let mut outer: Vec<(Vec<u8>, Json)> = Vec::new();
        outer.push((keys::ref_expr_key_vec(), inner_obj));
        let j = Json::Obj(outer);
        assert(outer@.len() == 1);
        assert(j.jv()->Obj_0[0] == (outer@[0].0@, outer@[0].1.jv()));
        assert(j.jv()->Obj_0 =~= ref_expr_jv(self@)->Obj_0);
        j
    }
}

/// A reference expression from its format string and arguments.
pub fn ref_expr(format: Vec<u8>, args: Vec<Json>) -> (r: ReferenceExpression)
    ensures
        r.format@ == format@,
        r@.args.len() == args@.len(),
        forall|i: int| 0 <= i < args@.len() ==> r@.args[i] == (#[trigger] args@[i]).jv(),
{
    ReferenceExpression::new(format, args)
}

/// Reads a reference expression from its wire form, if `value` is one.
pub fn ref_expr_from_json(value: &Json) -> (r: Option<ReferenceExpression>)
    ensures
        match r {
            Some(e) => jv_to_ref_expr(value.jv()) == Some(e@),
            None => jv_to_ref_expr(value.jv()) is None,
        },
{
    let inner = match value.get(&keys::ref_expr_key_vec()) {
        Some(inner) => inner,
        None => {
            return None;
        },
    };
    let format = match inner.get(&keys::format_key_vec()) {
        Some(Json::Str(f)) => clone_bytes(f),
        _ => {
            return None;
        },
    };
    let args = match inner.get(&keys::args_key_vec()) {
        Some(a) => match a {
            Json::Arr(items) => {
                let n = items.len();
                let mut out: Vec<Json> = Vec::new();
                let mut i: usize = 0;
                while i < n
                    invariant
                        0 <= i <= n,
                        n == items@.len(),
                        out@.len() == i,
                        forall|k: int| 0 <= k < i ==> (#[trigger] out@[k]).jv()
                            == items@[k].jv(),
                    decreases n - i,
                {
                    out.push(items[i].deep_clone());
                    i = i + 1;
                }
                proof {
                    assert(jv_get(value.jv(), keys::ref_expr_key()) == Some(inner.jv()));
                    assert(jv_get(inner.jv(), keys::args_key()) == Some(a.jv()));
                    assert(a.jv()->Arr_0.len() == items@.len());
                }
                let e = ReferenceExpression { format, args: out };
                assert(e@.args =~= a.jv()->Arr_0);
                return Some(e);
            },
            _ => {
                return None;
            },
        },
        None => {
            return None;
        },
    };
}

/// Encoding then decoding a reference expression yields the expression back.
pub proof fn lemma_ref_expr_round_trip(r: ReferenceExpressionV)
    ensures
        jv_to_ref_expr(ref_expr_jv(r)) == Some(r),
{
    let outer = ref_expr_jv(r)->Obj_0;
    assert(obj_lookup(outer, keys::ref_expr_key()) == Some(outer[0].1));
    let inner = outer[0].1->Obj_0;
    assert(keys::format_key().len() != keys::args_key().len());
    assert(obj_lookup(inner, keys::format_key()) == Some(JsonV::Str(r.format)));
    assert(obj_lookup(inner.drop_first(), keys::args_key()) == Some(JsonV::Arr(r.args)));
    assert(obj_lookup(inner, keys::args_key()) == Some(JsonV::Arr(r.args)));
}

} // verus!
