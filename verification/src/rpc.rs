//! JSON-RPC message construction and classification.
//!
//! Outbound requests carry the version string, a numeric id, a method name
//! and positional params. During a call, every inbound message is either a
//! reverse request from the server (it has a `method` member), the awaited
//! response (its `id` matches), or noise that the read loop passes over.
//! Reverse requests are decoded here, including the dense `p0`, `p1`, ...
//! convention for positional callback arguments, and the replies to them
//! are built here, preserving the inbound id.

use vstd::prelude::*;

use crate::digits::dec_digits;
use crate::errors::{AtsError, CapabilityError, CapabilityErrorV};
use crate::json::{clone_bytes, extend_bytes, jv_get, obj_lookup, Json, JsonV};
use crate::keys;

verus! {

/// The string contents of `o`, or empty bytes when `o` is not a string.
pub open spec fn as_str_or_empty(o: Option<JsonV>) -> Seq<u8> {
    match o {
        Some(JsonV::Str(s)) => s,
        _ => Seq::empty(),
    }
}

/// The string contents of `o`, when `o` is a string.
pub open spec fn as_str_opt(o: Option<JsonV>) -> Option<Seq<u8>> {
    match o {
        Some(JsonV::Str(s)) => Some(s),
        _ => None,
    }
}

/// The wire form of an outbound request:
/// `{"jsonrpc": "2.0", "id": <id>, "method": <method>, "params": <params>}`.
pub open spec fn request_jv(id: i64, method: Seq<u8>, params: Seq<JsonV>) -> JsonV {
    JsonV::Obj(
        seq![
            (keys::jsonrpc_key(), JsonV::Str(keys::jsonrpc_version())),
            (keys::id_key(), JsonV::Int(id)),
            (keys::method_key(), JsonV::Str(method)),
            (keys::params_key(), JsonV::Arr(params)),
        ],
    )
}

/// The wire form of a successful reply to a reverse request, carrying the
/// inbound id unchanged.
pub open spec fn result_reply_jv(id: JsonV, value: JsonV) -> JsonV {
    JsonV::Obj(
        seq![
            (keys::jsonrpc_key(), JsonV::Str(keys::jsonrpc_version())),
            (keys::id_key(), id),
            (keys::result_key(), value),
        ],
    )
}

/// The wire form of an error reply to a reverse request, carrying the
/// inbound id unchanged.
pub open spec fn error_reply_jv(id: JsonV, code: i64, message: Seq<u8>) -> JsonV {
    JsonV::Obj(
        seq![
            (keys::jsonrpc_key(), JsonV::Str(keys::jsonrpc_version())),
            (keys::id_key(), id),
            (
                keys::rpc_error_key(),
                JsonV::Obj(
                    seq![
                        (keys::code_key(), JsonV::Int(code)),
                        (keys::message_key(), JsonV::Str(message)),
                    ],
                ),
            ),
        ],
    )
}

/// Builds an outbound request document.
pub fn build_request(id: i64, method: Vec<u8>, params: Vec<Json>) -> (j: Json)
    ensures
        j.jv() == request_jv(
            id,
            method@,
            Seq::new(
                params@.len(),
                |i: int|
                    if 0 <= i < params@.len() {
                        params@[i].jv()
                    } else {
                        JsonV::Null
                    },
            ),
        ),
{
    let ghost params_v = Seq::new(
        params@.len(),
        |i: int|
            if 0 <= i < params@.len() {
                params@[i].jv()
            } else {
                JsonV::Null
            },
    );
    let arr = Json::Arr(params);
    assert(arr.jv()->Arr_0 =~= params_v);
    let mut fields: Vec<(Vec<u8>, Json)> = Vec::new();
    fields.push((keys::jsonrpc_key_vec(), Json::Str(keys::jsonrpc_version_vec())));
    fields.push((keys::id_key_vec(), Json::Int(id)));
    fields.push((keys::method_key_vec(), Json::Str(method)));
    fields.push((keys::params_key_vec(), arr));
    let j = Json::Obj(fields);
    assert(fields@.len() == 4);
    assert(j.jv()->Obj_0[0] == (fields@[0].0@, fields@[0].1.jv()));
    assert(j.jv()->Obj_0[1] == (fields@[1].0@, fields@[1].1.jv()));
    assert(j.jv()->Obj_0[2] == (fields@[2].0@, fields@[2].1.jv()));
    assert(j.jv()->Obj_0[3] == (fields@[3].0@, fields@[3].1.jv()));
    assert(j.jv()->Obj_0 =~= request_jv(id, method@, params_v)->Obj_0);
    j
}

/// Builds the successful reply to a reverse request.
pub fn build_result_reply(id: Json, value: Json) -> (j: Json)
    ensures
        j.jv() == result_reply_jv(id.jv(), value.jv()),
{
    let mut fields: Vec<(Vec<u8>, Json)> = Vec::new();
    fields.push((keys::jsonrpc_key_vec(), Json::Str(keys::jsonrpc_version_vec())));
    fields.push((keys::id_key_vec(), id));
    fields.push((keys::result_key_vec(), value));
    let j = Json::Obj(fields);
    assert(fields@.len() == 3);
    assert(j.jv()->Obj_0[0] == (fields@[0].0@, fields@[0].1.jv()));
    assert(j.jv()->Obj_0[1] == (fields@[1].0@, fields@[1].1.jv()));
    assert(j.jv()->Obj_0[2] == (fields@[2].0@, fields@[2].1.jv()));
    assert(j.jv()->Obj_0 =~= result_reply_jv(fields@[1].1.jv(), fields@[2].1.jv())->Obj_0);
    j
}

/// Builds the error reply to a reverse request.
pub fn build_error_reply(id: Json, code: i64, message: Vec<u8>) -> (j: Json)
    ensures
        j.jv() == error_reply_jv(id.jv(), code, message@),
{
    let ghost id_v = id.jv();
    let ghost message_v = message@;
    let mut err: Vec<(Vec<u8>, Json)> = Vec::new();
    err.push((keys::code_key_vec(), Json::Int(code)));
    err.push((keys::message_key_vec(), Json::Str(message)));
    let err_obj = Json::Obj(err);
    assert(err@.len() == 2);
    assert(err_obj.jv()->Obj_0[0] == (err@[0].0@, err@[0].1.jv()));
    assert(err_obj.jv()->Obj_0[1] == (err@[1].0@, err@[1].1.jv()));
    assert(err_obj.jv()->Obj_0 =~= error_reply_jv(id_v, code, message_v)->Obj_0[2].1->Obj_0);
    assert(err_obj.jv() == error_reply_jv(id_v, code, message_v)->Obj_0[2].1);
    let mut fields: Vec<(Vec<u8>, Json)> = Vec::new();
    fields.push((keys::jsonrpc_key_vec(), Json::Str(keys::jsonrpc_version_vec())));
    fields.push((keys::id_key_vec(), id));
    fields.push((keys::rpc_error_key_vec(), err_obj));
    let j = Json::Obj(fields);
    assert(fields@.len() == 3);
    assert(j.jv()->Obj_0[0] == (fields@[0].0@, fields@[0].1.jv()));
    assert(j.jv()->Obj_0[1] == (fields@[1].0@, fields@[1].1.jv()));
    assert(j.jv()->Obj_0[2] == (fields@[2].0@, fields@[2].1.jv()));
    assert(j.jv()->Obj_0 =~= error_reply_jv(id_v, code, message_v)->Obj_0);
    j
}

/// How the read loop treats one inbound message while waiting for the
/// response with id `expected`.
pub enum StepV {
    /// The message has a `method` member: a reverse request to dispatch.
    Reverse,
    /// The awaited response, successful: the decoded `result` member, or
    /// null when the member is absent.
    Done(JsonV),
    /// The awaited response, failed: the message of its `error` member.
    Fail(Seq<u8>),
    /// An unrelated message: the read loop passes over it.
    Ignored,
}

/// Classifies one inbound message against the awaited id.
pub open spec fn classify_spec(m: JsonV, expected: i64) -> StepV {
    if jv_get(m, keys::method_key()) is Some {
        StepV::Reverse
    } else {
        match jv_get(m, keys::id_key()) {
            Some(JsonV::Int(v)) => if v == expected {
                match jv_get(m, keys::rpc_error_key()) {
                    Some(e) => StepV::Fail(
                        match jv_get(e, keys::message_key()) {
                            Some(JsonV::Str(s)) => s,
                            _ => keys::unknown_error_msg(),
                        },
                    ),
                    None => StepV::Done(
                        match jv_get(m, keys::result_key()) {
                            Some(v2) => v2,
                            None => JsonV::Null,
                        },
                    ),
                }
            } else {
                StepV::Ignored
            },
            _ => StepV::Ignored,
        }
    }
}

/// The executable outcome of classifying one inbound message.
pub enum Step {
    /// A reverse request: decode it and answer it before reading on.
    Reverse,
    /// The awaited response: the call completes with this result.
    Completed(Result<Json, AtsError>),
    /// An unrelated message: read on.
    Ignored,
}

/// Classifies one inbound message against the awaited id. A failed
/// response carries the server's error message as a protocol error.
pub fn classify(msg: &Json, expected: i64) -> (r: Step)
    ensures
        match r {
            Step::Reverse => classify_spec(msg.jv(), expected) is Reverse,
            Step::Completed(Ok(v)) => classify_spec(msg.jv(), expected) == StepV::Done(v.jv()),
            Step::Completed(Err(e)) => {
                &&& e is Protocol
                &&& classify_spec(msg.jv(), expected) == StepV::Fail(e->Protocol_message@)
            },
            Step::Ignored => classify_spec(msg.jv(), expected) is Ignored,
        },
{
    if msg.get(&keys::method_key_vec()).is_some() {
        return Step::Reverse;
    }
    let id_matches = match msg.get(&keys::id_key_vec()) {
        Some(Json::Int(v)) => *v == expected,
        _ => false,
    };
    if !id_matches {
        return Step::Ignored;
    }
    match msg.get(&keys::rpc_error_key_vec()) {
        Some(e) => {
            let message = match e.get(&keys::message_key_vec()) {
                Some(Json::Str(s)) => clone_bytes(s),
                _ => keys::unknown_error_msg_vec(),
            };
            Step::Completed(Err(AtsError::Protocol { message }))
        },
        None => {
            let value = match msg.get(&keys::result_key_vec()) {
                Some(v) => v.deep_clone(),
                None => Json::Null,
            };
            Step::Completed(Ok(value))
        },
    }
}

/// The key of the `k`-th positional callback argument: `p0`, `p1`, ...
pub open spec fn pos_key(k: nat) -> Seq<u8> {
    keys::positional_prefix() + dec_digits(k)
}

/// Scans the dense positional members `p<k>`, `p<k+1>`, ... of `v`. The
/// scan stops at the first missing member; `fuel` bounds the walk and is
/// never exhausted first when it starts at the member count of `v`.
pub open spec fn pos_scan(v: JsonV, k: nat, fuel: nat) -> Seq<JsonV>
    decreases fuel,
{
    if fuel == 0 {
        Seq::empty()
    } else {
        match jv_get(v, pos_key(k)) {
            Some(x) => seq![x] + pos_scan(v, k + 1, (fuel - 1) as nat),
            None => Seq::empty(),
        }
    }
}

/// The positional arguments carried by the `args` value of a reverse
/// request: the dense `p0`, `p1`, ... members of an object, a single value
/// otherwise, and no arguments for null.
pub open spec fn pos_args(v: JsonV) -> Seq<JsonV> {
    match v {
        JsonV::Obj(fields) => pos_scan(v, 0, fields.len()),
        JsonV::Null => Seq::empty(),
        _ => seq![v],
    }
}

/// Decodes the positional arguments of a reverse request's `args` value.
pub fn positional_args(args: &Json) -> (r: Vec<Json>)
    ensures
        r@.len() == pos_args(args.jv()).len(),
        forall|i: int| 0 <= i < r@.len() ==> (#[trigger] r@[i]).jv() == pos_args(args.jv())[i],
{
    match args {
        Json::Obj(fields) => {
            let n = fields.len();
            let ghost v = args.jv();
            let mut out: Vec<Json> = Vec::new();
            let mut k: usize = 0;
            while k < n
                invariant
                    0 <= k <= n,
                    args is Obj && args->Obj_0 == *fields,
                    n == fields@.len(),
                    v == args.jv(),
                    out@.len() == k,
                    pos_scan(v, 0, n as nat) =~= out@.map(|_i: int, j: Json| j.jv()) + pos_scan(
                        v,
                        k as nat,
                        (n - k) as nat,
                    ),
                    forall|i: int| 0 <= i < k ==> (#[trigger] out@[i]).jv() == pos_scan(
                        v,
                        0,
                        n as nat,
                    )[i],
                decreases n - k,
            {
                let mut key = keys::positional_prefix_vec();
                let mut digits = crate::digits::render_u64(k as u64);
                key.append(&mut digits);
                assert(key@ == pos_key(k as nat));
                match args.get(&key) {
                    Some(x) => {
                        let ghost out_pre = out@;
                        out.push(x.deep_clone());
                        proof {
                            assert(out@.map(|_i: int, j: Json| j.jv()) =~= out_pre.map(
                                |_i: int, j: Json| j.jv(),
                            ) + seq![x.jv()]);
                            assert(pos_scan(v, k as nat, (n - k) as nat) == seq![x.jv()]
                                + pos_scan(v, (k + 1) as nat, (n - k - 1) as nat));
                            assert(pos_scan(v, 0, n as nat) =~= out@.map(
                                |_i: int, j: Json| j.jv(),
                            ) + pos_scan(v, (k + 1) as nat, (n - k - 1) as nat));
                        }
                        k = k + 1;
                    },
                    None => {
                        assert(pos_scan(v, k as nat, (n - k) as nat) =~= Seq::<JsonV>::empty());
                        assert(pos_scan(v, 0, n as nat) =~= out@.map(|_i: int, j: Json| j.jv()));
                        assert(pos_args(v) == pos_scan(v, 0, n as nat));
                        return out;
                    },
                }
            }
            assert(pos_scan(v, k as nat, 0) =~= Seq::<JsonV>::empty());
            assert(pos_scan(v, 0, n as nat) =~= out@.map(|_i: int, j: Json| j.jv()));
            out
        },
        Json::Null => {
            let out: Vec<Json> = Vec::new();
            assert(out@.len() == 0);
            out
        },
        _ => {
            let mut out: Vec<Json> = Vec::new();
            out.push(args.deep_clone());
            assert(pos_args(args.jv()) =~= seq![args.jv()]);
            out
        },
    }
}

/// The method name of an inbound message: the string contents of its
/// `method` member, or empty bytes when the member is not a string.
pub open spec fn method_name_of(m: JsonV) -> Seq<u8> {
    as_str_or_empty(jv_get(m, keys::method_key()))
}

/// The decoded parts of a reverse request.
pub enum ReverseKind {
    /// The method is not `invokeCallback`; carries the method name bytes.
    UnknownMethod { method: Vec<u8> },
    /// An `invokeCallback` request: the callback id named by the first
    /// param, and the raw `args` value from the second.
    InvokeCallback { callback_id: Vec<u8>, args: Json },
}

/// A decoded reverse request: the inbound `id` to answer under, if any,
/// and what the request asks.
pub struct ReverseRequest {
    pub reply_id: Option<Json>,
    pub kind: ReverseKind,
}

/// The callback id named by a reverse request: the string contents of the
/// first element of `params`, or empty bytes.
pub open spec fn callback_id_of(m: JsonV) -> Seq<u8> {
    match jv_get(m, keys::params_key()) {
        Some(JsonV::Arr(ps)) => if ps.len() >= 1 {
            match ps[0] {
                JsonV::Str(s) => s,
                _ => Seq::empty(),
            }
        } else {
            Seq::empty()
        },
        _ => Seq::empty(),
    }
}

/// The `args` value carried by a reverse request: the second element of
/// `params`, or null.
pub open spec fn callback_args_of(m: JsonV) -> JsonV {
    match jv_get(m, keys::params_key()) {
        Some(JsonV::Arr(ps)) => if ps.len() >= 2 {
            ps[1]
        } else {
            JsonV::Null
        },
        _ => JsonV::Null,
    }
}

/// Decodes an inbound message that carries a `method` member.
pub fn decode_reverse(msg: &Json) -> (r: ReverseRequest)
    ensures
        match r.reply_id {
            Some(id) => jv_get(msg.jv(), keys::id_key()) == Some(id.jv()),
            None => jv_get(msg.jv(), keys::id_key()) is None,
        },
        match r.kind {
            ReverseKind::UnknownMethod { method } => {
                &&& method@ == method_name_of(msg.jv())
                &&& method_name_of(msg.jv()) != keys::invoke_callback_method()
            },
            ReverseKind::InvokeCallback { callback_id, args } => {
                &&& method_name_of(msg.jv()) == keys::invoke_callback_method()
                &&& callback_id@ == callback_id_of(msg.jv())
                &&& args.jv() == callback_args_of(msg.jv())
            },
        },
{
    let reply_id = match msg.get(&keys::id_key_vec()) {
        Some(id) => Some(id.deep_clone()),
        None => None,
    };
    let method = match msg.get(&keys::method_key_vec()) {
        Some(Json::Str(s)) => clone_bytes(s),
        _ => Vec::new(),
    };
    assert(method@ == method_name_of(msg.jv()));
    if !crate::json::bytes_eq(&method, &keys::invoke_callback_method_vec()) {
        return ReverseRequest { reply_id, kind: ReverseKind::UnknownMethod { method } };
    }
    let (callback_id, args) = match msg.get(&keys::params_key_vec()) {
        Some(p) => match p {
            Json::Arr(ps) => {
                assert(jv_get(msg.jv(), keys::params_key()) == Some(p.jv()));
                assert(p.jv()->Arr_0.len() == ps@.len());
                let cb = if ps.len() >= 1 {
                    assert(p.jv()->Arr_0[0] == ps@[0].jv());
                    match &ps[0] {
                        Json::Str(s) => clone_bytes(s),
                        _ => Vec::new(),
                    }
                } else {
                    Vec::new()
                };
                let ar = if ps.len() >= 2 {
                    assert(p.jv()->Arr_0[1] == ps@[1].jv());
                    ps[1].deep_clone()
                } else {
                    Json::Null
                };
                (cb, ar)
            },
            _ => (Vec::new(), Json::Null),
        },
        _ => (Vec::new(), Json::Null),
    };
    assert(callback_id@ == callback_id_of(msg.jv()));
    assert(args.jv() == callback_args_of(msg.jv()));
    ReverseRequest { reply_id, kind: ReverseKind::InvokeCallback { callback_id, args } }
}

/// The capability error carried by a result value, when its `$error`
/// member is an object: code and message from its string members (empty
/// bytes otherwise), capability only when it is a string.
pub open spec fn capability_error_of(v: JsonV) -> Option<CapabilityErrorV> {
    match jv_get(v, keys::error_key()) {
        Some(JsonV::Obj(eo)) => Some(
            CapabilityErrorV {
                code: as_str_or_empty(obj_lookup(eo, keys::code_key())),
                message: as_str_or_empty(obj_lookup(eo, keys::message_key())),
                capability: as_str_opt(obj_lookup(eo, keys::capability_key())),
            },
        ),
        _ => None,
    }
}

/// Examines a decoded `result`: a value whose `$error` member is an object
/// fails with the capability error it carries; any other value is returned
/// unchanged.
pub fn shape_result(result: Json) -> (r: Result<Json, CapabilityError>)
    ensures
        match r {
            Ok(v) => {
                &&& capability_error_of(result.jv()) is None
                &&& v == result
            },
            Err(e) => capability_error_of(result.jv()) == Some(e@),
        },
{
    let envelope = match result.get(&keys::error_key_vec()) {
        Some(Json::Obj(_)) => true,
        _ => false,
    };
    if !envelope {
        return Ok(result);
    }
    // reborrow the envelope to copy its parts out
    let err = match result.get(&keys::error_key_vec()) {
        Some(e) => e,
        None => {
            return Ok(result);
        },
    };
    let code = match err.get(&keys::code_key_vec()) {
        Some(Json::Str(s)) => clone_bytes(s),
        _ => Vec::new(),
    };
    let message = match err.get(&keys::message_key_vec()) {
        Some(Json::Str(s)) => clone_bytes(s),
        _ => Vec::new(),
    };
    let capability = match err.get(&keys::capability_key_vec()) {
        Some(Json::Str(s)) => Some(clone_bytes(s)),
        _ => None,
    };
    Err(CapabilityError { code, message, capability })
}

/// Whether a decoded `cancelToken` result grants the cancellation: only
/// the boolean true does.
pub fn bool_result(result: &Json) -> (r: bool)
    ensures
        r == (result.jv() == JsonV::Bool(true)),
{
    match result {
        Json::Bool(b) => *b,
        _ => false,
    }
}

/// Builds the `-32601` reply that rejects an unknown reverse method,
/// naming the method in the message.
pub fn build_unknown_method_reply(id: Json, method: &Vec<u8>) -> (j: Json)
    ensures
        j.jv() == error_reply_jv(
            id.jv(),
            -32601i64,
            keys::unknown_method_prefix() + method@,
        ),
{
    let mut message = keys::unknown_method_prefix_vec();
    extend_bytes(&mut message, method);
    build_error_reply(id, -32601, message)
}

/// Builds the `-32000` reply that reports a failed callback invocation,
/// naming the callback id in the message.
pub fn build_callback_not_found_reply(id: Json, callback_id: &Vec<u8>) -> (j: Json)
    ensures
        j.jv() == error_reply_jv(
            id.jv(),
            -32000i64,
            keys::callback_not_found_prefix() + callback_id@,
        ),
{
    let mut message = keys::callback_not_found_prefix_vec();
    extend_bytes(&mut message, callback_id);
    build_error_reply(id, -32000, message)
}

/// Builds the `-32000` reply for an `invokeCallback` without a callback id.
pub fn build_callback_id_missing_reply(id: Json) -> (j: Json)
    ensures
        j.jv() == error_reply_jv(id.jv(), -32000i64, keys::callback_id_missing_msg()),
{
    build_error_reply(id, -32000, keys::callback_id_missing_msg_vec())
}

/// Builds the `-32000` reply for an `invokeCallback` that cannot run: a
/// missing-id message when the request named no callback id, a not-found
/// message naming the id otherwise.
pub fn build_callback_failure_reply(id: Json, callback_id: &Vec<u8>) -> (j: Json)
    ensures
        j.jv() == error_reply_jv(
            id.jv(),
            -32000i64,
            if callback_id@.len() == 0 {
                keys::callback_id_missing_msg()
            } else {
                keys::callback_not_found_prefix() + callback_id@
            },
        ),
{
    if callback_id.len() == 0 {
        build_callback_id_missing_reply(id)
    } else {
        build_callback_not_found_reply(id, callback_id)
    }
}

} // verus!
