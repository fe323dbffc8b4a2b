//! The byte strings of the protocol: reserved JSON keys, JSON-RPC members,
//! method names, id prefixes and fixed diagnostic messages.
//!
//! Every constant exists twice: a spec function giving the bytes as a `Seq<u8>`,
//! and an executable function returning the same bytes in a fresh `Vec<u8>`.

use vstd::prelude::*;

verus! {

/// The bytes of `$handle`.
pub open spec fn handle_key() -> Seq<u8> {
    seq![36u8, 104u8, 97u8, 110u8, 100u8, 108u8, 101u8]
}

/// The bytes of `$handle`, as a vector.
pub fn handle_key_vec() -> (v: Vec<u8>)
    ensures
        v@ == handle_key(),
{
    let mut v: Vec<u8> = Vec::new();
    v.push(36);
    v.push(104);
    v.push(97);
    v.push(110);
    v.push(100);
    v.push(108);
    v.push(101);
    assert(v@ =~= handle_key());
    v
}

/// The bytes of `$type`.
pub open spec fn type_key() -> Seq<u8> {
    seq![36u8, 116u8, 121u8, 112u8, 101u8]
}

/// The bytes of `$type`, as a vector.
pub fn type_key_vec() -> (v: Vec<u8>)
    ensures
        v@ == type_key(),
{
    let mut v: Vec<u8> = Vec::new();
    v.push(36);
    v.push(116);
    v.push(121);
    v.push(112);
    v.push(101);
    assert(v@ =~= type_key());
    v
}

/// The bytes of `$refExpr`.
pub open spec fn ref_expr_key() -> Seq<u8> {
    seq![36u8, 114u8, 101u8, 102u8, 69u8, 120u8, 112u8, 114u8]
}

/// The bytes of `$refExpr`, as a vector.
pub fn ref_expr_key_vec() -> (v: Vec<u8>)
    ensures
        v@ == ref_expr_key(),
{
    let mut v: Vec<u8> = Vec::new();
    v.push(36);
    v.push(114);
    v.push(101);
    v.push(102);
    v.push(69);
    v.push(120);
    v.push(112);
    v.push(114);
    assert(v@ =~= ref_expr_key());
    v
}

/// The bytes of `$error`.
pub open spec fn error_key() -> Seq<u8> {
    seq![36u8, 101u8, 114u8, 114u8, 111u8, 114u8]
}

/// The bytes of `$error`, as a vector.
pub fn error_key_vec() -> (v: Vec<u8>)
    ensures
        v@ == error_key(),
{
    let mut v: Vec<u8> = Vec::new();
    v.push(36);
    v.push(101);
    v.push(114);
    v.push(114);
    v.push(111);
    v.push(114);
    assert(v@ =~= error_key());
    v
}

/// The bytes of `format`.
pub open spec fn format_key() -> Seq<u8> {
    seq![102u8, 111u8, 114u8, 109u8, 97u8, 116u8]
}

/// The bytes of `format`, as a vector.
pub fn format_key_vec() -> (v: Vec<u8>)
    ensures
        v@ == format_key(),
{
    let mut v: Vec<u8> = Vec::new();
    v.push(102);
    v.push(111);
    v.push(114);
    v.push(109);
    v.push(97);
    v.push(116);
    assert(v@ =~= format_key());
    v
}

/// The bytes of `args`.
pub open spec fn args_key() -> Seq<u8> {
    seq![97u8, 114u8, 103u8, 115u8]
}

/// The bytes of `args`, as a vector.
pub fn args_key_vec() -> (v: Vec<u8>)
    ensures
        v@ == args_key(),
{
    let mut v: Vec<u8> = Vec::new();
    v.push(97);
    v.push(114);
    v.push(103);
    v.push(115);
    assert(v@ =~= args_key());
    v
}

/// The bytes of `context`.
pub open spec fn context_key() -> Seq<u8> {
    seq![99u8, 111u8, 110u8, 116u8, 101u8, 120u8, 116u8]
}

/// The bytes of `context`, as a vector.
pub fn context_key_vec() -> (v: Vec<u8>)
    ensures
        v@ == context_key(),
{
    let mut v: Vec<u8> = Vec::new();
    v.push(99);
    v.push(111);
    v.push(110);
    v.push(116);
    v.push(101);
    v.push(120);
    v.push(116);
    assert(v@ =~= context_key());
    v
}

/// The bytes of `jsonrpc`.
pub open spec fn jsonrpc_key() -> Seq<u8> {
    seq![106u8, 115u8, 111u8, 110u8, 114u8, 112u8, 99u8]
}

/// The bytes of `jsonrpc`, as a vector.
pub fn jsonrpc_key_vec() -> (v: Vec<u8>)
    ensures
        v@ == jsonrpc_key(),
{
    let mut v: Vec<u8> = Vec::new();
    v.push(106);
    v.push(115);
    v.push(111);
    v.push(110);
    v.push(114);
    v.push(112);
    v.push(99);
    assert(v@ =~= jsonrpc_key());
    v
}

/// The bytes of `2.0`.
pub open spec fn jsonrpc_version() -> Seq<u8> {
    seq![50u8, 46u8, 48u8]
}

/// The bytes of `2.0`, as a vector.
pub fn jsonrpc_version_vec() -> (v: Vec<u8>)
    ensures
        v@ == jsonrpc_version(),
{
    let mut v: Vec<u8> = Vec::new();
    v.push(50);
    v.push(46);
    v.push(48);
    assert(v@ =~= jsonrpc_version());
    v
}

/// The bytes of `id`.
pub open spec fn id_key() -> Seq<u8> {
    seq![105u8, 100u8]
}

/// The bytes of `id`, as a vector.
pub fn id_key_vec() -> (v: Vec<u8>)
    ensures
        v@ == id_key(),
{
    let mut v: Vec<u8> = Vec::new();
    v.push(105);
    v.push(100);
    assert(v@ =~= id_key());
    v
}

/// The bytes of `method`.
pub open spec fn method_key() -> Seq<u8> {
    seq![109u8, 101u8, 116u8, 104u8, 111u8, 100u8]
}

/// The bytes of `method`, as a vector.
pub fn method_key_vec() -> (v: Vec<u8>)
    ensures
        v@ == method_key(),
{
    let mut v: Vec<u8> = Vec::new();
    v.push(109);
    v.push(101);
    v.push(116);
    v.push(104);
    v.push(111);
    v.push(100);
    assert(v@ =~= method_key());
    v
}

/// The bytes of `params`.
pub open spec fn params_key() -> Seq<u8> {
    seq![112u8, 97u8, 114u8, 97u8, 109u8, 115u8]
}

/// The bytes of `params`, as a vector.
pub fn params_key_vec() -> (v: Vec<u8>)
    ensures
        v@ == params_key(),
{
    let mut v: Vec<u8> = Vec::new();
    v.push(112);
    v.push(97);
    v.push(114);
    v.push(97);
    v.push(109);
    v.push(115);
    assert(v@ =~= params_key());
    v
}

/// The bytes of `result`.
pub open spec fn result_key() -> Seq<u8> {
    seq![114u8, 101u8, 115u8, 117u8, 108u8, 116u8]
}

/// The bytes of `result`, as a vector.
pub fn result_key_vec() -> (v: Vec<u8>)
    ensures
        v@ == result_key(),
{
    let mut v: Vec<u8> = Vec::new();
    v.push(114);
    v.push(101);
    v.push(115);
    v.push(117);
    v.push(108);
    v.push(116);
    assert(v@ =~= result_key());
    v
}

/// The bytes of `error`.
pub open spec fn rpc_error_key() -> Seq<u8> {
    seq![101u8, 114u8, 114u8, 111u8, 114u8]
}

/// The bytes of `error`, as a vector.
pub fn rpc_error_key_vec() -> (v: Vec<u8>)
    ensures
        v@ == rpc_error_key(),
{
    let mut v: Vec<u8> = Vec::new();
    v.push(101);
    v.push(114);
    v.push(114);
    v.push(111);
    v.push(114);
    assert(v@ =~= rpc_error_key());
    v
}

/// The bytes of `code`.
pub open spec fn code_key() -> Seq<u8> {
    seq![99u8, 111u8, 100u8, 101u8]
}

/// The bytes of `code`, as a vector.
pub fn code_key_vec() -> (v: Vec<u8>)
    ensures
        v@ == code_key(),
{
    let mut v: Vec<u8> = Vec::new();
    v.push(99);
    v.push(111);
    v.push(100);
    v.push(101);
    assert(v@ =~= code_key());
    v
}

/// The bytes of `message`.
pub open spec fn message_key() -> Seq<u8> {
    seq![109u8, 101u8, 115u8, 115u8, 97u8, 103u8, 101u8]
}

/// The bytes of `message`, as a vector.
pub fn message_key_vec() -> (v: Vec<u8>)
    ensures
        v@ == message_key(),
{
    let mut v: Vec<u8> = Vec::new();
    v.push(109);
    v.push(101);
    v.push(115);
    v.push(115);
    v.push(97);
    v.push(103);
    v.push(101);
    assert(v@ =~= message_key());
    v
}

/// The bytes of `capability`.
pub open spec fn capability_key() -> Seq<u8> {
    seq![99u8, 97u8, 112u8, 97u8, 98u8, 105u8, 108u8, 105u8, 116u8, 121u8]
}

/// The bytes of `capability`, as a vector.
pub fn capability_key_vec() -> (v: Vec<u8>)
    ensures
        v@ == capability_key(),
{
    let mut v: Vec<u8> = Vec::new();
    v.push(99);
    v.push(97);
    v.push(112);
    v.push(97);
    v.push(98);
    v.push(105);
    v.push(108);
    v.push(105);
    v.push(116);
    v.push(121);
    assert(v@ =~= capability_key());
    v
}

/// The bytes of `invokeCapability`.
pub open spec fn invoke_capability_method() -> Seq<u8> {
    seq![105u8, 110u8, 118u8, 111u8, 107u8, 101u8, 67u8, 97u8, 112u8, 97u8, 98u8, 105u8, 108u8, 105u8, 116u8, 121u8]
}

/// The bytes of `invokeCapability`, as a vector.
pub fn invoke_capability_method_vec() -> (v: Vec<u8>)
    ensures
        v@ == invoke_capability_method(),
{
    let mut v: Vec<u8> = Vec::new();
    v.push(105);
    v.push(110);
    v.push(118);
    v.push(111);
    v.push(107);
    v.push(101);
    v.push(67);
    v.push(97);
    v.push(112);
    v.push(97);
    v.push(98);
    v.push(105);
    v.push(108);
    v.push(105);
    v.push(116);
    v.push(121);
    assert(v@ =~= invoke_capability_method());
    v
}

/// The bytes of `cancelToken`.
pub open spec fn cancel_token_method() -> Seq<u8> {
    seq![99u8, 97u8, 110u8, 99u8, 101u8, 108u8, 84u8, 111u8, 107u8, 101u8, 110u8]
}

/// The bytes of `cancelToken`, as a vector.
pub fn cancel_token_method_vec() -> (v: Vec<u8>)
    ensures
        v@ == cancel_token_method(),
{
    let mut v: Vec<u8> = Vec::new();
    v.push(99);
    v.push(97);
    v.push(110);
    v.push(99);
    v.push(101);
    v.push(108);
    v.push(84);
    v.push(111);
    v.push(107);
    v.push(101);
    v.push(110);
    assert(v@ =~= cancel_token_method());
    v
}

/// The bytes of `invokeCallback`.
pub open spec fn invoke_callback_method() -> Seq<u8> {
    seq![105u8, 110u8, 118u8, 111u8, 107u8, 101u8, 67u8, 97u8, 108u8, 108u8, 98u8, 97u8, 99u8, 107u8]
}

/// The bytes of `invokeCallback`, as a vector.
pub fn invoke_callback_method_vec() -> (v: Vec<u8>)
    ensures
        v@ == invoke_callback_method(),
{
    let mut v: Vec<u8> = Vec::new();
    v.push(105);
    v.push(110);
    v.push(118);
    v.push(111);
    v.push(107);
    v.push(101);
    v.push(67);
    v.push(97);
    v.push(108);
    v.push(108);
    v.push(98);
    v.push(97);
    v.push(99);
    v.push(107);
    assert(v@ =~= invoke_callback_method());
    v
}

/// The bytes of `callback_`.
pub open spec fn callback_id_prefix() -> Seq<u8> {
    seq![99u8, 97u8, 108u8, 108u8, 98u8, 97u8, 99u8, 107u8, 95u8]
}

/// The bytes of `callback_`, as a vector.
pub fn callback_id_prefix_vec() -> (v: Vec<u8>)
    ensures
        v@ == callback_id_prefix(),
{
    let mut v: Vec<u8> = Vec::new();
    v.push(99);
    v.push(97);
    v.push(108);
    v.push(108);
    v.push(98);
    v.push(97);
    v.push(99);
    v.push(107);
    v.push(95);
    assert(v@ =~= callback_id_prefix());
    v
}

/// The bytes of `ct_`.
pub open spec fn token_id_prefix() -> Seq<u8> {
    seq![99u8, 116u8, 95u8]
}

/// The bytes of `ct_`, as a vector.
pub fn token_id_prefix_vec() -> (v: Vec<u8>)
    ensures
        v@ == token_id_prefix(),
{
    let mut v: Vec<u8> = Vec::new();
    v.push(99);
    v.push(116);
    v.push(95);
    assert(v@ =~= token_id_prefix());
    v
}

/// The bytes of `p`.
pub open spec fn positional_prefix() -> Seq<u8> {
    seq![112u8]
}

/// The bytes of `p`, as a vector.
pub fn positional_prefix_vec() -> (v: Vec<u8>)
    ensures
        v@ == positional_prefix(),
{
    let mut v: Vec<u8> = Vec::new();
    v.push(112);
    assert(v@ =~= positional_prefix());
    v
}

/// The bytes of `content-length`.
pub open spec fn content_length_header() -> Seq<u8> {
    seq![99u8, 111u8, 110u8, 116u8, 101u8, 110u8, 116u8, 45u8, 108u8, 101u8, 110u8, 103u8, 116u8, 104u8]
}

/// The bytes of `content-length`, as a vector.
pub fn content_length_header_vec() -> (v: Vec<u8>)
    ensures
        v@ == content_length_header(),
{
    let mut v: Vec<u8> = Vec::new();
    v.push(99);
    v.push(111);
    v.push(110);
    v.push(116);
    v.push(101);
    v.push(110);
    v.push(116);
    v.push(45);
    v.push(108);
    v.push(101);
    v.push(110);
    v.push(103);
    v.push(116);
    v.push(104);
    assert(v@ =~= content_length_header());
    v
}

/// The bytes of `Content-Length: `.
pub open spec fn content_length_prefix() -> Seq<u8> {
    seq![67u8, 111u8, 110u8, 116u8, 101u8, 110u8, 116u8, 45u8, 76u8, 101u8, 110u8, 103u8, 116u8, 104u8, 58u8, 32u8]
}

/// The bytes of `Content-Length: `, as a vector.
pub fn content_length_prefix_vec() -> (v: Vec<u8>)
    ensures
        v@ == content_length_prefix(),
{
    let mut v: Vec<u8> = Vec::new();
    v.push(67);
    v.push(111);
    v.push(110);
    v.push(116);
    v.push(101);
    v.push(110);
    v.push(116);
    v.push(45);
    v.push(76);
    v.push(101);
    v.push(110);
    v.push(103);
    v.push(116);
    v.push(104);
    v.push(58);
    v.push(32);
    assert(v@ =~= content_length_prefix());
    v
}

/// The bytes of `Unknown method: `.
pub open spec fn unknown_method_prefix() -> Seq<u8> {
    seq![85u8, 110u8, 107u8, 110u8, 111u8, 119u8, 110u8, 32u8, 109u8, 101u8, 116u8, 104u8, 111u8, 100u8, 58u8, 32u8]
}

/// The bytes of `Unknown method: `, as a vector.
pub fn unknown_method_prefix_vec() -> (v: Vec<u8>)
    ensures
        v@ == unknown_method_prefix(),
{
    let mut v: Vec<u8> = Vec::new();
    v.push(85);
    v.push(110);
    v.push(107);
    v.push(110);
    v.push(111);
    v.push(119);
    v.push(110);
    v.push(32);
    v.push(109);
    v.push(101);
    v.push(116);
    v.push(104);
    v.push(111);
    v.push(100);
    v.push(58);
    v.push(32);
    assert(v@ =~= unknown_method_prefix());
    v
}

/// The bytes of `Callback not found: `.
pub open spec fn callback_not_found_prefix() -> Seq<u8> {
    seq![67u8, 97u8, 108u8, 108u8, 98u8, 97u8, 99u8, 107u8, 32u8, 110u8, 111u8, 116u8, 32u8, 102u8, 111u8, 117u8, 110u8, 100u8, 58u8, 32u8]
}

/// The bytes of `Callback not found: `, as a vector.
pub fn callback_not_found_prefix_vec() -> (v: Vec<u8>)
    ensures
        v@ == callback_not_found_prefix(),
{
    let mut v: Vec<u8> = Vec::new();
    v.push(67);
    v.push(97);
    v.push(108);
    v.push(108);
    v.push(98);
    v.push(97);
    v.push(99);
    v.push(107);
    v.push(32);
    v.push(110);
    v.push(111);
    v.push(116);
    v.push(32);
    v.push(102);
    v.push(111);
    v.push(117);
    v.push(110);
    v.push(100);
    v.push(58);
    v.push(32);
    assert(v@ =~= callback_not_found_prefix());
    v
}

/// The bytes of `Callback ID missing`.
pub open spec fn callback_id_missing_msg() -> Seq<u8> {
    seq![67u8, 97u8, 108u8, 108u8, 98u8, 97u8, 99u8, 107u8, 32u8, 73u8, 68u8, 32u8, 109u8, 105u8, 115u8, 115u8, 105u8, 110u8, 103u8]
}

/// The bytes of `Callback ID missing`, as a vector.
pub fn callback_id_missing_msg_vec() -> (v: Vec<u8>)
    ensures
        v@ == callback_id_missing_msg(),
{
    let mut v: Vec<u8> = Vec::new();
    v.push(67);
    v.push(97);
    v.push(108);
    v.push(108);
    v.push(98);
    v.push(97);
    v.push(99);
    v.push(107);
    v.push(32);
    v.push(73);
    v.push(68);
    v.push(32);
    v.push(109);
    v.push(105);
    v.push(115);
    v.push(115);
    v.push(105);
    v.push(110);
    v.push(103);
    assert(v@ =~= callback_id_missing_msg());
    v
}

/// The bytes of `Not connected to AppHost`.
pub open spec fn not_connected_msg() -> Seq<u8> {
    seq![78u8, 111u8, 116u8, 32u8, 99u8, 111u8, 110u8, 110u8, 101u8, 99u8, 116u8, 101u8, 100u8, 32u8, 116u8, 111u8, 32u8, 65u8, 112u8, 112u8, 72u8, 111u8, 115u8, 116u8]
}

/// The bytes of `Not connected to AppHost`, as a vector.
pub fn not_connected_msg_vec() -> (v: Vec<u8>)
    ensures
        v@ == not_connected_msg(),
{
    let mut v: Vec<u8> = Vec::new();
    v.push(78);
    v.push(111);
    v.push(116);
    v.push(32);
    v.push(99);
    v.push(111);
    v.push(110);
    v.push(110);
    v.push(101);
    v.push(99);
    v.push(116);
    v.push(101);
    v.push(100);
    v.push(32);
    v.push(116);
    v.push(111);
    v.push(32);
    v.push(65);
    v.push(112);
    v.push(112);
    v.push(72);
    v.push(111);
    v.push(115);
    v.push(116);
    assert(v@ =~= not_connected_msg());
    v
}

/// The bytes of `Missing content-length`.
pub open spec fn missing_content_length_msg() -> Seq<u8> {
    seq![77u8, 105u8, 115u8, 115u8, 105u8, 110u8, 103u8, 32u8, 99u8, 111u8, 110u8, 116u8, 101u8, 110u8, 116u8, 45u8, 108u8, 101u8, 110u8, 103u8, 116u8, 104u8]
}

/// The bytes of `Missing content-length`, as a vector.
pub fn missing_content_length_msg_vec() -> (v: Vec<u8>)
    ensures
        v@ == missing_content_length_msg(),
{
    let mut v: Vec<u8> = Vec::new();
    v.push(77);
    v.push(105);
    v.push(115);
    v.push(115);
    v.push(105);
    v.push(110);
    v.push(103);
    v.push(32);
    v.push(99);
    v.push(111);
    v.push(110);
    v.push(116);
    v.push(101);
    v.push(110);
    v.push(116);
    v.push(45);
    v.push(108);
    v.push(101);
    v.push(110);
    v.push(103);
    v.push(116);
    v.push(104);
    assert(v@ =~= missing_content_length_msg());
    v
}

/// The bytes of `Invalid content-length`.
pub open spec fn invalid_content_length_msg() -> Seq<u8> {
    seq![73u8, 110u8, 118u8, 97u8, 108u8, 105u8, 100u8, 32u8, 99u8, 111u8, 110u8, 116u8, 101u8, 110u8, 116u8, 45u8, 108u8, 101u8, 110u8, 103u8, 116u8, 104u8]
}

/// The bytes of `Invalid content-length`, as a vector.
pub fn invalid_content_length_msg_vec() -> (v: Vec<u8>)
    ensures
        v@ == invalid_content_length_msg(),
{
    let mut v: Vec<u8> = Vec::new();
    v.push(73);
    v.push(110);
    v.push(118);
    v.push(97);
    v.push(108);
    v.push(105);
    v.push(100);
    v.push(32);
    v.push(99);
    v.push(111);
    v.push(110);
    v.push(116);
    v.push(101);
    v.push(110);
    v.push(116);
    v.push(45);
    v.push(108);
    v.push(101);
    v.push(110);
    v.push(103);
    v.push(116);
    v.push(104);
    assert(v@ =~= invalid_content_length_msg());
    v
}

/// The bytes of `Unexpected end of stream`.
pub open spec fn eof_msg() -> Seq<u8> {
    seq![85u8, 110u8, 101u8, 120u8, 112u8, 101u8, 99u8, 116u8, 101u8, 100u8, 32u8, 101u8, 110u8, 100u8, 32u8, 111u8, 102u8, 32u8, 115u8, 116u8, 114u8, 101u8, 97u8, 109u8]
}

/// The bytes of `Unexpected end of stream`, as a vector.
pub fn eof_msg_vec() -> (v: Vec<u8>)
    ensures
        v@ == eof_msg(),
{
    let mut v: Vec<u8> = Vec::new();
    v.push(85);
    v.push(110);
    v.push(101);
    v.push(120);
    v.push(112);
    v.push(101);
    v.push(99);
    v.push(116);
    v.push(101);
    v.push(100);
    v.push(32);
    v.push(101);
    v.push(110);
    v.push(100);
    v.push(32);
    v.push(111);
    v.push(102);
    v.push(32);
    v.push(115);
    v.push(116);
    v.push(114);
    v.push(101);
    v.push(97);
    v.push(109);
    assert(v@ =~= eof_msg());
    v
}

/// The bytes of `Unknown error`.
pub open spec fn unknown_error_msg() -> Seq<u8> {
    seq![85u8, 110u8, 107u8, 110u8, 111u8, 119u8, 110u8, 32u8, 101u8, 114u8, 114u8, 111u8, 114u8]
}

/// The bytes of `Unknown error`, as a vector.
pub fn unknown_error_msg_vec() -> (v: Vec<u8>)
    ensures
        v@ == unknown_error_msg(),
{
    let mut v: Vec<u8> = Vec::new();
    v.push(85);
    v.push(110);
    v.push(107);
    v.push(110);
    v.push(111);
    v.push(119);
    v.push(110);
    v.push(32);
    v.push(101);
    v.push(114);
    v.push(114);
    v.push(111);
    v.push(114);
    assert(v@ =~= unknown_error_msg());
    v
}

/// The bytes of `REMOTE_APP_HOST_SOCKET_PATH`.
pub open spec fn socket_path_env_var() -> Seq<u8> {
    seq![82u8, 69u8, 77u8, 79u8, 84u8, 69u8, 95u8, 65u8, 80u8, 80u8, 95u8, 72u8, 79u8, 83u8, 84u8, 95u8, 83u8, 79u8, 67u8, 75u8, 69u8, 84u8, 95u8, 80u8, 65u8, 84u8, 72u8]
}

/// The bytes of `REMOTE_APP_HOST_SOCKET_PATH`, as a vector.
pub fn socket_path_env_var_vec() -> (v: Vec<u8>)
    ensures
        v@ == socket_path_env_var(),
{
    let mut v: Vec<u8> = Vec::new();
    v.push(82);
    v.push(69);
    v.push(77);
    v.push(79);
    v.push(84);
    v.push(69);
    v.push(95);
    v.push(65);
    v.push(80);
    v.push(80);
    v.push(95);
    v.push(72);
    v.push(79);
    v.push(83);
    v.push(84);
    v.push(95);
    v.push(83);
    v.push(79);
    v.push(67);
    v.push(75);
    v.push(69);
    v.push(84);
    v.push(95);
    v.push(80);
    v.push(65);
    v.push(84);
    v.push(72);
    assert(v@ =~= socket_path_env_var());
    v
}

/// The bytes of `REMOTE_APP_HOST_SOCKET_PATH environment variable not set. Run this application using `aspire run``.
pub open spec fn env_not_set_msg() -> Seq<u8> {
    socket_path_env_var() + seq![32u8, 101u8, 110u8, 118u8, 105u8, 114u8, 111u8, 110u8, 109u8, 101u8, 110u8, 116u8, 32u8, 118u8, 97u8, 114u8, 105u8, 97u8, 98u8, 108u8, 101u8, 32u8, 110u8, 111u8, 116u8, 32u8, 115u8, 101u8, 116u8, 46u8, 32u8, 82u8, 117u8, 110u8, 32u8, 116u8, 104u8, 105u8, 115u8, 32u8, 97u8, 112u8, 112u8, 108u8, 105u8, 99u8, 97u8, 116u8, 105u8, 111u8, 110u8, 32u8, 117u8, 115u8, 105u8, 110u8, 103u8, 32u8, 96u8, 97u8, 115u8, 112u8, 105u8, 114u8, 101u8, 32u8, 114u8, 117u8, 110u8, 96u8]
}

/// The bytes of `REMOTE_APP_HOST_SOCKET_PATH environment variable not set. Run this application using `aspire run``, as a vector.
#[verifier::rlimit(50)]
pub fn env_not_set_msg_vec() -> (v: Vec<u8>)
    ensures
        v@ == env_not_set_msg(),
{
    let mut v: Vec<u8> = socket_path_env_var_vec();
    v.push(32);
    v.push(101);
    v.push(110);
    v.push(118);
    v.push(105);
    v.push(114);
    v.push(111);
    v.push(110);
    v.push(109);
    v.push(101);
    v.push(110);
    v.push(116);
    v.push(32);
    v.push(118);
    v.push(97);
    v.push(114);
    v.push(105);
    v.push(97);
    v.push(98);
    v.push(108);
    v.push(101);
    v.push(32);
    v.push(110);
    v.push(111);
    v.push(116);
    v.push(32);
    v.push(115);
    v.push(101);
    v.push(116);
    v.push(46);
    v.push(32);
    v.push(82);
    v.push(117);
    v.push(110);
    v.push(32);
    v.push(116);
    v.push(104);
    v.push(105);
    v.push(115);
    v.push(32);
    v.push(97);
    v.push(112);
    v.push(112);
    v.push(108);
    v.push(105);
    v.push(99);
    v.push(97);
    v.push(116);
    v.push(105);
    v.push(111);
    v.push(110);
    v.push(32);
    v.push(117);
    v.push(115);
    v.push(105);
    v.push(110);
    v.push(103);
    v.push(32);
    v.push(96);
    v.push(97);
    v.push(115);
    v.push(112);
    v.push(105);
    v.push(114);
    v.push(101);
    v.push(32);
    v.push(114);
    v.push(117);
    v.push(110);
    v.push(96);
    assert(v@ =~= env_not_set_msg());
    v
}

/// The bytes of `\\\\.\\pipe\\`.
pub open spec fn pipe_path_prefix() -> Seq<u8> {
    seq![92u8, 92u8, 46u8, 92u8, 112u8, 105u8, 112u8, 101u8, 92u8]
}

/// The bytes of `\\\\.\\pipe\\`, as a vector.
pub fn pipe_path_prefix_vec() -> (v: Vec<u8>)
    ensures
        v@ == pipe_path_prefix(),
{
    let mut v: Vec<u8> = Vec::new();
    v.push(92);
    v.push(92);
    v.push(46);
    v.push(92);
    v.push(112);
    v.push(105);
    v.push(112);
    v.push(101);
    v.push(92);
    assert(v@ =~= pipe_path_prefix());
    v
}

/// The bytes of `Args`.
pub open spec fn args_field() -> Seq<u8> {
    seq![65u8, 114u8, 103u8, 115u8]
}

/// The bytes of `Args`, as a vector.
pub fn args_field_vec() -> (v: Vec<u8>)
    ensures
        v@ == args_field(),
{
    let mut v: Vec<u8> = Vec::new();
    v.push(65);
    v.push(114);
    v.push(103);
    v.push(115);
    assert(v@ =~= args_field());
    v
}

/// The bytes of `ProjectDirectory`.
pub open spec fn project_directory_field() -> Seq<u8> {
    seq![80u8, 114u8, 111u8, 106u8, 101u8, 99u8, 116u8, 68u8, 105u8, 114u8, 101u8, 99u8, 116u8, 111u8, 114u8, 121u8]
}

/// The bytes of `ProjectDirectory`, as a vector.
pub fn project_directory_field_vec() -> (v: Vec<u8>)
    ensures
        v@ == project_directory_field(),
{
    let mut v: Vec<u8> = Vec::new();
    v.push(80);
    v.push(114);
    v.push(111);
    v.push(106);
    v.push(101);
    v.push(99);
    v.push(116);
    v.push(68);
    v.push(105);
    v.push(114);
    v.push(101);
    v.push(99);
    v.push(116);
    v.push(111);
    v.push(114);
    v.push(121);
    assert(v@ =~= project_directory_field());
    v
}

} // verus!
