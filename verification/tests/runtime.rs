use aspire_ats::base::{serialize_handle, serialize_value, HandleWrapperBase, HasHandle, ResourceBuilderBase, ToJson};
use aspire_ats::bootstrap::{builder_options_with_defaults, pipe_path_for, socket_path_from_env};
use aspire_ats::cancel::{register_cancellation, CancellationToken, TokenIdFactory};
use aspire_ats::client::ClientCore;
use aspire_ats::errors::AtsError;
use aspire_ats::handle::{
    handle_from_json, is_ats_error, is_marshalled_handle, ref_expr, ref_expr_from_json, Handle,
    ReferenceExpression,
};
use aspire_ats::json::Json;
use aspire_ats::lazy::{AspireDict, AspireList};
use aspire_ats::parse::parse_json;
use aspire_ats::registry::{
    register_callback, register_handle_wrapper, unregister_callback, wrap_if_handle,
    CallbackRegistry, HandleWrapperRegistry,
};
use aspire_ats::rpc::{
    build_callback_not_found_reply, build_result_reply, build_unknown_method_reply, bool_result,
    classify, decode_reverse, positional_args, shape_result, ReverseKind, Step,
};
use aspire_ats::ser::to_bytes;

fn rb(s: &str) -> Vec<u8> {
    s.as_bytes().to_vec()
}

fn rjson(s: &str) -> Json {
    parse_json(&rb(s)).expect("document should parse")
}

fn rser(j: &Json) -> String {
    String::from_utf8(to_bytes(j)).expect("serializer output should be UTF-8")
}

#[test]
fn marshalled_handle_test_needs_both_keys() {
    assert!(is_marshalled_handle(&rjson("{\"$handle\":\"h1\",\"$type\":\"T\"}")));
    assert!(is_marshalled_handle(&rjson("{\"$type\":\"T\",\"$handle\":\"h1\",\"x\":1}")));
    // both keys are required, whatever their values
    assert!(is_marshalled_handle(&rjson("{\"$handle\":1,\"$type\":null}")));
    assert!(!is_marshalled_handle(&rjson("{\"$handle\":\"h1\"}")));
    assert!(!is_marshalled_handle(&rjson("{\"$type\":\"T\"}")));
    assert!(!is_marshalled_handle(&rjson("\"$handle\"")));
    assert!(!is_marshalled_handle(&rjson("null")));
}

#[test]
fn handle_encodes_and_decodes_back() {
    let h = Handle::new(rb("h1"), rb("T"));
    let j = h.to_json();
    assert_eq!(rser(&j), "{\"$handle\":\"h1\",\"$type\":\"T\"}");
    let back = handle_from_json(&j).expect("a handle's wire form decodes");
    assert_eq!(back.handle_id, rb("h1"));
    assert_eq!(back.type_id, rb("T"));
}

#[test]
fn handle_decode_rejects_bad_shapes() {
    assert!(handle_from_json(&rjson("{\"$handle\":\"\",\"$type\":\"T\"}")).is_none());
    assert!(handle_from_json(&rjson("{\"$handle\":1,\"$type\":\"T\"}")).is_none());
    assert!(handle_from_json(&rjson("{\"$handle\":\"h\"}")).is_none());
    assert!(handle_from_json(&rjson("[]")).is_none());
}

#[test]
fn ref_expr_encodes_and_decodes_back() {
    let e = ref_expr(rb("{0}:{1}"), vec![Json::Int(1), Json::Str(rb("x"))]);
    let j = e.to_json();
    assert_eq!(rser(&j), "{\"$refExpr\":{\"format\":\"{0}:{1}\",\"args\":[1,\"x\"]}}");
    let back = ref_expr_from_json(&j).expect("a reference expression's wire form decodes");
    assert_eq!(back.format, rb("{0}:{1}"));
    assert_eq!(back.args.len(), 2);
    assert_eq!(rser(&back.args[0]), "1");
    assert_eq!(rser(&back.args[1]), "\"x\"");
}

#[test]
fn ref_expr_to_json_trait_matches_inherent() {
    let e = ReferenceExpression::new(rb("f"), vec![]);
    let via_trait: Json = ToJson::to_json(&e);
    assert_eq!(to_bytes(&via_trait), to_bytes(&e.to_json()));
}

#[test]
fn client_assigns_monotonic_ids_and_frames_one_request() {
    let mut core: ClientCore<()> = ClientCore::new(rb("/tmp/sock"));
    assert!(core.connect_needed());
    core.mark_connected();
    assert!(!core.connect_needed());
    let call = core
        .start_invoke_capability(&rb("Svc/op"), vec![(rb("name"), Json::Str(rb("v")))])
        .expect("a connected client starts a call");
    assert_eq!(call.id, 1);
    assert_eq!(
        call.frame,
        rb("Content-Length: 85\r\n\r\n{\"jsonrpc\":\"2.0\",\"id\":1,\"method\":\"invokeCapability\",\"params\":[\"Svc/op\",{\"name\":\"v\"}]}")
    );
    let second = core
        .start_invoke_capability(&rb("Svc/op"), vec![])
        .expect("a connected client starts a call");
    assert_eq!(second.id, 2);
}

#[test]
fn connect_is_idempotent() {
    let mut core: ClientCore<()> = ClientCore::new(rb("/tmp/sock"));
    core.mark_connected();
    assert!(!core.connect_needed());
    core.mark_connected();
    assert!(!core.connect_needed());
    assert!(core.is_connected());
}

#[test]
fn invoke_on_disconnected_client_is_a_protocol_error() {
    let mut core: ClientCore<()> = ClientCore::new(rb("/tmp/sock"));
    let err = core
        .start_invoke_capability(&rb("Svc/op"), vec![])
        .expect_err("a disconnected client cannot start a call");
    match &err {
        AtsError::Protocol { message } => assert_eq!(message, &rb("Not connected to AppHost")),
        _ => panic!("expected a protocol error"),
    }
}

#[test]
fn disconnect_fires_once_per_transition() {
    let mut core: ClientCore<u32> = ClientCore::new(rb("/tmp/sock"));
    core.on_disconnect(7);
    core.on_disconnect(8);
    core.mark_connected();
    assert!(core.disconnect());
    assert_eq!(core.listeners().as_slice(), &[7, 8]);
    // already disconnected: no transition, listeners must not fire again
    assert!(!core.disconnect());
}

#[test]
fn cancel_token_request_carries_the_token_id() {
    let mut core: ClientCore<()> = ClientCore::new(rb("/tmp/sock"));
    core.mark_connected();
    let call = core.start_cancel_token(&rb("ct_0")).expect("connected");
    assert_eq!(
        call.frame,
        rb("Content-Length: 65\r\n\r\n{\"jsonrpc\":\"2.0\",\"id\":1,\"method\":\"cancelToken\",\"params\":[\"ct_0\"]}")
    );
    assert!(bool_result(&Json::Bool(true)));
    assert!(!bool_result(&Json::Bool(false)));
    assert!(!bool_result(&Json::Null));
    assert!(!bool_result(&Json::Int(1)));
}

#[test]
fn classify_returns_matching_result() {
    let msg = rjson("{\"jsonrpc\":\"2.0\",\"id\":1,\"result\":{\"$handle\":\"h1\",\"$type\":\"T\"}}");
    match classify(&msg, 1) {
        Step::Completed(Ok(v)) => {
            let h = handle_from_json(&v).expect("the result is a handle");
            assert_eq!(h.handle_id, rb("h1"));
            assert_eq!(h.type_id, rb("T"));
        }
        _ => panic!("expected the completed response"),
    }
}

#[test]
fn classify_returns_null_for_missing_result() {
    let msg = rjson("{\"jsonrpc\":\"2.0\",\"id\":1}");
    match classify(&msg, 1) {
        Step::Completed(Ok(v)) => assert_eq!(rser(&v), "null"),
        _ => panic!("expected the completed response"),
    }
}

#[test]
fn classify_fails_on_rpc_error_member() {
    let msg = rjson("{\"jsonrpc\":\"2.0\",\"id\":1,\"error\":{\"code\":-32700,\"message\":\"bad\"}}");
    match classify(&msg, 1) {
        Step::Completed(Err(AtsError::Protocol { message })) => assert_eq!(message, rb("bad")),
        _ => panic!("expected a protocol error"),
    }
    let no_msg = rjson("{\"jsonrpc\":\"2.0\",\"id\":1,\"error\":{}}");
    match classify(&no_msg, 1) {
        Step::Completed(Err(AtsError::Protocol { message })) => {
            assert_eq!(message, rb("Unknown error"))
        }
        _ => panic!("expected a protocol error"),
    }
}

#[test]
fn classify_passes_over_unrelated_messages() {
    let other_id = rjson("{\"jsonrpc\":\"2.0\",\"id\":99,\"result\":1}");
    assert!(matches!(classify(&other_id, 1), Step::Ignored));
    let no_id = rjson("{\"jsonrpc\":\"2.0\"}");
    assert!(matches!(classify(&no_id, 1), Step::Ignored));
    let reverse = rjson("{\"jsonrpc\":\"2.0\",\"id\":99,\"method\":\"invokeCallback\"}");
    assert!(matches!(classify(&reverse, 1), Step::Reverse));
}

#[test]
fn reverse_callback_computes_and_replies_with_inbound_id() {
    // mid-call, the server asks for cb_7 with p0 = 42 and p1 = "x"
    let msg = rjson(
        "{\"jsonrpc\":\"2.0\",\"id\":99,\"method\":\"invokeCallback\",\"params\":[\"cb_7\",{\"p0\":42,\"p1\":\"x\"}]}",
    );
    let req = decode_reverse(&msg);
    let (callback_id, args) = match req.kind {
        ReverseKind::InvokeCallback { callback_id, args } => (callback_id, args),
        _ => panic!("expected an invokeCallback request"),
    };
    assert_eq!(callback_id, rb("cb_7"));
    let positional = positional_args(&args);
    assert_eq!(positional.len(), 2);
    // the callback computes args[0] + len(args[1])
    let a = match &positional[0] {
        Json::Int(n) => *n,
        _ => panic!("expected a number"),
    };
    let b = match &positional[1] {
        Json::Str(s) => s.len() as i64,
        _ => panic!("expected a string"),
    };
    let reply = build_result_reply(req.reply_id.expect("the request has an id"), Json::Int(a + b));
    assert_eq!(rser(&reply), "{\"jsonrpc\":\"2.0\",\"id\":99,\"result\":43}");
}

#[test]
fn raw_number_payloads_flow_through_calls() {
    // a capability result full of non-integer numbers is returned intact
    let msg = rjson(
        "{\"jsonrpc\":\"2.0\",\"id\":1,\"result\":{\"port\":80.5,\"timeout\":1e3}}",
    );
    match classify(&msg, 1) {
        Step::Completed(Ok(v)) => {
            let out = shape_result(v).expect("no error envelope");
            assert_eq!(rser(&out), "{\"port\":80.5,\"timeout\":1e3}");
        }
        _ => panic!("expected the completed response"),
    }
    // reverse-request arguments carry them too
    let rev = rjson(
        "{\"jsonrpc\":\"2.0\",\"id\":9,\"method\":\"invokeCallback\",\"params\":[\"cb\",{\"p0\":2.5}]}",
    );
    let req = decode_reverse(&rev);
    match req.kind {
        ReverseKind::InvokeCallback { args, .. } => {
            let positional = positional_args(&args);
            assert_eq!(positional.len(), 1);
            assert_eq!(rser(&positional[0]), "2.5");
        }
        _ => panic!("expected an invokeCallback request"),
    }
}

#[test]
fn positional_args_stop_at_first_gap() {
    let dense = rjson("{\"p0\":1,\"p1\":2,\"p2\":3}");
    assert_eq!(positional_args(&dense).len(), 3);
    let sparse = rjson("{\"p0\":1,\"p2\":3}");
    assert_eq!(positional_args(&sparse).len(), 1);
    let unrelated = rjson("{\"q0\":1}");
    assert_eq!(positional_args(&unrelated).len(), 0);
    assert_eq!(positional_args(&Json::Null).len(), 0);
    let single = positional_args(&Json::Int(5));
    assert_eq!(single.len(), 1);
    assert_eq!(rser(&single[0]), "5");
}

#[test]
fn unknown_reverse_method_gets_32601() {
    let msg = rjson("{\"jsonrpc\":\"2.0\",\"id\":5,\"method\":\"somethingElse\"}");
    let req = decode_reverse(&msg);
    let method = match req.kind {
        ReverseKind::UnknownMethod { method } => method,
        _ => panic!("expected an unknown method"),
    };
    assert_eq!(method, rb("somethingElse"));
    let reply = build_unknown_method_reply(req.reply_id.expect("id"), &method);
    assert_eq!(
        rser(&reply),
        "{\"jsonrpc\":\"2.0\",\"id\":5,\"error\":{\"code\":-32601,\"message\":\"Unknown method: somethingElse\"}}"
    );
}

#[test]
fn unknown_callback_id_gets_32000() {
    let registry: CallbackRegistry<u32> = CallbackRegistry::new();
    let id = rb("callback_0");
    assert!(registry.lookup(&id).is_none());
    let reply = build_callback_not_found_reply(Json::Int(3), &id);
    assert_eq!(
        rser(&reply),
        "{\"jsonrpc\":\"2.0\",\"id\":3,\"error\":{\"code\":-32000,\"message\":\"Callback not found: callback_0\"}}"
    );
}

#[test]
fn capability_error_envelope_is_extracted() {
    let result =
        rjson("{\"$error\":{\"code\":\"HANDLE_NOT_FOUND\",\"message\":\"bad\",\"capability\":\"X/op\"}}");
    let err = shape_result(result).expect_err("an error envelope fails the call");
    assert_eq!(err.code, rb("HANDLE_NOT_FOUND"));
    assert_eq!(err.message, rb("bad"));
    assert_eq!(err.capability, Some(rb("X/op")));
}

#[test]
fn capability_error_without_capability_member() {
    let result = rjson("{\"$error\":{\"code\":\"INTERNAL_ERROR\",\"message\":\"m\"}}");
    let err = shape_result(result).expect_err("an error envelope fails the call");
    assert_eq!(err.code, rb("INTERNAL_ERROR"));
    assert_eq!(err.capability, None);
}

#[test]
fn plain_results_pass_through_unchanged() {
    let result = rjson("{\"value\":7}");
    let bytes = to_bytes(&result);
    let out = shape_result(result).expect("a plain result passes through");
    assert_eq!(to_bytes(&out), bytes);
    // a non-object $error member is not the envelope and passes through
    let odd = rjson("{\"$error\":\"text\"}");
    assert!(is_ats_error(&odd));
    assert!(shape_result(odd).is_ok());
}

#[test]
fn callback_registry_issues_fresh_ids() {
    let mut registry: CallbackRegistry<u32> = CallbackRegistry::new();
    let id0 = register_callback(&mut registry, 10);
    let id1 = register_callback(&mut registry, 11);
    assert_eq!(id0, rb("callback_0"));
    assert_eq!(id1, rb("callback_1"));
    assert_eq!(registry.lookup(&id0), Some(&10));
    assert_eq!(registry.lookup(&id1), Some(&11));
    assert!(registry.lookup(&rb("callback_2")).is_none());
    assert!(registry.lookup(&rb("nonsense")).is_none());
}

#[test]
fn unregistered_ids_never_come_back() {
    let mut registry: CallbackRegistry<u32> = CallbackRegistry::new();
    let id0 = register_callback(&mut registry, 10);
    assert!(unregister_callback(&mut registry, &id0));
    assert!(registry.lookup(&id0).is_none());
    assert!(!unregister_callback(&mut registry, &id0));
    // the freed id string is not reissued
    let id1 = register_callback(&mut registry, 12);
    assert_ne!(id0, id1);
    assert_eq!(id1, rb("callback_1"));
}

#[test]
fn cancellation_transitions_once_and_drains_in_order() {
    let mut token: CancellationToken<u32> = CancellationToken::new_local();
    assert!(!token.is_cancelled());
    assert_eq!(token.register(1), None);
    assert_eq!(token.register(2), None);
    let first = token.cancel();
    assert_eq!(first, vec![1, 2]);
    assert!(token.is_cancelled());
    // cancelling twice has the same observable effect as once
    let second = token.cancel();
    assert!(second.is_empty());
    assert!(token.is_cancelled());
    // registering on a cancelled token runs the continuation at once
    assert_eq!(token.register(3), Some(3));
}

#[test]
fn handle_backed_token_keeps_its_handle() {
    let h = Handle::new(rb("h9"), rb("CancellationToken"));
    let token: CancellationToken<u32> = CancellationToken::new(h);
    let held = token.handle().expect("handle-backed token");
    assert_eq!(held.handle_id, rb("h9"));
    let local: CancellationToken<u32> = CancellationToken::new_local();
    assert!(local.handle().is_none());
}

#[test]
fn register_cancellation_issues_token_ids() {
    let mut ids = TokenIdFactory::new();
    let mut token: CancellationToken<u32> = CancellationToken::new_local();
    let (id, run_now) = register_cancellation(&mut token, &mut ids, 41);
    assert_eq!(id, rb("ct_0"));
    assert!(run_now.is_none());
    let (id2, _) = register_cancellation(&mut token, &mut ids, 42);
    assert_eq!(id2, rb("ct_1"));
    // the token fires: both continuations come out, in order
    assert_eq!(token.cancel(), vec![41, 42]);
    // a token that is already cancelled hands the continuation back
    let (_, run_now) = register_cancellation(&mut token, &mut ids, 43);
    assert_eq!(run_now, Some(43));
}

#[test]
fn lazy_list_resolves_at_most_once() {
    let ctx = Handle::new(rb("ctx"), rb("List"));
    let mut list: AspireList<u32> = AspireList::with_getter(ctx, rb("Svc/getList"));
    let (getter, args) = list.resolution_request().expect("unresolved list asks the getter");
    assert_eq!(getter, rb("Svc/getList"));
    assert_eq!(args.len(), 1);
    assert_eq!(args[0].0, rb("context"));
    assert_eq!(rser(&args[0].1), "{\"$handle\":\"ctx\",\"$type\":\"List\"}");
    // the getter answered with a handle: it is cached
    list.complete_resolution(Some(rjson("{\"$handle\":\"resolved\",\"$type\":\"List\"}")));
    assert_eq!(list.handle().handle_id, rb("resolved"));
    // the second access asks no getter: exactly one invocation ever
    assert!(list.resolution_request().is_none());
    assert_eq!(list.handle().handle_id, rb("resolved"));
}

#[test]
fn lazy_list_falls_back_to_context() {
    let ctx = Handle::new(rb("ctx"), rb("List"));
    let mut list: AspireList<u32> = AspireList::with_getter(ctx, rb("Svc/getList"));
    // the getter failed: the context handle is cached
    list.complete_resolution(None);
    assert_eq!(list.handle().handle_id, rb("ctx"));
    assert!(list.resolution_request().is_none());
    // a non-handle result also falls back
    let ctx2 = Handle::new(rb("ctx2"), rb("List"));
    let mut list2: AspireList<u32> = AspireList::with_getter(ctx2, rb("g"));
    list2.complete_resolution(Some(Json::Int(3)));
    assert_eq!(list2.handle().handle_id, rb("ctx2"));
}

#[test]
fn lazy_list_with_known_handle_never_asks() {
    let h = Handle::new(rb("known"), rb("List"));
    let list: AspireList<u32> = AspireList::new(h);
    assert!(list.resolution_request().is_none());
    assert_eq!(list.handle().handle_id, rb("known"));
}

#[test]
fn lazy_dict_behaves_like_the_list() {
    let ctx = Handle::new(rb("dctx"), rb("Dict"));
    let mut dict: AspireDict<u32, u32> = AspireDict::with_getter(ctx, rb("Svc/getDict"));
    let (getter, _) = dict.resolution_request().expect("unresolved dict asks the getter");
    assert_eq!(getter, rb("Svc/getDict"));
    dict.complete_resolution(Some(rjson("{\"$handle\":\"dh\",\"$type\":\"Dict\"}")));
    assert_eq!(dict.handle().handle_id, rb("dh"));
    assert!(dict.resolution_request().is_none());
    let known: AspireDict<u32, u32> = AspireDict::new(Handle::new(rb("k"), rb("Dict")));
    assert!(known.resolution_request().is_none());
}

#[test]
fn wrapper_bases_expose_handle_and_client() {
    let base = HandleWrapperBase::new(Handle::new(rb("h"), rb("T")), 5u32);
    assert_eq!(base.handle().handle_id, rb("h"));
    // client() returns the constructor's client, unmodified
    assert_eq!(*base.client(), 5);
    assert_eq!(rser(&serialize_handle(&base)), "{\"$handle\":\"h\",\"$type\":\"T\"}");
    let builder = ResourceBuilderBase::new(Handle::new(rb("b"), rb("B")), 6u32);
    assert_eq!(builder.handle().type_id, rb("B"));
    assert_eq!(*builder.client(), 6);
    let v = rjson("[1,2]");
    assert_eq!(rser(&serialize_value(&v)), "[1,2]");
    assert_eq!(rser(&wrap_if_handle(rjson("{\"$handle\":\"h\",\"$type\":\"T\"}"))),
        "{\"$handle\":\"h\",\"$type\":\"T\"}");
}

#[test]
fn handle_wrapper_registry_binds_factories() {
    let mut registry: HandleWrapperRegistry<u32> = HandleWrapperRegistry::new();
    register_handle_wrapper(&mut registry, rb("T"), 1);
    register_handle_wrapper(&mut registry, rb("U"), 2);
    assert_eq!(registry.lookup(&rb("T")), Some(&1));
    assert_eq!(registry.lookup(&rb("U")), Some(&2));
    assert!(registry.lookup(&rb("V")).is_none());
    // a repeated registration for a type replaces the earlier factory
    register_handle_wrapper(&mut registry, rb("T"), 3);
    assert_eq!(registry.lookup(&rb("T")), Some(&3));
    assert_eq!(registry.lookup(&rb("U")), Some(&2));
}

#[test]
fn registries_report_how_many_ids_they_issued() {
    let mut registry: CallbackRegistry<u32> = CallbackRegistry::new();
    assert_eq!(registry.issued(), 0);
    let _ = register_callback(&mut registry, 1);
    assert_eq!(registry.issued(), 1);
    let mut ids = TokenIdFactory::new();
    assert_eq!(ids.issued(), 0);
    let _ = ids.fresh_id();
    assert_eq!(ids.issued(), 1);
}

#[test]
fn missing_socket_path_is_a_config_error() {
    let err = socket_path_from_env(None).expect_err("an unset variable is fatal");
    match &err {
        AtsError::Config { message } => {
            let text = String::from_utf8(message.clone()).unwrap();
            assert!(text.contains("REMOTE_APP_HOST_SOCKET_PATH"));
            assert!(text.contains("aspire run"));
        }
        _ => panic!("expected a config error"),
    }
    let ok = socket_path_from_env(Some(rb("/tmp/x.sock"))).expect("a set variable is used");
    assert_eq!(ok, rb("/tmp/x.sock"));
}

#[test]
fn pipe_path_uses_the_basename() {
    assert_eq!(pipe_path_for(&rb("/tmp/run/host.sock")), rb("\\\\.\\pipe\\host.sock"));
    assert_eq!(pipe_path_for(&rb("C:\\temp\\host")), rb("\\\\.\\pipe\\host"));
    assert_eq!(pipe_path_for(&rb("bare")), rb("\\\\.\\pipe\\bare"));
    // an empty last component falls back to the whole path
    assert_eq!(pipe_path_for(&rb("dir/")), rb("\\\\.\\pipe\\dir/"));
}

#[test]
fn builder_options_get_defaults_only_when_missing() {
    let given = vec![(rb("Args"), rjson("[\"--x\"]"))];
    let out = builder_options_with_defaults(given, rjson("[\"a\"]"), Some(Json::Str(rb("/proj"))));
    assert_eq!(out.len(), 2);
    assert_eq!(out[0].0, rb("Args"));
    assert_eq!(rser(&out[0].1), "[\"--x\"]");
    assert_eq!(out[1].0, rb("ProjectDirectory"));
    assert_eq!(rser(&out[1].1), "\"/proj\"");

    let none_given = builder_options_with_defaults(vec![], rjson("[\"a\"]"), None);
    assert_eq!(none_given.len(), 1);
    assert_eq!(none_given[0].0, rb("Args"));
    assert_eq!(rser(&none_given[0].1), "[\"a\"]");
}

#[test]
fn default_values_are_empty_and_local() {
    let h = Handle::default();
    assert!(h.handle_id.is_empty());
    assert!(h.type_id.is_empty());
    let t: CancellationToken<u32> = CancellationToken::default();
    assert!(!t.is_cancelled());
    assert!(t.handle().is_none());
}

#[test]
fn error_code_names_spell_themselves() {
    assert_eq!(aspire_ats::ats_error_codes::CAPABILITY_NOT_FOUND, "CAPABILITY_NOT_FOUND");
    assert_eq!(aspire_ats::ats_error_codes::HANDLE_NOT_FOUND, "HANDLE_NOT_FOUND");
    assert_eq!(aspire_ats::ats_error_codes::TYPE_MISMATCH, "TYPE_MISMATCH");
    assert_eq!(aspire_ats::ats_error_codes::INVALID_ARGUMENT, "INVALID_ARGUMENT");
    assert_eq!(aspire_ats::ats_error_codes::ARGUMENT_OUT_OF_RANGE, "ARGUMENT_OUT_OF_RANGE");
    assert_eq!(aspire_ats::ats_error_codes::CALLBACK_ERROR, "CALLBACK_ERROR");
    assert_eq!(aspire_ats::ats_error_codes::INTERNAL_ERROR, "INTERNAL_ERROR");
}
