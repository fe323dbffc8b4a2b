use aspire_ats::digits::{parse_u64_to_end, render_u64, scan_u64};
use aspire_ats::frame::{decode_frame, frame_message, FrameStep};
use aspire_ats::json::{bytes_eq, clone_bytes, Json};
use aspire_ats::parse::parse_json;
use aspire_ats::ser::to_bytes;

fn cb(s: &str) -> Vec<u8> {
    s.as_bytes().to_vec()
}

fn cjson(s: &str) -> Json {
    parse_json(&cb(s)).expect("document should parse")
}

fn cser(j: &Json) -> String {
    String::from_utf8(to_bytes(j)).expect("serializer output should be UTF-8")
}

#[test]
fn render_and_read_digits() {
    assert_eq!(render_u64(0), cb("0"));
    assert_eq!(render_u64(7), cb("7"));
    assert_eq!(render_u64(1234567890), cb("1234567890"));
    assert_eq!(render_u64(u64::MAX), cb("18446744073709551615"));
    assert_eq!(parse_u64_to_end(&cb("0"), 0), Some(0));
    assert_eq!(parse_u64_to_end(&cb("18446744073709551615"), 0), Some(u64::MAX));
    assert_eq!(parse_u64_to_end(&cb("18446744073709551616"), 0), None);
    assert_eq!(parse_u64_to_end(&cb("12x"), 0), None);
    assert_eq!(parse_u64_to_end(&cb(""), 0), None);
    assert_eq!(scan_u64(&cb("42,"), 0), (Some(42), 2));
}

#[test]
fn bytes_helpers() {
    let a = cb("abc");
    assert!(bytes_eq(&a, &clone_bytes(&a)));
    assert!(!bytes_eq(&a, &cb("abd")));
    assert!(!bytes_eq(&a, &cb("ab")));
}

#[test]
fn serialize_scalars() {
    assert_eq!(cser(&Json::Null), "null");
    assert_eq!(cser(&Json::Bool(true)), "true");
    assert_eq!(cser(&Json::Bool(false)), "false");
    assert_eq!(cser(&Json::Int(0)), "0");
    assert_eq!(cser(&Json::Int(-42)), "-42");
    assert_eq!(cser(&Json::Int(i64::MIN)), "-9223372036854775808");
    assert_eq!(cser(&Json::Int(i64::MAX)), "9223372036854775807");
}

#[test]
fn serialize_strings_and_escapes() {
    assert_eq!(cser(&Json::Str(cb("hello"))), "\"hello\"");
    assert_eq!(cser(&Json::Str(cb("a\"b\\c"))), "\"a\\\"b\\\\c\"");
    assert_eq!(cser(&Json::Str(vec![10, 9, 1])), "\"\\u000a\\u0009\\u0001\"");
    // non-ASCII UTF-8 bytes pass through unescaped
    assert_eq!(cser(&Json::Str("é".as_bytes().to_vec())), "\"é\"");
}

#[test]
fn serialize_collections() {
    let arr = Json::Arr(vec![Json::Int(1), Json::Null, Json::Str(cb("x"))]);
    assert_eq!(cser(&arr), "[1,null,\"x\"]");
    let obj = Json::Obj(vec![(cb("a"), Json::Int(1)), (cb("b"), Json::Arr(vec![]))]);
    assert_eq!(cser(&obj), "{\"a\":1,\"b\":[]}");
    assert_eq!(cser(&Json::Arr(vec![])), "[]");
    assert_eq!(cser(&Json::Obj(vec![])), "{}");
}

#[test]
fn parse_scalars() {
    assert_eq!(cser(&cjson("null")), "null");
    assert_eq!(cser(&cjson(" true ")), "true");
    assert_eq!(cser(&cjson("false")), "false");
    assert_eq!(cser(&cjson("42")), "42");
    assert_eq!(cser(&cjson("-17")), "-17");
    assert_eq!(cser(&cjson("-9223372036854775808")), "-9223372036854775808");
    assert_eq!(cser(&cjson("9223372036854775807")), "9223372036854775807");
}

#[test]
fn parse_strings() {
    assert_eq!(cser(&cjson("\"hi\"")), "\"hi\"");
    assert_eq!(cser(&cjson("\"a\\\"b\\\\c\\/d\"")), "\"a\\\"b\\\\c/d\"");
    // short escapes decode to their control bytes and re-encode as \u00XX
    assert_eq!(cser(&cjson("\"\\n\\t\\r\\b\\f\"")), "\"\\u000a\\u0009\\u000d\\u0008\\u000c\"");
    // \uXXXX escapes decode to the UTF-8 bytes of the code unit
    assert_eq!(cser(&cjson("\"\\u00e9\"")), "\"é\"");
    assert_eq!(cser(&cjson("\"\\u0041\"")), "\"A\"");
    let euro = cjson("\"\\u20ac\"");
    match &euro {
        Json::Str(s) => assert_eq!(s.as_slice(), "€".as_bytes()),
        _ => panic!("expected a string"),
    }
}

#[test]
fn parse_collections_and_whitespace() {
    assert_eq!(cser(&cjson("[]")), "[]");
    assert_eq!(cser(&cjson("[ ]")), "[]");
    assert_eq!(cser(&cjson("{ }")), "{}");
    assert_eq!(cser(&cjson(" [ 1 , [2, {\"k\" : null}] ] ")), "[1,[2,{\"k\":null}]]");
    assert_eq!(
        cser(&cjson("{\"a\": 1, \"b\": [true, false], \"c\": {\"d\": \"e\"}}")),
        "{\"a\":1,\"b\":[true,false],\"c\":{\"d\":\"e\"}}"
    );
}

#[test]
fn parse_rejects_malformed_documents() {
    assert!(parse_json(&cb("")).is_none());
    assert!(parse_json(&cb("nul")).is_none());
    assert!(parse_json(&cb("tru")).is_none());
    assert!(parse_json(&cb("[1,]")).is_none());
    assert!(parse_json(&cb("[1 2]")).is_none());
    assert!(parse_json(&cb("{\"a\" 1}")).is_none());
    assert!(parse_json(&cb("{\"a\":1")).is_none());
    assert!(parse_json(&cb("\"unterminated")).is_none());
    assert!(parse_json(&cb("\"bad \\x escape\"")).is_none());
    assert!(parse_json(&cb("1 2")).is_none());
    assert!(parse_json(&cb("-")).is_none());
    assert!(parse_json(&cb("-x")).is_none());
    // a raw control byte inside a string is rejected
    assert!(parse_json(&vec![34, 7, 34]).is_none());
}

#[test]
fn parse_serialize_round_trip() {
    for doc in [
        "null",
        "true",
        "-123",
        "\"some text\"",
        "[1,2,3]",
        "{\"$handle\":\"h1\",\"$type\":\"T\"}",
        "{\"jsonrpc\":\"2.0\",\"id\":1,\"result\":{\"$error\":{\"code\":\"X\",\"message\":\"m\"}}}",
    ] {
        let v = cjson(doc);
        assert_eq!(cser(&v), doc);
        let again = parse_json(&to_bytes(&v)).expect("serialized form parses back");
        assert_eq!(to_bytes(&again), to_bytes(&v));
    }
}

#[test]
fn fractional_and_oversized_numbers_pass_through_raw() {
    // not representable as i64: carried as the literal bytes, verbatim
    for doc in [
        "1.5",
        "-0.25",
        "1e10",
        "2.5E-3",
        "1E+2",
        "9223372036854775808",
        "-9223372036854775809",
        "18446744073709551616",
        "3.141592653589793",
    ] {
        let v = cjson(doc);
        assert!(matches!(v, Json::Num(_)), "{doc} should be a raw number");
        assert_eq!(cser(&v), doc, "{doc} must re-serialize byte-identically");
    }
    // a raw number nested inside a payload survives a full round trip
    let payload = "{\"port\":80.5,\"counts\":{\"a\":1e3},\"list\":[2.5,3]}";
    assert_eq!(cser(&cjson(payload)), payload);
    // the boundary values still become integers
    assert!(matches!(cjson("9223372036854775807"), Json::Int(i64::MAX)));
    assert!(matches!(cjson("-9223372036854775808"), Json::Int(i64::MIN)));
}

#[test]
fn number_literals_end_where_json_says() {
    // a point or exponent marker without digits ends the literal, which
    // then fails the surrounding document
    assert!(parse_json(&cb("1.")).is_none());
    assert!(parse_json(&cb("1e")).is_none());
    assert!(parse_json(&cb("1e+")).is_none());
    assert!(parse_json(&cb("[1.5,2e4]")).is_some());
    let arr = cjson("[1.5,2]");
    match &arr {
        Json::Arr(items) => {
            assert!(matches!(&items[0], Json::Num(d) if d.as_slice() == b"1.5"));
            assert!(matches!(&items[1], Json::Int(2)));
        }
        _ => panic!("expected an array"),
    }
}

#[test]
fn raw_numbers_serialize_verbatim() {
    let v = Json::Num(cb("6.02e23"));
    assert_eq!(cser(&v), "6.02e23");
    let arr = Json::Arr(vec![Json::Num(cb("0.5")), Json::Int(7)]);
    assert_eq!(cser(&arr), "[0.5,7]");
}

#[test]
fn frame_encodes_header_and_body() {
    let framed = frame_message(&cb("{\"a\":1}"));
    assert_eq!(framed, cb("Content-Length: 7\r\n\r\n{\"a\":1}"));
    let empty = frame_message(&cb(""));
    assert_eq!(empty, cb("Content-Length: 0\r\n\r\n"));
}

#[test]
fn frame_decodes_what_it_encoded() {
    let framed = frame_message(&cb("{\"a\":1}"));
    match decode_frame(&framed, false) {
        Ok(FrameStep::Message { body_start, body_end }) => {
            assert_eq!(&framed[body_start..body_end], cb("{\"a\":1}").as_slice());
            assert_eq!(body_end, framed.len());
        }
        other => panic!("expected a complete message, got {:?}", other.is_ok()),
    }
}

#[test]
fn frame_ignores_extra_headers_and_case() {
    let buf = cb("X-First: 1\r\ncontent-LENGTH:  5 \r\nnocolonline\r\n\r\nhello");
    match decode_frame(&buf, false) {
        Ok(FrameStep::Message { body_start, body_end }) => {
            assert_eq!(&buf[body_start..body_end], b"hello");
        }
        _ => panic!("expected a complete message"),
    }
}

#[test]
fn frame_takes_last_content_length() {
    let buf = cb("Content-Length: 1\r\nContent-Length: 3\r\n\r\nabcd");
    match decode_frame(&buf, false) {
        Ok(FrameStep::Message { body_start, body_end }) => {
            assert_eq!(&buf[body_start..body_end], b"abc");
        }
        _ => panic!("expected a complete message"),
    }
}

#[test]
fn missing_content_length_is_a_protocol_error() {
    let buf = cb("X-Other: 1\r\n\r\nbody");
    let err = decode_frame(&buf, false).expect_err("headers without content-length must fail");
    assert_eq!(err.message_bytes(), &cb("Missing content-length"));
}

#[test]
fn non_numeric_content_length_is_a_protocol_error() {
    let buf = cb("Content-Length: abc\r\n\r\n");
    let err = decode_frame(&buf, false).expect_err("non-numeric content-length must fail");
    assert_eq!(err.message_bytes(), &cb("Invalid content-length"));
}

#[test]
fn short_body_waits_then_fails_at_eof() {
    let buf = cb("Content-Length: 10\r\n\r\nabc");
    match decode_frame(&buf, false) {
        Ok(FrameStep::Incomplete) => {}
        _ => panic!("a short body without EOF should ask for more bytes"),
    }
    let err = decode_frame(&buf, true)
        .expect_err("a content-length larger than the remaining bytes must fail at EOF");
    assert_eq!(err.message_bytes(), &cb("Unexpected end of stream"));
}

#[test]
fn truncated_headers_wait_then_fail_at_eof() {
    let buf = cb("Content-Length: 3");
    match decode_frame(&buf, false) {
        Ok(FrameStep::Incomplete) => {}
        _ => panic!("unterminated headers without EOF should ask for more bytes"),
    }
    assert!(decode_frame(&buf, true).is_err());
}
