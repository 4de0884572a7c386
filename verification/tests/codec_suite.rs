//! Tests for the interchange codec: rendering values as guest text,
//! escaping, parsing guest text back, and the host conversions.
use never_jscore::codec::{encode_string_literal, to_guest_text};
use never_jscore::errors::EvalError;
use never_jscore::facade::{build_call_expression, decode_result};
use never_jscore::host::{host_to_interchange, interchange_to_host, HostValue};
use never_jscore::parse::from_guest_text;
use never_jscore::value::{is_number_text, Value};

fn num(t: &str) -> Value {
    Value::Num(t.to_string())
}

fn hnum(t: &str) -> HostValue {
    HostValue::Num(t.to_string())
}

#[test]
fn escaping_matches_reference_serializer() {
    for s in [
        "",
        "plain",
        "a\"b",
        "back\\slash",
        "line\nbreak\ttab\rret",
        "ctl\u{8}\u{c}\u{1}\u{1f}",
        "unicode \u{e9}\u{2713}\u{1f600}",
    ] {
        let ours = encode_string_literal(s);
        let reference = serde_json::to_string(s).unwrap();
        assert_eq!(ours, reference);
    }
}

#[test]
fn scalars_render_exactly() {
    assert_eq!(to_guest_text(&Value::Null), "null");
    assert_eq!(to_guest_text(&Value::Bool(true)), "true");
    assert_eq!(to_guest_text(&Value::Bool(false)), "false");
    assert_eq!(to_guest_text(&num("6")), "6");
    assert_eq!(to_guest_text(&num("-2.5e3")), "-2.5e3");
    assert_eq!(to_guest_text(&Value::Str("a\"b".to_string())), "\"a\\\"b\"");
}

#[test]
fn containers_render_exactly() {
    let v = Value::Arr(vec![
        num("1"),
        Value::Str("x".to_string()),
        Value::Null,
        Value::Obj(vec![("k".to_string(), Value::Bool(true))]),
    ]);
    assert_eq!(to_guest_text(&v), "[1,\"x\",null,{\"k\":true}]");
    assert_eq!(to_guest_text(&Value::Arr(vec![])), "[]");
    assert_eq!(to_guest_text(&Value::Obj(vec![])), "{}");
}

#[test]
fn rendered_text_reparses_to_the_same_value() {
    let v = Value::Obj(vec![
        ("a".to_string(), Value::Arr(vec![num("1"), num("2.5")])),
        ("b".to_string(), Value::Str("q\"\n".to_string())),
        ("c".to_string(), Value::Null),
    ]);
    let text = to_guest_text(&v);
    let back = from_guest_text(&text).unwrap();
    assert_eq!(back, v);
}

#[test]
fn rendered_text_agrees_with_reference_parser() {
    let v = Value::Obj(vec![
        ("xs".to_string(), Value::Arr(vec![num("1"), Value::Bool(false)])),
        ("s".to_string(), Value::Str("tab\there".to_string())),
    ]);
    let parsed: serde_json::Value = serde_json::from_str(&to_guest_text(&v)).unwrap();
    let mut expected = serde_json::Map::new();
    expected.insert(
        "xs".to_string(),
        serde_json::Value::Array(vec![
            serde_json::Value::from(1u64),
            serde_json::Value::Bool(false),
        ]),
    );
    expected.insert(
        "s".to_string(),
        serde_json::Value::String("tab\there".to_string()),
    );
    assert_eq!(parsed, serde_json::Value::Object(expected));
}

#[test]
fn parse_accepts_the_compact_forms() {
    assert_eq!(from_guest_text("6").unwrap(), num("6"));
    assert_eq!(from_guest_text("null").unwrap(), Value::Null);
    assert_eq!(from_guest_text("true").unwrap(), Value::Bool(true));
    assert_eq!(from_guest_text("false").unwrap(), Value::Bool(false));
    assert_eq!(from_guest_text("\"hi\"").unwrap(), Value::Str("hi".to_string()));
    assert_eq!(from_guest_text("-0.5e-2").unwrap(), num("-0.5e-2"));
    assert_eq!(
        from_guest_text("[1,\"a\",null,[true]]").unwrap(),
        Value::Arr(vec![
            num("1"),
            Value::Str("a".to_string()),
            Value::Null,
            Value::Arr(vec![Value::Bool(true)]),
        ])
    );
    assert_eq!(
        from_guest_text("{\"k\":2,\"m\":{}}").unwrap(),
        Value::Obj(vec![
            ("k".to_string(), num("2")),
            ("m".to_string(), Value::Obj(vec![])),
        ])
    );
}

#[test]
fn parse_decodes_escapes() {
    assert_eq!(
        from_guest_text("\"a\\\"b\\\\c\\n\\t\\u0041\\u00e9\"").unwrap(),
        Value::Str("a\"b\\c\n\tA\u{e9}".to_string())
    );
}

#[test]
fn parse_rejects_malformed_text() {
    for bad in [
        "", "nope", "tru", "01a", "1 2", "[1,", "[1 2]", "{\"k\"}", "{k:1}", "\"unterminated",
        "\"bad\\q\"", "\"\\ud800\"", "\"raw\u{1}ctl\"", "[]x",
    ] {
        let r = from_guest_text(bad);
        assert!(matches!(r, Err(EvalError::Conversion(_))), "accepted: {bad}");
    }
}

#[test]
fn number_grammar_is_checked() {
    for good in ["0", "-1", "12.75", "6e10", "1E+5", "-0.5e-2", "007"] {
        assert!(is_number_text(good), "rejected: {good}");
    }
    for bad in ["", "-", "1.", ".5", "1e", "1e+", "a1", "1a", "--2", "1.2.3"] {
        assert!(!is_number_text(bad), "accepted: {bad}");
    }
}

#[test]
fn host_round_trip_preserves_values() {
    let h = HostValue::Dict(vec![
        ("list".to_string(), HostValue::List(vec![hnum("1"), HostValue::Bool(true)])),
        ("s".to_string(), HostValue::Str("x\"y".to_string())),
        ("n".to_string(), HostValue::Null),
        ("f".to_string(), hnum("2.5")),
    ]);
    let v = host_to_interchange(&h).unwrap();
    let back = interchange_to_host(&v);
    assert_eq!(back, h);
}

#[test]
fn opaque_host_values_are_unsupported() {
    let h = HostValue::List(vec![hnum("1"), HostValue::Opaque("a callable".to_string())]);
    let r = host_to_interchange(&h);
    assert!(matches!(r, Err(EvalError::UnsupportedType(_))));
    let r2 = host_to_interchange(&hnum("not a number"));
    assert!(matches!(r2, Err(EvalError::UnsupportedType(_))));
}

#[test]
fn call_expressions_join_rendered_arguments() {
    let r = build_call_expression("add", &vec![hnum("2"), hnum("3")]).unwrap();
    assert_eq!(r, "add(2, 3)");
    let r2 = build_call_expression("f", &vec![]).unwrap();
    assert_eq!(r2, "f()");
    let r3 = build_call_expression(
        "obj.method",
        &vec![
            HostValue::Str("a\"b".to_string()),
            HostValue::List(vec![HostValue::Null]),
        ],
    )
    .unwrap();
    assert_eq!(r3, "obj.method(\"a\\\"b\", [null])");
}

#[test]
fn call_expression_rejects_opaque_arguments() {
    let r = build_call_expression("f", &vec![HostValue::Opaque("socket".to_string())]);
    assert!(matches!(r, Err(EvalError::UnsupportedType(_))));
}

#[test]
fn decode_result_yields_host_values() {
    assert_eq!(decode_result("5").unwrap(), hnum("5"));
    assert_eq!(
        decode_result("{\"a\":[1,true]}").unwrap(),
        HostValue::Dict(vec![(
            "a".to_string(),
            HostValue::List(vec![hnum("1"), HostValue::Bool(true)]),
        )])
    );
    assert!(matches!(decode_result("not json"), Err(EvalError::Conversion(_))));
}
