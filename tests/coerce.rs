use dbclient::coerce::{be_int64, fallback_value, money_string, money_value};
use dbclient::{coerce, value_kind, TaggedValue, ValueKind, WireValue};

fn text(s: &str) -> TaggedValue {
    TaggedValue::Text(s.to_string())
}

#[test]
fn kinds_of_scalar_types() {
    assert_eq!(value_kind("BOOL"), ValueKind::Bool);
    assert_eq!(value_kind("INT2"), ValueKind::Int2);
    assert_eq!(value_kind("INT4"), ValueKind::Int4);
    assert_eq!(value_kind("INT8"), ValueKind::Int8);
    assert_eq!(value_kind("FLOAT4"), ValueKind::Float4);
    assert_eq!(value_kind("FLOAT8"), ValueKind::Float8);
    assert_eq!(value_kind("BPCHAR"), ValueKind::Text);
    assert_eq!(value_kind("NAME"), ValueKind::Text);
    assert_eq!(value_kind("UUID"), ValueKind::Uuid);
    assert_eq!(value_kind("TIMESTAMPTZ"), ValueKind::Timestamp);
    assert_eq!(value_kind("DATE"), ValueKind::Date);
    assert_eq!(value_kind("MONEY"), ValueKind::Money);
    assert_eq!(value_kind("NUMERIC"), ValueKind::Numeric);
    assert_eq!(value_kind("JSONB"), ValueKind::Json);
}

#[test]
fn kinds_of_array_types_keep_integer_width() {
    assert_eq!(value_kind("_int2"), ValueKind::Int2Array);
    assert_eq!(value_kind("INT2[]"), ValueKind::Int2Array);
    assert_eq!(value_kind("_int4"), ValueKind::Int4Array);
    assert_eq!(value_kind("INT8[]"), ValueKind::Int8Array);
    assert_eq!(value_kind("_text"), ValueKind::TextArray);
    assert_eq!(value_kind("FLOAT8[]"), ValueKind::Float8Array);
    assert_eq!(value_kind("_float4"), ValueKind::Float4Array);
    assert_eq!(value_kind("_bool"), ValueKind::BoolArray);
    assert_eq!(value_kind("_jsonb"), ValueKind::JsonArray);
}

#[test]
fn kind_match_is_exact_and_case_sensitive() {
    assert_eq!(value_kind("int4"), ValueKind::Other);
    assert_eq!(value_kind("BOOL "), ValueKind::Other);
    assert_eq!(value_kind("geometry"), ValueKind::Other);
    assert_eq!(value_kind(""), ValueKind::Other);
}

#[test]
fn money_of_eight_bytes() {
    let v = money_value(vec![0, 0, 0, 0, 0, 0, 0x30, 0x39]);
    assert_eq!(v, text("$123.45"));
}

#[test]
fn money_of_wrong_length_is_a_diagnostic() {
    assert_eq!(money_value(vec![0, 0, 0x30, 0x39]), text("Invalid money len: 4"));
    assert_eq!(money_value(vec![]), text("Invalid money len: 0"));
}

#[test]
fn money_negative_and_extremes() {
    assert_eq!(money_string(-5), "$-0.05");
    assert_eq!(money_string(0), "$0.00");
    assert_eq!(money_string(100), "$1.00");
    assert_eq!(money_string(-12345), "$-123.45");
    assert_eq!(money_string(i64::MIN), "$-92233720368547758.08");
    assert_eq!(money_string(i64::MAX), "$92233720368547758.07");
}

#[test]
fn big_endian_reads() {
    assert_eq!(be_int64(&vec![0xff; 8]), -1);
    assert_eq!(be_int64(&vec![0x80, 0, 0, 0, 0, 0, 0, 0]), i64::MIN);
    assert_eq!(be_int64(&vec![0, 0, 0, 0, 0, 0, 1, 0]), 256);
}

#[test]
fn money_through_coerce() {
    let v = coerce("MONEY", WireValue::Money(Some(vec![0xff, 0xff, 0xff, 0xff, 0xff, 0xff, 0xff, 0x9c])));
    assert_eq!(v, text("$-1.00"));
    assert_eq!(coerce("MONEY", WireValue::Money(None)), TaggedValue::Null);
}

#[test]
fn scalars_and_failed_decodes() {
    assert_eq!(coerce("BOOL", WireValue::Bool(Some(true))), TaggedValue::Bool(true));
    assert_eq!(coerce("INT2", WireValue::Int(Some(-7))), TaggedValue::Int(-7));
    assert_eq!(coerce("INT4", WireValue::Int(None)), TaggedValue::Null);
    assert_eq!(coerce("FLOAT8", WireValue::Float(Some(1.5f64.to_bits()))), TaggedValue::Float(1.5f64.to_bits()));
    assert_eq!(coerce("TEXT", WireValue::Text(Some("hi".to_string()))), text("hi"));
    assert_eq!(coerce("TEXT", WireValue::Null), TaggedValue::Null);
    assert_eq!(coerce("JSON", WireValue::Json(Some("{\"a\":1}".to_string()))), TaggedValue::Structured("{\"a\":1}".to_string()));
}

#[test]
fn timestamp_falls_back_to_naive() {
    let aware = WireValue::Timestamp { aware: Some("2024-01-02 03:04:05 UTC".to_string()), naive: Some("x".to_string()) };
    assert_eq!(coerce("TIMESTAMPTZ", aware), text("2024-01-02 03:04:05 UTC"));
    let naive = WireValue::Timestamp { aware: None, naive: Some("2024-01-02 03:04:05".to_string()) };
    assert_eq!(coerce("TIMESTAMP", naive), text("2024-01-02 03:04:05"));
    let neither = WireValue::Timestamp { aware: None, naive: None };
    assert_eq!(coerce("TIMESTAMP", neither), TaggedValue::Null);
}

#[test]
fn arrays_coerce_element_by_element() {
    let v = coerce("_int2", WireValue::IntArray(Some(vec![1, -2, 300])));
    assert_eq!(v, TaggedValue::Array(vec![TaggedValue::Int(1), TaggedValue::Int(-2), TaggedValue::Int(300)]));
    let t = coerce("_text", WireValue::TextArray(Some(vec!["a".to_string(), "b".to_string()])));
    assert_eq!(t, TaggedValue::Array(vec![text("a"), text("b")]));
    let b = coerce("_bool", WireValue::BoolArray(Some(vec![true, false])));
    assert_eq!(b, TaggedValue::Array(vec![TaggedValue::Bool(true), TaggedValue::Bool(false)]));
    let j = coerce("_json", WireValue::JsonArray(Some(vec!["1".to_string(), "null".to_string()])));
    assert_eq!(j, TaggedValue::Array(vec![TaggedValue::Structured("1".to_string()), TaggedValue::Structured("null".to_string())]));
    assert_eq!(coerce("_int4", WireValue::IntArray(None)), TaggedValue::Null);
    assert_eq!(coerce("_int8", WireValue::IntArray(Some(vec![]))), TaggedValue::Array(vec![]));
}

#[test]
fn unknown_type_prefers_textual_decode() {
    let v = fallback_value("point", Some("(1,2)".to_string()), Some(vec![0xff]));
    assert_eq!(v, text("(1,2)"));
}

#[test]
fn unknown_type_reads_utf8_bytes() {
    let v = fallback_value("citext", None, Some("héllo".as_bytes().to_vec()));
    assert_eq!(v, text("héllo"));
}

#[test]
fn unknown_type_undecodable_is_placeholder() {
    let v = coerce("geometry", WireValue::Other { text: None, bytes: Some(vec![0xff, 0xfe]) });
    assert_eq!(v, TaggedValue::Raw("<geometry>".to_string()));
    let w = coerce("box", WireValue::Other { text: None, bytes: None });
    assert_eq!(w, TaggedValue::Raw("<box>".to_string()));
}

#[test]
fn coerce_is_total_over_every_wire_shape() {
    let shapes = vec![
        WireValue::Null,
        WireValue::Bool(None),
        WireValue::Int(None),
        WireValue::Float(None),
        WireValue::Text(None),
        WireValue::Timestamp { aware: None, naive: None },
        WireValue::Money(Some(vec![1])),
        WireValue::TextArray(None),
        WireValue::IntArray(None),
        WireValue::FloatArray(Some(vec![0])),
        WireValue::BoolArray(None),
        WireValue::JsonArray(None),
        WireValue::Json(None),
        WireValue::Other { text: None, bytes: None },
    ];
    for w in shapes {
        let _ = coerce("anything", w);
    }
}
