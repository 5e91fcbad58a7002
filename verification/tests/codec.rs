use ccql::codec::{
    base64_encode, glue_value_to_json, json_value_to_glue_value, signed_decimal, unsigned_decimal,
};
use ccql::parse::parse_json;
use ccql::value::{is_finite_bits, EngineValue, JsonNumber, JsonValue};

fn integer(i: i64) -> JsonValue {
    JsonValue::Number(JsonNumber::from_i64(i))
}

fn text(s: &str) -> JsonValue {
    JsonValue::Str(s.to_string())
}

fn round_trip(v: &JsonValue) -> JsonValue {
    glue_value_to_json(&json_value_to_glue_value(v))
}

#[test]
fn test_json_value_to_glue_value() {
    assert_eq!(
        json_value_to_glue_value(&JsonValue::Str("test".to_string())),
        EngineValue::Str("test".to_string())
    );
    assert_eq!(json_value_to_glue_value(&JsonValue::Bool(true)), EngineValue::Bool(true));
    assert_eq!(json_value_to_glue_value(&parse_json("42").unwrap()), EngineValue::I64(42));
}

#[test]
fn numbers_map_to_integers_when_they_fit() {
    assert_eq!(json_value_to_glue_value(&integer(-7)), EngineValue::I64(-7));
    assert_eq!(
        json_value_to_glue_value(&JsonValue::Number(JsonNumber::PosInt(i64::MAX as u64))),
        EngineValue::I64(i64::MAX)
    );
    assert_eq!(json_value_to_glue_value(&JsonValue::Null), EngineValue::Null);
}

#[test]
fn integers_out_of_range_map_to_floats() {
    let big = 1u64 << 63;
    assert_eq!(
        json_value_to_glue_value(&JsonValue::Number(JsonNumber::PosInt(big))),
        EngineValue::F64((big as f64).to_bits())
    );
    assert_eq!(
        json_value_to_glue_value(&JsonValue::Number(JsonNumber::PosInt(u64::MAX))),
        EngineValue::F64(18446744073709551615.0f64.to_bits())
    );
    assert_eq!(
        json_value_to_glue_value(&parse_json("18446744073709551615").unwrap()),
        EngineValue::F64(0x43F0_0000_0000_0000)
    );
}

#[test]
fn floats_keep_their_bits() {
    let bits = 1.5f64.to_bits();
    assert_eq!(
        json_value_to_glue_value(&JsonValue::Number(JsonNumber::Float(bits))),
        EngineValue::F64(bits)
    );
    assert_eq!(parse_json("1.5").unwrap(), JsonValue::Number(JsonNumber::Float(bits)));
    assert_eq!(
        glue_value_to_json(&EngineValue::F64(bits)),
        JsonValue::Number(JsonNumber::Float(bits))
    );
}

#[test]
fn floats_that_are_not_finite_become_null() {
    assert_eq!(glue_value_to_json(&EngineValue::F64(f64::NAN.to_bits())), JsonValue::Null);
    assert_eq!(glue_value_to_json(&EngineValue::F64(f64::INFINITY.to_bits())), JsonValue::Null);
    assert_eq!(glue_value_to_json(&EngineValue::F32(f64::NEG_INFINITY.to_bits())), JsonValue::Null);
    assert!(is_finite_bits(f64::MAX.to_bits()));
    assert!(is_finite_bits(0));
    assert!(!is_finite_bits(f64::NAN.to_bits()));
    assert_eq!(
        glue_value_to_json(&EngineValue::F32((0.25f32 as f64).to_bits())),
        JsonValue::Number(JsonNumber::Float(0.25f64.to_bits()))
    );
}

#[test]
fn arrays_and_objects_map_member_by_member() {
    let json = JsonValue::Object(vec![
        ("a".to_string(), JsonValue::Array(vec![integer(1), text("x"), JsonValue::Null])),
        ("b".to_string(), JsonValue::Object(vec![("c".to_string(), JsonValue::Bool(false))])),
    ]);
    let expected = EngineValue::Dict(vec![
        (
            "a".to_string(),
            EngineValue::List(vec![
                EngineValue::I64(1),
                EngineValue::Str("x".to_string()),
                EngineValue::Null,
            ]),
        ),
        ("b".to_string(), EngineValue::Dict(vec![("c".to_string(), EngineValue::Bool(false))])),
    ]);
    assert_eq!(json_value_to_glue_value(&json), expected);
    assert_eq!(glue_value_to_json(&expected), json);
}

#[test]
fn round_trip_returns_the_value() {
    let values = vec![
        JsonValue::Null,
        JsonValue::Bool(true),
        JsonValue::Bool(false),
        text(""),
        text("hello \u{1F600}"),
        integer(0),
        integer(-1),
        integer(i64::MAX),
        integer(i64::MIN),
        JsonValue::Number(JsonNumber::Float(2.5f64.to_bits())),
        JsonValue::Array(vec![]),
        JsonValue::Array(vec![integer(1), JsonValue::Array(vec![text("deep")])]),
        JsonValue::Object(vec![]),
        JsonValue::Object(vec![
            ("k".to_string(), integer(3)),
            ("nested".to_string(), JsonValue::Object(vec![("z".to_string(), JsonValue::Null)])),
        ]),
        parse_json(r#"{"a":[1,2,{"b":"c"}],"d":null,"e":-12,"f":0.125}"#).unwrap(),
    ];
    for v in values.iter() {
        assert_eq!(&round_trip(v), v);
    }
}

#[test]
fn round_trip_loses_an_integer_above_the_range() {
    let v = JsonValue::Number(JsonNumber::PosInt(u64::MAX));
    assert_ne!(round_trip(&v), v);
}

#[test]
fn small_integers_of_the_engine_become_numbers() {
    assert_eq!(glue_value_to_json(&EngineValue::I8(-5)), integer(-5));
    assert_eq!(glue_value_to_json(&EngineValue::I16(300)), integer(300));
    assert_eq!(glue_value_to_json(&EngineValue::I32(-70000)), integer(-70000));
    assert_eq!(glue_value_to_json(&EngineValue::U8(255)), integer(255));
    assert_eq!(glue_value_to_json(&EngineValue::U16(65535)), integer(65535));
    assert_eq!(glue_value_to_json(&EngineValue::U32(4000000000)), integer(4000000000));
    assert_eq!(
        glue_value_to_json(&EngineValue::U64(u64::MAX)),
        JsonValue::Number(JsonNumber::PosInt(u64::MAX))
    );
}

#[test]
fn wide_integers_become_numbers_or_texts() {
    assert_eq!(glue_value_to_json(&EngineValue::I128(-9)), integer(-9));
    assert_eq!(glue_value_to_json(&EngineValue::I128(i64::MAX as i128)), integer(i64::MAX));
    assert_eq!(
        glue_value_to_json(&EngineValue::I128(i64::MAX as i128 + 1)),
        text("9223372036854775808")
    );
    assert_eq!(
        glue_value_to_json(&EngineValue::I128(i128::MIN)),
        text("-170141183460469231731687303715884105728")
    );
    assert_eq!(
        glue_value_to_json(&EngineValue::U128(u64::MAX as u128)),
        JsonValue::Number(JsonNumber::PosInt(u64::MAX))
    );
    assert_eq!(
        glue_value_to_json(&EngineValue::U128(u64::MAX as u128 + 1)),
        text("18446744073709551616")
    );
    assert_eq!(glue_value_to_json(&EngineValue::Uuid(12345)), text("12345"));
}

#[test]
fn texts_of_the_engine_become_texts() {
    assert_eq!(glue_value_to_json(&EngineValue::Date("2024-01-02".to_string())), text("2024-01-02"));
    assert_eq!(glue_value_to_json(&EngineValue::Time("10:00:00".to_string())), text("10:00:00"));
    assert_eq!(
        glue_value_to_json(&EngineValue::Timestamp("2024-01-02 10:00:00".to_string())),
        text("2024-01-02 10:00:00")
    );
    assert_eq!(glue_value_to_json(&EngineValue::Interval("DAY 1".to_string())), text("DAY 1"));
    assert_eq!(glue_value_to_json(&EngineValue::Decimal("1.10".to_string())), text("1.10"));
    assert_eq!(glue_value_to_json(&EngineValue::Inet("::1".to_string())), text("::1"));
    assert_eq!(glue_value_to_json(&EngineValue::Bytea(vec![1, 2, 3])), text("AQID"));
}

#[test]
fn a_point_becomes_an_object() {
    let point = EngineValue::Point(1.0f64.to_bits(), f64::NAN.to_bits());
    assert_eq!(
        glue_value_to_json(&point),
        JsonValue::Object(vec![
            ("x".to_string(), JsonValue::Number(JsonNumber::Float(1.0f64.to_bits()))),
            ("y".to_string(), JsonValue::Null),
        ])
    );
}

#[test]
fn base64_pads_to_four() {
    assert_eq!(base64_encode(&vec![]), "");
    assert_eq!(base64_encode(&b"f".to_vec()), "Zg==");
    assert_eq!(base64_encode(&b"fo".to_vec()), "Zm8=");
    assert_eq!(base64_encode(&b"foo".to_vec()), "Zm9v");
    assert_eq!(base64_encode(&b"foob".to_vec()), "Zm9vYg==");
    assert_eq!(base64_encode(&b"fooba".to_vec()), "Zm9vYmE=");
    assert_eq!(base64_encode(&b"foobar".to_vec()), "Zm9vYmFy");
    assert_eq!(base64_encode(&vec![0xfb, 0xff, 0xfe]), "+//+");
    assert_eq!(base64_encode(&vec![0, 0, 0]), "AAAA");
}

#[test]
fn decimal_texts() {
    assert_eq!(unsigned_decimal(0), "0");
    assert_eq!(unsigned_decimal(9), "9");
    assert_eq!(unsigned_decimal(10), "10");
    assert_eq!(unsigned_decimal(u128::MAX), u128::MAX.to_string());
    assert_eq!(signed_decimal(0), "0");
    assert_eq!(signed_decimal(-1), "-1");
    assert_eq!(signed_decimal(1234567890), "1234567890");
    assert_eq!(signed_decimal(i128::MIN), i128::MIN.to_string());
    assert_eq!(signed_decimal(i128::MAX), i128::MAX.to_string());
}

#[test]
fn parse_reads_json_and_refuses_other_texts() {
    assert_eq!(parse_json("null"), Some(JsonValue::Null));
    assert_eq!(parse_json(" true "), Some(JsonValue::Bool(true)));
    assert_eq!(parse_json("-3"), Some(JsonValue::Number(JsonNumber::NegInt(-3))));
    assert_eq!(parse_json("\"a\\nb\""), Some(text("a\nb")));
    assert_eq!(parse_json("[1, [2]]"), Some(JsonValue::Array(vec![integer(1), JsonValue::Array(vec![integer(2)])])));
    assert_eq!(
        parse_json(r#"{"x": {"y": []}}"#),
        Some(JsonValue::Object(vec![(
            "x".to_string(),
            JsonValue::Object(vec![("y".to_string(), JsonValue::Array(vec![]))])
        )]))
    );
    assert_eq!(parse_json(""), None);
    assert_eq!(parse_json("{"), None);
    assert_eq!(parse_json("nul"), None);
    assert_eq!(parse_json("1 2"), None);
}

#[test]
fn parse_keeps_each_name_once() {
    let parsed = parse_json(r#"{"a": 1, "a": 2}"#).unwrap();
    assert_eq!(parsed, JsonValue::Object(vec![("a".to_string(), integer(2))]));
}

#[test]
fn number_forms() {
    assert_eq!(JsonNumber::from_i64(5), JsonNumber::PosInt(5));
    assert_eq!(JsonNumber::from_i64(-5), JsonNumber::NegInt(-5));
    assert_eq!(JsonNumber::PosInt(7).as_i64(), Some(7));
    assert_eq!(JsonNumber::PosInt(u64::MAX).as_i64(), None);
    assert_eq!(JsonNumber::NegInt(-7).as_i64(), Some(-7));
    assert_eq!(JsonNumber::Float(0).as_i64(), None);
    assert_eq!(JsonNumber::from_parts(Some(1), Some(1), Some(9)), JsonNumber::PosInt(1));
    assert_eq!(JsonNumber::from_parts(None, Some(-1), Some(9)), JsonNumber::NegInt(-1));
    assert_eq!(JsonNumber::from_parts(None, None, Some(9)), JsonNumber::Float(9));
    assert_eq!(JsonNumber::from_parts(None, None, None), JsonNumber::Float(0));
}
