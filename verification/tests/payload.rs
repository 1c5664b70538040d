use iaudit::payload::Value;
use iaudit::payload::WireValue;

fn sample_nested_value() -> Value {
    Value::Hash(vec![
        ("title".to_string(), Value::Str("采购管理办法".to_string())),
        ("year".to_string(), Value::I64(2024)),
        ("score".to_string(), Value::F64(0.75f64.to_bits())),
        ("published".to_string(), Value::Bool(true)),
        ("missing".to_string(), Value::Not),
        (
            "tags".to_string(),
            Value::List(vec![
                Value::Str("audit".to_string()),
                Value::I64(-3),
                Value::F64(2.5f64.to_bits()),
                Value::Bool(false),
                Value::List(vec![Value::Str("nested".to_string()), Value::Not]),
            ]),
        ),
        (
            "owner".to_string(),
            Value::Hash(vec![
                ("name".to_string(), Value::Str("司库".to_string())),
                (
                    "grades".to_string(),
                    Value::Hash(vec![("q1".to_string(), Value::F64(9.5f64.to_bits()))]),
                ),
            ]),
        ),
    ])
}

#[test]
fn wire_round_trip_preserves_structure() {
    let original = sample_nested_value();
    let wire = original.to_wire();
    let back = wire.to_value();
    assert_eq!(back, sample_nested_value());
}

#[test]
fn absent_wire_tag_becomes_explicit_none() {
    assert_eq!(WireValue::Absent.to_value(), Value::Not);
    let wire = WireValue::Fields(vec![
        ("present".to_string(), WireValue::Integer(1)),
        ("gone".to_string(), WireValue::Absent),
    ]);
    let value = wire.to_value();
    match value {
        Value::Hash(entries) => {
            assert_eq!(entries.len(), 2, "an absent tag is kept, not dropped");
            assert_eq!(entries[1], ("gone".to_string(), Value::Not));
        }
        other => panic!("expected a map, got {:?}", other),
    }
}

#[test]
fn wire_tags_map_one_to_one() {
    assert_eq!(Value::Not.to_wire(), WireValue::Absent);
    assert_eq!(Value::I64(7).to_wire(), WireValue::Integer(7));
    assert_eq!(
        Value::F64(1.5f64.to_bits()).to_wire(),
        WireValue::Double(1.5f64.to_bits())
    );
    assert_eq!(
        Value::Str("x".to_string()).to_wire(),
        WireValue::Text("x".to_string())
    );
    assert_eq!(Value::Bool(true).to_wire(), WireValue::Truth(true));
}

#[test]
fn double_bits_survive_the_round_trip() {
    let bits = (-0.1f64).to_bits();
    match Value::F64(bits).to_wire().to_value() {
        Value::F64(back) => assert_eq!(f64::from_bits(back), -0.1f64),
        other => panic!("expected a double, got {:?}", other),
    }
}

#[test]
fn duplicate_is_deep_and_equal() {
    let original = sample_nested_value();
    let copy = original.duplicate();
    assert_eq!(copy, original);
}
