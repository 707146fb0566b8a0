use appconfiguration::{ConfigValue, NumericValue, Value, ValueKind};

#[test]
fn value_test_numeric() {
    let value = Value::Numeric(NumericValue(42));
    assert!(matches!(value, Value::Numeric(ref v) if v.as_i64().unwrap() == 42i64));
    assert!(matches!(value, Value::Numeric(ref v) if v.as_u64().unwrap() == 42u64));

    let value = Value::from(-42i64);
    assert!(matches!(value, Value::Numeric(ref v) if v.as_i64().unwrap() == -42i64));
    assert!(matches!(value, Value::Numeric(ref v) if v.as_u64().is_none()));

    let value = Value::from(u64::MAX);
    assert!(matches!(value, Value::Numeric(ref v) if v.as_i64().is_none()));
    assert!(matches!(value, Value::Numeric(ref v) if v.as_u64().unwrap() == u64::MAX));
}

#[test]
fn conversions_into_values() {
    assert_eq!(Value::from(true), Value::Boolean(true));
    assert_eq!(Value::from("a".to_string()), Value::String("a".into()));
    assert_eq!(Value::from(7u64), Value::Numeric(NumericValue(7)));
}

#[test]
fn config_value_accessors() {
    let v = ConfigValue::String("$default".into());
    assert!(v.is_default());
    assert_eq!(v.as_string(), Some("$default".to_string()));
    assert_eq!(v.as_i64(), None);
    assert!(!ConfigValue::String("$defaults".into()).is_default());
    assert!(!ConfigValue::String("default".into()).is_default());
    assert!(!ConfigValue::Boolean(true).is_default());
    assert_eq!(ConfigValue::Boolean(true).as_boolean(), Some(true));
    assert_eq!(ConfigValue::Numeric(NumericValue(-1)).as_u64(), None);
    assert_eq!(ConfigValue::Numeric(NumericValue(-1)).as_i64(), Some(-1));
    assert_eq!(ConfigValue::Numeric(NumericValue(1)).as_boolean(), None);
}

#[test]
fn kind_labels() {
    assert_eq!(ValueKind::Numeric.label(), "NUMERIC");
    assert_eq!(ValueKind::Boolean.label(), "BOOLEAN");
    assert_eq!(ValueKind::String.label(), "STRING");
}
