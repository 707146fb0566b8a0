use appconfiguration::models::{Feature as FeatureModel, Segment, SegmentRule, Segments, TargetingRule};
use appconfiguration::{
    random_value, Attributes, ConfigValue, Entity, Error, Feature, FeatureSnapshot, NumericValue,
    Value, ValueKind,
};

struct GenericEntity {
    id: String,
    attributes: Attributes,
}

impl Entity for GenericEntity {
    fn get_id(&self) -> String {
        self.id.clone()
    }

    fn get_attributes(&self) -> Attributes {
        self.attributes.clone()
    }
}

struct TrivialEntity;

impl Entity for TrivialEntity {
    fn get_id(&self) -> String {
        "TrivialId".into()
    }

    fn get_attributes(&self) -> Attributes {
        Vec::new()
    }
}

fn number(v: i128) -> ConfigValue {
    ConfigValue::Numeric(NumericValue(v))
}

fn text(s: &str) -> ConfigValue {
    ConfigValue::String(s.to_string())
}

fn feature_model(
    segment_rules: Vec<TargetingRule>,
    enabled: bool,
    rollout_percentage: u32,
) -> FeatureModel {
    FeatureModel {
        name: "F1".to_string(),
        feature_id: "f1".to_string(),
        kind: ValueKind::Numeric,
        format: None,
        enabled_value: number(-42),
        disabled_value: number(2),
        segment_rules,
        enabled,
        rollout_percentage,
    }
}

fn name_is_heinz(segment_id: &str) -> Segment {
    Segment {
        name: "".into(),
        segment_id: segment_id.into(),
        rules: vec![SegmentRule {
            attribute_name: "name".into(),
            operator: "is".into(),
            values: vec!["heinz".into()],
        }],
    }
}

fn rule(segment_id: &str, value: ConfigValue, order: u32, rollout: Option<ConfigValue>) -> TargetingRule {
    TargetingRule {
        rules: vec![Segments {
            segments: vec![segment_id.into()],
        }],
        value,
        order,
        rollout_percentage: rollout,
    }
}

fn named(id: &str, name: &str) -> GenericEntity {
    GenericEntity {
        id: id.into(),
        attributes: vec![("name".to_string(), Value::from(name.to_string()))],
    }
}

fn as_i64(value: &Value) -> i64 {
    match value {
        Value::Numeric(v) => v.as_i64().unwrap(),
        _ => panic!("not numeric: {value:?}"),
    }
}

fn check_disabled_feature() {
    let feature = FeatureSnapshot::new(feature_model(Vec::new(), false, 100), Vec::new());
    let value = feature.get_value(&TrivialEntity {}).unwrap();
    assert!(matches!(value, Value::Numeric(ref v) if v.as_i64().unwrap() == 2));
    assert!(matches!(value, Value::Numeric(ref v) if v.as_u64().unwrap() == 2));
    assert!(matches!(value, Value::Numeric(ref v) if v.0 == 2));
}

fn check_matching_a_rule() {
    let feature = FeatureSnapshot::new(
        feature_model(
            vec![rule("some_segment_id", number(-48), 0, Some(number(50)))],
            true,
            50,
        ),
        vec![name_is_heinz("some_segment_id")],
    );
    // matching the segment, in the rollout
    let value = feature.get_value(&named("a2", "heinz")).unwrap();
    assert!(matches!(value, Value::Numeric(ref v) if v.as_i64().unwrap() == -48));
    // matching the segment, out of the rollout
    let value = feature.get_value(&named("a1", "heinz")).unwrap();
    assert!(matches!(value, Value::Numeric(ref v) if v.as_i64().unwrap() == 2));
    // not matching the segment, in the feature's rollout
    let value = feature.get_value(&named("a2", "heinzz")).unwrap();
    assert!(matches!(value, Value::Numeric(ref v) if v.as_i64().unwrap() == -42));
}

fn check_matching_yielding_default_value() {
    let feature = FeatureSnapshot::new(
        feature_model(
            vec![rule("some_segment_id", text("$default"), 0, Some(number(50)))],
            true,
            50,
        ),
        vec![name_is_heinz("some_segment_id")],
    );
    let value = feature.get_value(&named("a2", "heinz")).unwrap();
    assert!(matches!(value, Value::Numeric(ref v) if v.as_i64().unwrap() == -42));
}

fn check_matching_segment_rollout_default_value() {
    let feature = FeatureSnapshot::new(
        feature_model(
            vec![rule("some_segment_id", number(48), 0, Some(text("$default")))],
            true,
            0,
        ),
        vec![name_is_heinz("some_segment_id")],
    );
    let value = feature.get_value(&named("a2", "heinz")).unwrap();
    assert!(matches!(value, Value::Numeric(ref v) if v.as_i64().unwrap() == 2));
}

fn check_segment_rule_ordering() {
    let feature = FeatureSnapshot::new(
        feature_model(
            vec![
                rule("some_segment_id_1", number(-48), 1, Some(number(100))),
                rule("some_segment_id_2", number(-49), 0, Some(number(100))),
            ],
            true,
            100,
        ),
        vec![name_is_heinz("some_segment_id_1"), name_is_heinz("some_segment_id_2")],
    );
    // Both segment rules match. The one with the smaller order is used:
    let value = feature.get_value(&named("a2", "heinz")).unwrap();
    assert!(matches!(value, Value::Numeric(ref v) if v.as_i64().unwrap() == -49));
}

#[test]
fn feature_snapshot_test_get_value_disabled_feature() {
    check_disabled_feature();
}

#[test]
fn feature_snapshot_test_get_value_matching_a_rule() {
    check_matching_a_rule();
}

#[test]
fn feature_snapshot_test_get_value_matching_yielding_default_value() {
    check_matching_yielding_default_value();
}

#[test]
fn feature_snapshot_test_get_value_matching_segment_rollout_default_value() {
    check_matching_segment_rollout_default_value();
}

#[test]
fn feature_snapshot_test_get_value_segment_rule_ordering() {
    check_segment_rule_ordering();
}

#[test]
fn feature_test_get_value_disabled_feature() {
    check_disabled_feature();
}

#[test]
fn feature_test_get_value_matching_a_rule() {
    check_matching_a_rule();
}

#[test]
fn feature_test_get_value_matching_yielding_default_value() {
    check_matching_yielding_default_value();
}

#[test]
fn feature_test_get_value_matching_segment_rollout_default_value() {
    check_matching_segment_rollout_default_value();
}

#[test]
fn feature_test_get_value_segment_rule_ordering() {
    check_segment_rule_ordering();
}

#[test]
fn scenario_half_rollout_without_rules() {
    let cases: Vec<(Vec<TargetingRule>, Attributes)> = vec![
        (Vec::new(), Vec::new()),
        (Vec::new(), vec![("key".to_string(), Value::from("value".to_string()))]),
        (
            vec![TargetingRule {
                rules: Vec::new(),
                value: text(""),
                order: 0,
                rollout_percentage: None,
            }],
            Vec::new(),
        ),
    ];
    for (segment_rules, attributes) in cases {
        let feature = FeatureSnapshot::new(feature_model(segment_rules, true, 50), Vec::new());
        let a1 = GenericEntity { id: "a1".into(), attributes: attributes.clone() };
        assert_eq!(random_value("a1:f1"), 68);
        assert_eq!(as_i64(&feature.get_value(&a1).unwrap()), 2);
        let a2 = GenericEntity { id: "a2".into(), attributes };
        assert_eq!(random_value("a2:f1"), 29);
        assert_eq!(as_i64(&feature.get_value(&a2).unwrap()), -42);
    }
}

#[test]
fn scenario_disabled_feature_ignores_rules_and_rollout() {
    let feature = FeatureSnapshot::new(
        feature_model(
            vec![rule("some_segment_id", number(-48), 0, Some(number(100)))],
            false,
            100,
        ),
        vec![name_is_heinz("some_segment_id")],
    );
    for id in ["a1", "a2", "x"] {
        assert_eq!(as_i64(&feature.get_value(&named(id, "heinz")).unwrap()), 2);
    }
}

#[test]
fn full_and_empty_rollout_of_a_feature() {
    for id in ["a1", "a2", "b", "TrivialId"] {
        let all = FeatureSnapshot::new(feature_model(Vec::new(), true, 100), Vec::new());
        assert_eq!(as_i64(&all.get_value(&named(id, "x")).unwrap()), -42);
        let none = FeatureSnapshot::new(feature_model(Vec::new(), true, 0), Vec::new());
        assert_eq!(as_i64(&none.get_value(&named(id, "x")).unwrap()), 2);
    }
}

#[test]
fn absent_rule_percentage_takes_the_feature_percentage() {
    let feature = FeatureSnapshot::new(
        feature_model(vec![rule("s", number(-48), 0, None)], true, 100),
        vec![name_is_heinz("s")],
    );
    assert_eq!(as_i64(&feature.get_value(&named("a1", "heinz")).unwrap()), -48);
}

#[test]
fn invalid_rule_percentage_is_a_protocol_error() {
    let feature = FeatureSnapshot::new(
        feature_model(vec![rule("s", number(-48), 0, Some(text("half")))], true, 100),
        vec![name_is_heinz("s")],
    );
    let e = feature.get_value(&named("a1", "heinz")).unwrap_err();
    assert!(matches!(e, Error::ProtocolError(_)));
    let feature = FeatureSnapshot::new(
        feature_model(vec![rule("s", number(-48), 0, Some(number(-1)))], true, 100),
        vec![name_is_heinz("s")],
    );
    let e = feature.get_value(&named("a1", "heinz")).unwrap_err();
    assert!(matches!(e, Error::ProtocolError(_)));
}

#[test]
fn value_of_another_kind_is_a_protocol_error() {
    let mut model = feature_model(Vec::new(), true, 100);
    model.enabled_value = text("on");
    let feature = FeatureSnapshot::new(model, Vec::new());
    let e = feature.get_value(&TrivialEntity {}).unwrap_err();
    assert!(matches!(e, Error::ProtocolError(_)));
}

#[test]
fn boolean_and_string_features() {
    let mut model = feature_model(Vec::new(), true, 100);
    model.kind = ValueKind::Boolean;
    model.enabled_value = ConfigValue::Boolean(true);
    model.disabled_value = ConfigValue::Boolean(false);
    let feature = FeatureSnapshot::new(model, Vec::new());
    assert_eq!(feature.get_value(&TrivialEntity {}).unwrap(), Value::Boolean(true));

    let mut model = feature_model(Vec::new(), false, 100);
    model.kind = ValueKind::String;
    model.enabled_value = text("on");
    model.disabled_value = text("off");
    let feature = FeatureSnapshot::new(model, Vec::new());
    assert_eq!(feature.get_value(&TrivialEntity {}).unwrap(), Value::String("off".into()));
}

#[test]
fn unknown_segment_fails_the_evaluation() {
    let feature = FeatureSnapshot::new(
        feature_model(vec![rule("missing", number(-48), 0, None)], true, 100),
        vec![name_is_heinz("s")],
    );
    let e = feature.get_value(&named("a1", "heinz")).unwrap_err();
    assert!(matches!(e, Error::EntityEvaluationError(_)));
}

#[test]
fn feature_getters() {
    let feature = FeatureSnapshot::new(feature_model(Vec::new(), true, 30), Vec::new());
    assert_eq!(Feature::get_id(&feature), "f1");
    assert_eq!(Feature::get_name(&feature).unwrap(), "F1");
    assert_eq!(Feature::get_data_type(&feature).unwrap(), ValueKind::Numeric);
    assert!(Feature::is_enabled(&feature).unwrap());
    assert_eq!(Feature::get_enabled_value(&feature).unwrap().as_i64(), Some(-42));
}
