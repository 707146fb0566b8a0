use appconfiguration::models::{Property as PropertyModel, Segment, SegmentRule, Segments, TargetingRule};
use appconfiguration::{
    Attributes, ConfigValue, Entity, NumericValue, Property, PropertySnapshot, Value, ValueKind,
};

struct GenericEntity {
    id: String,
    attributes: Attributes,
}

impl Entity for GenericEntity {
    fn get_id(&self) -> String {
        self.id.clone()
    }

    fn get_attributes(&self) -> Attributes {
        self.attributes.clone()
    }
}

fn number(v: i128) -> ConfigValue {
    ConfigValue::Numeric(NumericValue(v))
}

fn name_is_heinz(segment_id: &str) -> Segment {
    Segment {
        name: "".into(),
        segment_id: segment_id.into(),
        rules: vec![SegmentRule {
            attribute_name: "name".into(),
            operator: "is".into(),
            values: vec!["heinz".into()],
        }],
    }
}

fn rule(segment_id: &str, value: ConfigValue, order: u32) -> TargetingRule {
    TargetingRule {
        rules: vec![Segments {
            segments: vec![segment_id.into()],
        }],
        value,
        order,
        rollout_percentage: Some(number(100)),
    }
}

fn property_model(segment_rules: Vec<TargetingRule>) -> PropertyModel {
    PropertyModel {
        name: "F1".to_string(),
        property_id: "f1".to_string(),
        kind: ValueKind::Numeric,
        tags: None,
        format: None,
        value: number(-42),
        segment_rules,
    }
}

fn heinz() -> GenericEntity {
    GenericEntity {
        id: "a2".into(),
        attributes: vec![("name".to_string(), Value::from("heinz".to_string()))],
    }
}

#[test]
fn test_get_value_segment_with_default_value() {
    let property = PropertySnapshot::new(
        property_model(vec![rule(
            "some_segment_id_1",
            ConfigValue::String("$default".into()),
            1,
        )]),
        vec![name_is_heinz("some_segment_id_1")],
    );
    let value = property.get_value(&heinz()).unwrap();
    assert!(matches!(value, Value::Numeric(ref v) if v.as_i64().unwrap() == -42));
}

#[test]
fn property_snapshot_test_get_value_segment_rule_ordering() {
    let property = PropertySnapshot::new(
        property_model(vec![
            rule("some_segment_id_1", number(-48), 1),
            rule("some_segment_id_2", number(-49), 0),
        ]),
        vec![name_is_heinz("some_segment_id_1"), name_is_heinz("some_segment_id_2")],
    );
    // Both segment rules match. The one with the smaller order is used:
    let value = property.get_value(&heinz()).unwrap();
    assert!(matches!(value, Value::Numeric(ref v) if v.as_i64().unwrap() == -49));
}

#[test]
fn property_without_match_keeps_its_value() {
    let property = PropertySnapshot::new(
        property_model(vec![rule("s", number(-48), 0)]),
        vec![name_is_heinz("s")],
    );
    let other = GenericEntity {
        id: "a2".into(),
        attributes: vec![("name".to_string(), Value::from("anna".to_string()))],
    };
    assert_eq!(property.get_value(&other).unwrap(), Value::Numeric(NumericValue(-42)));
    let bare = GenericEntity { id: "a2".into(), attributes: Vec::new() };
    assert_eq!(property.get_value(&bare).unwrap(), Value::Numeric(NumericValue(-42)));
    assert_eq!(property.get_value(&heinz()).unwrap(), Value::Numeric(NumericValue(-48)));
}

#[test]
fn property_getters() {
    let property = PropertySnapshot::new(property_model(Vec::new()), Vec::new());
    assert_eq!(Property::get_id(&property), "f1");
    assert_eq!(Property::get_name(&property).unwrap(), "F1");
    assert_eq!(Property::get_data_type(&property).unwrap(), ValueKind::Numeric);
    assert_eq!(Property::get_value_default(&property).unwrap().as_i64(), Some(-42));
}
