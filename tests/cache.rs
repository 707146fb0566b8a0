use appconfiguration::models::{
    Configuration, Environment, Feature as FeatureModel, Property as PropertyModel, Segment,
    SegmentRule, Segments, TargetingRule,
};
use appconfiguration::{
    Attributes,
    ConfigValue, ConfigurationAccessError, ConfigurationSnapshot, Entity, Error, Feature,
    NumericValue, Property, Value, ValueKind,
};

struct TrivialEntity;

impl Entity for TrivialEntity {
    fn get_id(&self) -> String {
        "TrivialId".into()
    }

    fn get_attributes(&self) -> Attributes {
        Vec::new()
    }
}

fn number(v: i128) -> ConfigValue {
    ConfigValue::Numeric(NumericValue(v))
}

fn feature_model(id: &str, value: i128, segment_id: Option<&str>) -> FeatureModel {
    FeatureModel {
        name: id.to_uppercase(),
        feature_id: id.into(),
        kind: ValueKind::Numeric,
        format: None,
        enabled_value: number(value),
        disabled_value: number(-value),
        segment_rules: segment_id
            .map(|s| {
                vec![TargetingRule {
                    rules: vec![Segments { segments: vec![s.into()] }],
                    value: number(0),
                    order: 0,
                    rollout_percentage: None,
                }]
            })
            .unwrap_or_default(),
        enabled: true,
        rollout_percentage: 100,
    }
}

fn property_model(id: &str, value: i128) -> PropertyModel {
    PropertyModel {
        name: id.to_uppercase(),
        property_id: id.into(),
        kind: ValueKind::Numeric,
        tags: None,
        format: None,
        value: number(value),
        segment_rules: Vec::new(),
    }
}

fn configuration() -> Configuration {
    Configuration {
        environments: vec![
            Environment {
                name: "other".into(),
                environment_id: "prod".into(),
                features: vec![feature_model("f1", 7, None)],
                properties: Vec::new(),
            },
            Environment {
                name: "dev".into(),
                environment_id: "dev".into(),
                features: vec![
                    feature_model("f1", 42, None),
                    feature_model("f2", 1, Some("known")),
                    feature_model("f3", 1, Some("unknown")),
                    feature_model("f1", 43, None),
                ],
                properties: vec![property_model("color", 5), property_model("size", 6)],
            },
        ],
        segments: vec![Segment {
            name: "known".into(),
            segment_id: "known".into(),
            rules: vec![SegmentRule {
                attribute_name: "name".into(),
                operator: "is".into(),
                values: vec!["heinz".into()],
            }],
        }],
    }
}

#[test]
fn environment_not_found() {
    let result = ConfigurationSnapshot::new("does_for_sure_not_exist", configuration());
    assert!(matches!(
        result.unwrap_err(),
        ConfigurationAccessError::EnvironmentNotFound { ref environment_id }
            if environment_id == "does_for_sure_not_exist"
    ));
}

#[test]
fn later_feature_of_the_same_id_counts() {
    let snapshot = ConfigurationSnapshot::new("dev", configuration()).unwrap();
    let f1 = snapshot.get_feature_snapshot("f1").unwrap();
    assert_eq!(f1.get_value(&TrivialEntity).unwrap(), Value::Numeric(NumericValue(43)));
    assert_eq!(Feature::get_name(&f1).unwrap(), "F1");
}

#[test]
fn feature_and_property_ids_are_listed_once() {
    let snapshot = ConfigurationSnapshot::new("dev", configuration()).unwrap();
    let mut ids = snapshot.get_feature_ids();
    ids.sort();
    assert_eq!(ids, vec!["f1".to_string(), "f2".to_string(), "f3".to_string()]);
    let mut ids = snapshot.get_property_ids();
    ids.sort();
    assert_eq!(ids, vec!["color".to_string(), "size".to_string()]);
}

#[test]
fn unknown_feature_and_property() {
    let snapshot = ConfigurationSnapshot::new("dev", configuration()).unwrap();
    assert!(matches!(
        snapshot.get_feature_snapshot("non-existing"),
        Err(Error::ConfigurationAccessError(ConfigurationAccessError::FeatureNotFound { ref feature_id }))
            if feature_id == "non-existing"
    ));
    assert!(matches!(
        snapshot.get_property_snapshot("non-existing"),
        Err(Error::ConfigurationAccessError(ConfigurationAccessError::PropertyNotFound { ref property_id }))
            if property_id == "non-existing"
    ));
    assert!(matches!(
        snapshot.get_feature("non-existing"),
        Err(ConfigurationAccessError::FeatureNotFound { .. })
    ));
}

#[test]
fn missing_segments_are_reported() {
    let snapshot = ConfigurationSnapshot::new("dev", configuration()).unwrap();
    assert!(snapshot.get_feature_snapshot("f2").is_ok());
    assert!(matches!(
        snapshot.get_feature_snapshot("f3"),
        Err(Error::ConfigurationAccessError(ConfigurationAccessError::MissingSegments { ref resource_id }))
            if resource_id == "f3"
    ));
}

#[test]
fn first_environment_of_the_id_is_taken() {
    let mut config = configuration();
    config.environments.push(Environment {
        name: "again".into(),
        environment_id: "prod".into(),
        features: Vec::new(),
        properties: Vec::new(),
    });
    let snapshot = ConfigurationSnapshot::new("prod", config).unwrap();
    let f1 = snapshot.get_feature_snapshot("f1").unwrap();
    assert_eq!(f1.get_value(&TrivialEntity).unwrap(), Value::Numeric(NumericValue(7)));
}

#[test]
fn property_snapshot_from_configuration() {
    let snapshot = ConfigurationSnapshot::new("dev", configuration()).unwrap();
    let size = snapshot.get_property_snapshot("size").unwrap();
    assert_eq!(size.get_value(&TrivialEntity).unwrap(), Value::Numeric(NumericValue(6)));
    assert_eq!(Property::get_name(&size).unwrap(), "SIZE");
}

#[test]
fn access_error_messages() {
    let e = ConfigurationAccessError::FeatureNotFound { feature_id: "non-existing".into() };
    assert_eq!(e.message(), "Feature `non-existing` not found.");
    let e = ConfigurationAccessError::PropertyNotFound { property_id: "p".into() };
    assert_eq!(e.message(), "Property `p` not found.");
    let e = ConfigurationAccessError::MissingSegments { resource_id: "f3".into() };
    assert_eq!(e.message(), "Missing Segments for Resource `f3`.");
    let e = ConfigurationAccessError::EnvironmentNotFound { environment_id: "x".into() };
    assert_eq!(e.message(), "Environment `x` indicated as key not found in the configuration instance.");
    assert_eq!(ConfigurationAccessError::LockAcquisitionError.message(), "Error acquiring index cache lock.");
}

#[test]
fn snapshots_hold_only_the_named_segments() {
    let mut config = configuration();
    config.segments.push(Segment { name: "other".into(), segment_id: "other".into(), rules: Vec::new() });
    let snapshot = ConfigurationSnapshot::new("dev", config).unwrap();
    let f2 = snapshot.get_feature_snapshot("f2").unwrap();
    let ids: Vec<&str> = f2.segments.iter().map(|s| s.segment_id.as_str()).collect();
    assert_eq!(ids, vec!["known"]);
    let f1 = snapshot.get_feature_snapshot("f1").unwrap();
    assert!(f1.segments.is_empty());
    let size = snapshot.get_property_snapshot("size").unwrap();
    assert!(size.segments.is_empty());
}
