use appconfiguration::models::{Segment, SegmentRule, Segments, TargetingRule};
use appconfiguration::segment_evaluation::{
    belong_to_segment, find_applicable_segment_rule_for_entity, SegmentEvaluationErrorKind,
};
use appconfiguration::{
    check_operator, CheckOperatorErrorDetail, ConfigValue, NumericValue, SegmentEvaluationError,
    Value,
};

fn segments() -> Vec<Segment> {
    vec![Segment {
        name: "".into(),
        segment_id: "some_segment_id_1".into(),
        rules: vec![SegmentRule {
            attribute_name: "name".into(),
            operator: "is".into(),
            values: vec!["heinz".into()],
        }],
    }]
}

fn targeting(segment_id: &str, order: u32) -> TargetingRule {
    TargetingRule {
        rules: vec![Segments {
            segments: vec![segment_id.into()],
        }],
        value: ConfigValue::Numeric(NumericValue(-48)),
        order,
        rollout_percentage: Some(ConfigValue::Numeric(NumericValue(100))),
    }
}

fn num(v: i128) -> Value {
    Value::Numeric(NumericValue(v))
}

fn s(v: &str) -> Value {
    Value::String(v.to_string())
}

#[test]
fn attribute_not_found_is_no_match() {
    let attrs = vec![("name2".to_string(), s("heinz"))];
    let rule = find_applicable_segment_rule_for_entity(&segments(), &vec![targeting("some_segment_id_1", 0)], &attrs);
    assert!(rule.unwrap().is_none());
}

#[test]
fn invalid_segment_id_is_an_error() {
    let attrs = vec![("name".to_string(), num(42))];
    let rule = find_applicable_segment_rule_for_entity(
        &segments(),
        &vec![targeting("non_existing_segment_id", 0)],
        &attrs,
    );
    match rule.unwrap_err() {
        SegmentEvaluationError::SegmentIdNotFound(id) => assert_eq!(id, "non_existing_segment_id"),
        e => panic!("unexpected error {e:?}"),
    }
}

#[test]
fn operator_failure_is_an_error() {
    let attrs = vec![("name".to_string(), num(42))];
    let rule = find_applicable_segment_rule_for_entity(&segments(), &vec![targeting("some_segment_id_1", 0)], &attrs);
    match rule.unwrap_err() {
        SegmentEvaluationError::SegmentEvaluationFailed(SegmentEvaluationErrorKind {
            segment_id,
            segment_rule,
            value,
            source,
        }) => {
            assert_eq!(segment_id, "some_segment_id_1");
            assert_eq!(segment_rule.attribute_name, "name");
            assert_eq!(value, "heinz");
            assert_eq!(source, CheckOperatorErrorDetail::NumberExpected);
        },
        e => panic!("unexpected error {e:?}"),
    }
}

#[test]
fn smallest_order_is_chosen_whatever_the_list_order() {
    let attrs = vec![("name".to_string(), s("heinz"))];
    let rules = vec![targeting("some_segment_id_1", 5), targeting("some_segment_id_1", 2), targeting("some_segment_id_1", 9)];
    assert_eq!(find_applicable_segment_rule_for_entity(&segments(), &rules, &attrs).unwrap(), Some(1));
    let rules = vec![targeting("some_segment_id_1", 2), targeting("some_segment_id_1", 2)];
    assert_eq!(find_applicable_segment_rule_for_entity(&segments(), &rules, &attrs).unwrap(), Some(0));
}

#[test]
fn a_match_of_lower_order_wins_over_a_later_failure() {
    let attrs = vec![("name".to_string(), s("heinz"))];
    let rules = vec![targeting("missing", 3), targeting("some_segment_id_1", 1)];
    assert_eq!(find_applicable_segment_rule_for_entity(&segments(), &rules, &attrs).unwrap(), Some(1));
    let rules = vec![targeting("missing", 0), targeting("some_segment_id_1", 1)];
    assert!(find_applicable_segment_rule_for_entity(&segments(), &rules, &attrs).is_err());
}

#[test]
fn one_matching_value_outweighs_a_failed_comparison() {
    let segment = Segment {
        name: "".into(),
        segment_id: "s".into(),
        rules: vec![SegmentRule {
            attribute_name: "age".into(),
            operator: "greaterThan".into(),
            values: vec!["ten".into(), "18".into()],
        }],
    };
    let adult = vec![("age".to_string(), num(30))];
    assert!(belong_to_segment(&segment, &adult).unwrap());
    let child = vec![("age".to_string(), num(5))];
    match belong_to_segment(&segment, &child).unwrap_err() {
        SegmentEvaluationError::SegmentEvaluationFailed(k) => {
            assert_eq!(k.value, "ten");
            assert_eq!(k.source, CheckOperatorErrorDetail::NumberExpected);
        },
        e => panic!("unexpected error {e:?}"),
    }
}

#[test]
fn all_rules_of_a_segment_must_match() {
    let segment = Segment {
        name: "".into(),
        segment_id: "s".into(),
        rules: vec![
            SegmentRule { attribute_name: "city".into(), operator: "is".into(), values: vec!["Bangalore".into()] },
            SegmentRule { attribute_name: "radius".into(), operator: "lesserThanEquals".into(), values: vec!["60".into()] },
        ],
    };
    let near = vec![("city".to_string(), s("Bangalore")), ("radius".to_string(), num(60))];
    assert!(belong_to_segment(&segment, &near).unwrap());
    let far = vec![("city".to_string(), s("Bangalore")), ("radius".to_string(), num(61))];
    assert!(!belong_to_segment(&segment, &far).unwrap());
    let no_radius = vec![("city".to_string(), s("Bangalore"))];
    assert!(!belong_to_segment(&segment, &no_radius).unwrap());
}

#[test]
fn operators_on_strings() {
    assert_eq!(check_operator(&s("heinz"), "is", "heinz"), Ok(true));
    assert_eq!(check_operator(&s("heinz"), "is", "heinzz"), Ok(false));
    assert_eq!(check_operator(&s("heinz"), "contains", "ein"), Ok(true));
    assert_eq!(check_operator(&s("heinz"), "contains", "xyz"), Ok(false));
    assert_eq!(check_operator(&s("heinz"), "startsWith", "hei"), Ok(true));
    assert_eq!(check_operator(&s("heinz"), "startsWith", "einz"), Ok(false));
    assert_eq!(check_operator(&s("heinz"), "endsWith", "inz"), Ok(true));
    assert_eq!(check_operator(&s("heinz"), "endsWith", "hei"), Ok(false));
}

#[test]
fn operators_on_numbers() {
    assert_eq!(check_operator(&num(5), "is", "5"), Ok(true));
    assert_eq!(check_operator(&num(-5), "is", "-5"), Ok(true));
    assert_eq!(check_operator(&num(5), "is", "+5"), Ok(true));
    assert_eq!(check_operator(&num(5), "greaterThan", "4"), Ok(true));
    assert_eq!(check_operator(&num(5), "greaterThan", "5"), Ok(false));
    assert_eq!(check_operator(&num(5), "greaterThanEquals", "5"), Ok(true));
    assert_eq!(check_operator(&num(-5), "lesserThan", "-4"), Ok(true));
    assert_eq!(check_operator(&num(-5), "lesserThanEquals", "-6"), Ok(false));
    assert_eq!(check_operator(&num(5), "greaterThan", "five"), Err(CheckOperatorErrorDetail::NumberExpected));
    assert_eq!(check_operator(&num(5), "is", "5x"), Err(CheckOperatorErrorDetail::NumberExpected));
}

#[test]
fn operators_on_booleans() {
    assert_eq!(check_operator(&Value::Boolean(true), "is", "true"), Ok(true));
    assert_eq!(check_operator(&Value::Boolean(false), "is", "true"), Ok(false));
    assert_eq!(check_operator(&Value::Boolean(false), "is", "no"), Err(CheckOperatorErrorDetail::BooleanExpected));
}

#[test]
fn operators_on_the_wrong_kind() {
    assert_eq!(check_operator(&s("10"), "greaterThan", "5"), Err(CheckOperatorErrorDetail::EntityAttrNotANumber));
    assert_eq!(check_operator(&Value::Boolean(true), "lesserThan", "5"), Err(CheckOperatorErrorDetail::EntityAttrNotANumber));
    assert_eq!(check_operator(&num(10), "contains", "1"), Err(CheckOperatorErrorDetail::StringExpected));
    assert_eq!(check_operator(&Value::Boolean(true), "endsWith", "e"), Err(CheckOperatorErrorDetail::StringExpected));
    assert_eq!(check_operator(&s("a"), "matches", "a"), Err(CheckOperatorErrorDetail::OperatorNotImplemented));
}

#[test]
fn numbers_against_decimal_references() {
    assert_eq!(check_operator(&num(5), "is", "5.5"), Ok(false));
    assert_eq!(check_operator(&num(5), "is", "5.0"), Ok(true));
    assert_eq!(check_operator(&num(5), "is", "0.5e1"), Ok(true));
    assert_eq!(check_operator(&num(5), "is", "500E-2"), Ok(true));
    assert_eq!(check_operator(&num(5), "greaterThan", "4.9"), Ok(true));
    assert_eq!(check_operator(&num(5), "greaterThan", "5.000000000000000000000000000000000000000001"), Ok(false));
    assert_eq!(check_operator(&num(5), "lesserThan", "5.000000000000000000000000000000000000000001"), Ok(true));
    assert_eq!(check_operator(&num(-5), "lesserThan", "-4.99"), Ok(true));
    assert_eq!(check_operator(&num(-5), "greaterThan", "-5.1"), Ok(true));
    assert_eq!(check_operator(&num(0), "is", "-0.0"), Ok(true));
    assert_eq!(check_operator(&num(0), "greaterThan", "-1e-400"), Ok(true));
    assert_eq!(check_operator(&num(1), "greaterThan", "1e-400"), Ok(true));
    assert_eq!(check_operator(&num(i128::MAX), "lesserThan", "1e400"), Ok(true));
    assert_eq!(check_operator(&num(i128::MIN), "greaterThan", "-1e39"), Ok(true));
    assert_eq!(check_operator(&num(i128::MIN), "is", "-170141183460469231731687303715884105728"), Ok(true));
    assert_eq!(check_operator(&num(7), "greaterThanEquals", ".5"), Ok(true));
    assert_eq!(check_operator(&num(7), "lesserThanEquals", "7."), Ok(true));
    assert_eq!(check_operator(&num(7), "is", "+7e+0"), Ok(true));
    for bad in ["", "+", ".", "e5", "1e", "1e+", "5.5.5", "1,5", " 5", "5 ", "0x10", "inf"] {
        assert_eq!(check_operator(&num(5), "is", bad), Err(CheckOperatorErrorDetail::NumberExpected), "{bad}");
    }
}
