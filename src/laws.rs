//! Properties of evaluation that hold for all inputs.
use vstd::prelude::*;

use crate::entity::attribute_of;
use crate::feature_snapshot::{feature_outcome, rule_percentage};
use crate::models::{FeatureView, PropertyView, SegmentView, TargetingRuleView};
use crate::property_snapshot::property_outcome;
use crate::rollout::{bucket_spec, murmur3_32_of, rollout_decision, rollout_tag, should_include, tag_fits};
use crate::segment_evaluation::{
    applicable_rule, belongs_spec, check_operator_spec, is_first_decisive, rules_outcome,
    targeting_outcome, values_outcome, CheckOperatorErrorDetail, EvaluationErrorView,
    ValuesOutcome,
};
use crate::value::{default_sentinel, is_default_spec, ScalarView, Value};

verus! {

/// The bucket of an entity for a resource depends on the two ids alone and
/// lies in `[0, 100)`.
pub proof fn bucket_is_stable(e1: Seq<char>, r1: Seq<char>, e2: Seq<char>, r2: Seq<char>)
    requires
        e1 == e2,
        r1 == r2,
    ensures
        bucket_spec(murmur3_32_of(rollout_tag(e1, r1))) == bucket_spec(
            murmur3_32_of(rollout_tag(e2, r2)),
        ),
        0 <= bucket_spec(murmur3_32_of(rollout_tag(e1, r1))) < 100,
{
    let h = murmur3_32_of(rollout_tag(e1, r1));
    assert(0 <= (h as int * 100) / 0x1_0000_0000 < 100) by (nonlinear_arith)
        requires
            0 <= h < 0x1_0000_0000,
    ;
}

/// A rollout of 100 percent takes every entity in; one of 0 percent none.
/// Only the latter needs the entity to be bucketed, so only it needs a tag
/// short enough to be hashed.
pub proof fn full_and_empty_rollout(entity_id: Seq<char>, resource_id: Seq<char>)
    ensures
        should_include(100, entity_id, resource_id),
        !should_include(0, entity_id, resource_id),
        rollout_decision(100, entity_id, resource_id) == Some(true),
        tag_fits(entity_id, resource_id) ==> rollout_decision(0, entity_id, resource_id) == Some(
            false,
        ),
{
    bucket_is_stable(entity_id, resource_id, entity_id, resource_id);
}

/// Where no targeting rule is consulted, an enabled feature rolled out to
/// 100 percent gives every entity its enabled value, and one rolled out to
/// 0 percent its disabled value wherever the entity id can be bucketed.
pub proof fn rollout_bounds_decide_feature_value(
    f: FeatureView,
    segments: Map<Seq<char>, SegmentView>,
    entity_id: Seq<char>,
    attrs: Seq<(String, Value)>,
)
    requires
        f.enabled,
        f.segment_rules.len() == 0 || attrs.len() == 0,
    ensures
        f.rollout_percentage == 100 ==> feature_outcome(f, segments, entity_id, attrs) == Ok::<
            ScalarView,
            crate::feature_snapshot::ResolutionFailure,
        >(f.enabled_value),
        f.rollout_percentage == 0 && tag_fits(entity_id, f.feature_id) ==> feature_outcome(f, segments, entity_id, attrs) == Ok::<
            ScalarView,
            crate::feature_snapshot::ResolutionFailure,
        >(f.disabled_value),
{
    full_and_empty_rollout(entity_id, f.feature_id);
}

/// A disabled feature gives every entity its disabled value.
pub proof fn disabled_feature_gives_disabled_value(
    f: FeatureView,
    segments: Map<Seq<char>, SegmentView>,
    entity_id: Seq<char>,
    attrs: Seq<(String, Value)>,
)
    requires
        !f.enabled,
    ensures
        feature_outcome(f, segments, entity_id, attrs) == Ok::<
            ScalarView,
            crate::feature_snapshot::ResolutionFailure,
        >(f.disabled_value),
{
}

/// Of the targeting rules that match an entity, the chosen one has the
/// smallest order.
pub proof fn smallest_order_wins(
    rules: Seq<TargetingRuleView>,
    segments: Map<Seq<char>, SegmentView>,
    attrs: Seq<(String, Value)>,
    k: int,
)
    requires
        applicable_rule(rules, segments, attrs) == Ok::<Option<int>, EvaluationErrorView>(Some(k)),
    ensures
        0 <= k < rules.len(),
        targeting_outcome(rules[k].groups, segments, attrs) == Ok::<bool, EvaluationErrorView>(true),
        forall|j: int|
            0 <= j < rules.len() && targeting_outcome(rules[j].groups, segments, attrs) == Ok::<
                bool,
                EvaluationErrorView,
            >(true) ==> rules[k].order <= #[trigger] rules[j].order,
{
    let c = choose|c: int| is_first_decisive(rules, segments, attrs, c);
    assert(c == k);
    assert(crate::segment_evaluation::decisive(rules, segments, attrs, k));
    match targeting_outcome(rules[k].groups, segments, attrs) {
        Ok(b) => {
            assert(b);
        },
        Err(_) => {
            assert(false);
        },
    }
    assert forall|j: int|
        0 <= j < rules.len() && targeting_outcome(rules[j].groups, segments, attrs) == Ok::<
            bool,
            EvaluationErrorView,
        >(true) implies rules[k].order <= #[trigger] rules[j].order by {
        if j != k {
            assert(crate::segment_evaluation::decisive(rules, segments, attrs, j));
        }
    }
}

/// No targeting rule is chosen exactly when every rule evaluates to "does
/// not apply".
pub proof fn no_rule_applies(
    rules: Seq<TargetingRuleView>,
    segments: Map<Seq<char>, SegmentView>,
    attrs: Seq<(String, Value)>,
)
    ensures
        applicable_rule(rules, segments, attrs) == Ok::<Option<int>, EvaluationErrorView>(None)
            <==> forall|j: int|
            0 <= j < rules.len() ==> #[trigger] targeting_outcome(rules[j].groups, segments, attrs)
                == Ok::<bool, EvaluationErrorView>(false),
{
    if forall|j: int|
        0 <= j < rules.len() ==> #[trigger] targeting_outcome(rules[j].groups, segments, attrs)
            == Ok::<bool, EvaluationErrorView>(false) {
        assert forall|k: int| !is_first_decisive(rules, segments, attrs, k) by {
            if 0 <= k < rules.len() {
                assert(targeting_outcome(rules[k].groups, segments, attrs) == Ok::<
                    bool,
                    EvaluationErrorView,
                >(false));
            }
        }
    } else {
        let j = choose|j: int|
            0 <= j < rules.len() && #[trigger] targeting_outcome(rules[j].groups, segments, attrs)
                != Ok::<bool, EvaluationErrorView>(false);
        assert(crate::segment_evaluation::decisive(rules, segments, attrs, j));
        // The decisive rule of least (order, position) exists: take a least one.
        let best = least_decisive(rules, segments, attrs, j, rules.len() as int);
        assert(is_first_decisive(rules, segments, attrs, best));
        let c = choose|c: int| is_first_decisive(rules, segments, attrs, c);
        assert(crate::segment_evaluation::decisive(rules, segments, attrs, c));
    }
}

/// A decisive rule that precedes every other decisive rule below `n`,
/// given the decisive rule `j` below `n`.
proof fn least_decisive(
    rules: Seq<TargetingRuleView>,
    segments: Map<Seq<char>, SegmentView>,
    attrs: Seq<(String, Value)>,
    j: int,
    n: int,
) -> (k: int)
    requires
        0 <= j < n <= rules.len(),
        crate::segment_evaluation::decisive(rules, segments, attrs, j),
    ensures
        0 <= k < n,
        crate::segment_evaluation::decisive(rules, segments, attrs, k),
        forall|i: int|
            0 <= i < n && i != k && #[trigger] crate::segment_evaluation::decisive(
                rules,
                segments,
                attrs,
                i,
            ) ==> crate::segment_evaluation::precedes(rules, k, i),
    decreases n,
{
    if j == n - 1 {
        if exists|i: int| 0 <= i < n - 1 && #[trigger] crate::segment_evaluation::decisive(rules, segments, attrs, i) {
            let i0 = choose|i: int| 0 <= i < n - 1 && #[trigger] crate::segment_evaluation::decisive(rules, segments, attrs, i);
            let k0 = least_decisive(rules, segments, attrs, i0, n - 1);
            if rules[j].order < rules[k0].order {
                j
            } else {
                k0
            }
        } else {
            j
        }
    } else {
        let k0 = least_decisive(rules, segments, attrs, j, n - 1);
        let last = n - 1;
        if crate::segment_evaluation::decisive(rules, segments, attrs, last) && rules[last].order
            < rules[k0].order {
            last
        } else {
            k0
        }
    }
}

/// A matched rule whose rollout percentage is `"$default"`, or absent,
/// takes the feature's own percentage.
pub proof fn default_percentage_is_the_feature_percentage(own: Option<ScalarView>, base: u32)
    requires
        own.is_none() || is_default_spec(own.unwrap()),
    ensures
        rule_percentage(own, base) == Some(base),
{
}

/// A matched rule whose value is `"$default"` gives the feature's enabled
/// value to the entities in its rollout.
pub proof fn default_rule_value_is_the_enabled_value(
    f: FeatureView,
    segments: Map<Seq<char>, SegmentView>,
    entity_id: Seq<char>,
    attrs: Seq<(String, Value)>,
    k: int,
)
    requires
        f.enabled,
        f.segment_rules.len() > 0,
        attrs.len() > 0,
        applicable_rule(f.segment_rules, segments, attrs) == Ok::<Option<int>, EvaluationErrorView>(
            Some(k),
        ),
        f.segment_rules[k].value == ScalarView::String(default_sentinel()),
        rule_percentage(f.segment_rules[k].rollout_percentage, f.rollout_percentage) is Some,
        rollout_decision(
            rule_percentage(f.segment_rules[k].rollout_percentage, f.rollout_percentage)->Some_0,
            entity_id,
            f.feature_id,
        ) == Some(true),
    ensures
        feature_outcome(f, segments, entity_id, attrs) == Ok::<
            ScalarView,
            crate::feature_snapshot::ResolutionFailure,
        >(f.enabled_value),
{
}

/// A matched rule whose value is `"$default"` gives the property its base
/// value.
pub proof fn default_rule_value_is_the_property_value(
    p: PropertyView,
    segments: Map<Seq<char>, SegmentView>,
    attrs: Seq<(String, Value)>,
    k: int,
)
    requires
        p.segment_rules.len() > 0,
        attrs.len() > 0,
        applicable_rule(p.segment_rules, segments, attrs) == Ok::<Option<int>, EvaluationErrorView>(
            Some(k),
        ),
        p.segment_rules[k].value == ScalarView::String(default_sentinel()),
    ensures
        property_outcome(p, segments, attrs) == Ok::<
            ScalarView,
            crate::feature_snapshot::ResolutionFailure,
        >(p.value),
{
}

/// A segment with a rule on an attribute that the entity lacks does not
/// take the entity in; where no comparison fails this is no error.
pub proof fn missing_attribute_is_no_match(
    segment_id: Seq<char>,
    rules: Seq<crate::models::SegmentRuleView>,
    attrs: Seq<(String, Value)>,
    m: int,
)
    requires
        0 <= m < rules.len(),
        attribute_of(attrs, rules[m].attribute_name).is_none(),
        forall|i: int|
            0 <= i < rules.len() && #[trigger] attribute_of(attrs, rules[i].attribute_name).is_some()
                ==> !(values_outcome(
                attribute_of(attrs, rules[i].attribute_name).unwrap(),
                rules[i].operator,
                rules[i].values,
            ) is Failed),
    ensures
        rules_outcome(segment_id, rules, attrs) == Ok::<bool, EvaluationErrorView>(false),
    decreases rules.len(),
{
    if attribute_of(attrs, rules[0].attribute_name).is_some() {
        assert(m > 0);
        let rest = rules.drop_first();
        assert forall|i: int|
            0 <= i < rest.len() && #[trigger] attribute_of(attrs, rest[i].attribute_name).is_some()
                implies !(values_outcome(
                attribute_of(attrs, rest[i].attribute_name).unwrap(),
                rest[i].operator,
                rest[i].values,
            ) is Failed) by {
            assert(rest[i] == rules[i + 1]);
        }
        assert(rest[m - 1] == rules[m]);
        missing_attribute_is_no_match(segment_id, rest, attrs, m - 1);
    }
}

/// An order comparison of a string attribute fails with an error, which a
/// non-matching comparison never gives.
pub proof fn numeric_operator_on_string_fails(s: Seq<char>, op: Seq<char>, reference: Seq<char>)
    requires
        op == "greaterThan"@ || op == "lesserThan"@ || op == "greaterThanEquals"@ || op
            == "lesserThanEquals"@,
    ensures
        check_operator_spec(ScalarView::String(s), op, reference) == Err::<
            bool,
            CheckOperatorErrorDetail,
        >(CheckOperatorErrorDetail::EntityAttrNotANumber),
{
    reveal_strlit("is");
    reveal_strlit("contains");
    reveal_strlit("startsWith");
    reveal_strlit("endsWith");
    reveal_strlit("greaterThan");
    reveal_strlit("lesserThan");
    reveal_strlit("greaterThanEquals");
    reveal_strlit("lesserThanEquals");
    assert("is"@.len() != op.len());
    assert("contains"@ != op) by {
        if "contains"@ == op {
            assert(op[0] == 'c');
        }
    }
    assert("startsWith"@ != op) by {
        if "startsWith"@ == op {
            assert(op[0] == 's');
        }
    }
    assert("endsWith"@ != op) by {
        if "endsWith"@ == op {
            assert(op[0] == 'e');
        }
    }
}

/// A string operator applied to an attribute that is not a string fails
/// with an error.
pub proof fn string_operator_on_other_fails(attr: ScalarView, op: Seq<char>, reference: Seq<char>)
    requires
        op == "contains"@ || op == "startsWith"@ || op == "endsWith"@,
        !(attr is String),
    ensures
        check_operator_spec(attr, op, reference) == Err::<bool, CheckOperatorErrorDetail>(
            CheckOperatorErrorDetail::StringExpected,
        ),
{
    reveal_strlit("is");
    reveal_strlit("contains");
    reveal_strlit("startsWith");
    reveal_strlit("endsWith");
    assert("is"@.len() != op.len());
}

/// A segment whose only rule compares a string attribute by order fails
/// with an error naming the segment, the rule and the value, instead of not
/// matching.
pub proof fn wrong_type_is_an_error(segment: SegmentView, attrs: Seq<(String, Value)>, s: Seq<char>)
    requires
        segment.rules.len() == 1,
        segment.rules[0].values.len() == 1,
        attribute_of(attrs, segment.rules[0].attribute_name) == Some(ScalarView::String(s)),
        segment.rules[0].operator == "greaterThan"@,
    ensures
        belongs_spec(segment, attrs) == Err::<bool, EvaluationErrorView>(
            EvaluationErrorView::Failed {
                segment_id: segment.segment_id,
                rule: segment.rules[0],
                value: segment.rules[0].values[0],
                detail: CheckOperatorErrorDetail::EntityAttrNotANumber,
            },
        ),
{
    let rule = segment.rules[0];
    numeric_operator_on_string_fails(s, rule.operator, rule.values[0]);
    assert(rule.values.drop_first().len() == 0);
    assert(values_outcome(ScalarView::String(s), rule.operator, rule.values.drop_first())
        == ValuesOutcome::NoMatch);
}

} // verus!
