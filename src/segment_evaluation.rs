//! Segment membership and the choice of the applicable targeting rule.
use vstd::prelude::*;

use crate::entity::{attribute_of, find_attribute, Attributes};
use crate::keyed::{keyed_map, lemma_keyed_map_prefix};
use crate::models::{Segment, SegmentRule, SegmentRuleView, SegmentView, TargetingRule, TargetingRuleView};
use crate::decimal::{compare_decimal, compare_with_reference, decimal_of};
use crate::text::{
    bool_of, contains_spec, ends_with_spec, parse_bool, starts_with_spec, text_contains,
    text_ends_with, text_starts_with,
};
use crate::value::{text_eq, ScalarView, Value};

verus! {

/// Why one comparison of an attribute with a reference value failed.
#[derive(Debug, Clone, Copy, PartialEq, Eq, Structural)]
pub enum CheckOperatorErrorDetail {
    /// The operator needs a string attribute.
    StringExpected,
    /// The attribute is a boolean and the reference value is no boolean.
    BooleanExpected,
    /// The attribute is a number and the reference value is no integer.
    NumberExpected,
    /// The operator needs a numeric attribute.
    EntityAttrNotANumber,
    /// The operator is unknown.
    OperatorNotImplemented,
}

/// Compares a numeric attribute with a reference value read as a decimal
/// number; `cmp` tells from the sign of the comparison whether it holds.
pub open spec fn numeric_check(
    attr: ScalarView,
    reference: Seq<char>,
    cmp: spec_fn(int) -> bool,
) -> Result<bool, CheckOperatorErrorDetail> {
    match attr {
        ScalarView::Numeric(n) => match decimal_of(reference) {
            Some((m, e)) => Ok(cmp(compare_decimal(n, m, e))),
            None => Err(CheckOperatorErrorDetail::NumberExpected),
        },
        _ => Err(CheckOperatorErrorDetail::EntityAttrNotANumber),
    }
}

/// The outcome of comparing an attribute with one reference value.
pub open spec fn check_operator_spec(attr: ScalarView, op: Seq<char>, reference: Seq<char>) -> Result<
    bool,
    CheckOperatorErrorDetail,
> {
    if op == "is"@ {
        match attr {
            ScalarView::String(s) => Ok(s == reference),
            ScalarView::Boolean(b) => match bool_of(reference) {
                Some(r) => Ok(b == r),
                None => Err(CheckOperatorErrorDetail::BooleanExpected),
            },
            ScalarView::Numeric(n) => match decimal_of(reference) {
                Some((m, e)) => Ok(compare_decimal(n, m, e) == 0),
                None => Err(CheckOperatorErrorDetail::NumberExpected),
            },
        }
    } else if op == "contains"@ || op == "startsWith"@ || op == "endsWith"@ {
        match attr {
            ScalarView::String(s) => Ok(
                if op == "contains"@ {
                    contains_spec(s, reference)
                } else if op == "startsWith"@ {
                    starts_with_spec(s, reference)
                } else {
                    ends_with_spec(s, reference)
                },
            ),
            _ => Err(CheckOperatorErrorDetail::StringExpected),
        }
    } else if op == "greaterThan"@ {
        numeric_check(attr, reference, |c: int| c > 0)
    } else if op == "lesserThan"@ {
        numeric_check(attr, reference, |c: int| c < 0)
    } else if op == "greaterThanEquals"@ {
        numeric_check(attr, reference, |c: int| c >= 0)
    } else if op == "lesserThanEquals"@ {
        numeric_check(attr, reference, |c: int| c <= 0)
    } else {
        Err(CheckOperatorErrorDetail::OperatorNotImplemented)
    }
}

/// Compares an attribute with one reference value under an operator.
pub fn check_operator(attribute_value: &Value, operator: &str, reference_value: &str) -> (r: Result<
    bool,
    CheckOperatorErrorDetail,
>)
    ensures
        r == check_operator_spec(attribute_value@, operator@, reference_value@),
{
    if text_eq(operator, "is") {
        match attribute_value {
            Value::String(data) => Ok(text_eq(data.as_str(), reference_value)),
            Value::Boolean(data) => match parse_bool(reference_value) {
                Some(r) => Ok(*data == r),
                None => Err(CheckOperatorErrorDetail::BooleanExpected),
            },
            Value::Numeric(data) => match compare_with_reference(data.0, reference_value) {
                Some(c) => Ok(c == 0),
                None => Err(CheckOperatorErrorDetail::NumberExpected),
            },
        }
    } else if text_eq(operator, "contains") {
        match attribute_value {
            Value::String(data) => Ok(text_contains(data.as_str(), reference_value)),
            _ => Err(CheckOperatorErrorDetail::StringExpected),
        }
    } else if text_eq(operator, "startsWith") {
        match attribute_value {
            Value::String(data) => Ok(text_starts_with(data.as_str(), reference_value)),
            _ => Err(CheckOperatorErrorDetail::StringExpected),
        }
    } else if text_eq(operator, "endsWith") {
        match attribute_value {
            Value::String(data) => Ok(text_ends_with(data.as_str(), reference_value)),
            _ => Err(CheckOperatorErrorDetail::StringExpected),
        }
    } else if text_eq(operator, "greaterThan") || text_eq(operator, "lesserThan") || text_eq(
        operator,
        "greaterThanEquals",
    ) || text_eq(operator, "lesserThanEquals") {
        match attribute_value {
            Value::Numeric(data) => match compare_with_reference(data.0, reference_value) {
                Some(c) => {
                    if text_eq(operator, "greaterThan") {
                        Ok(c > 0)
                    } else if text_eq(operator, "lesserThan") {
                        Ok(c < 0)
                    } else if text_eq(operator, "greaterThanEquals") {
                        Ok(c >= 0)
                    } else {
                        Ok(c <= 0)
                    }
                },
                None => Err(CheckOperatorErrorDetail::NumberExpected),
            },
            _ => Err(CheckOperatorErrorDetail::EntityAttrNotANumber),
        }
    } else {
        Err(CheckOperatorErrorDetail::OperatorNotImplemented)
    }
}

} // verus!

verus! {

/// Why deciding segment membership failed.
#[derive(Debug)]
pub enum SegmentEvaluationError {
    /// A comparison failed and no other reference value of the rule matched.
    SegmentEvaluationFailed(SegmentEvaluationErrorKind),
    /// A targeting rule names a segment that is not known.
    SegmentIdNotFound(String),
}

/// Where a comparison failed: the segment, its rule, the reference value.
#[derive(Debug)]
pub struct SegmentEvaluationErrorKind {
    pub segment_id: String,
    pub segment_rule: SegmentRule,
    pub value: String,
    pub source: CheckOperatorErrorDetail,
}

pub enum EvaluationErrorView {
    Failed {
        segment_id: Seq<char>,
        rule: SegmentRuleView,
        value: Seq<char>,
        detail: CheckOperatorErrorDetail,
    },
    SegmentIdNotFound(Seq<char>),
}

impl View for SegmentEvaluationError {
    type V = EvaluationErrorView;

    open spec fn view(&self) -> EvaluationErrorView {
        match self {
            SegmentEvaluationError::SegmentEvaluationFailed(k) => EvaluationErrorView::Failed {
                segment_id: k.segment_id@,
                rule: k.segment_rule@,
                value: k.value@,
                detail: k.source,
            },
            SegmentEvaluationError::SegmentIdNotFound(id) => EvaluationErrorView::SegmentIdNotFound(
                id@,
            ),
        }
    }
}

pub open spec fn result_view(r: Result<bool, SegmentEvaluationError>) -> Result<bool, EvaluationErrorView> {
    match r {
        Ok(b) => Ok(b),
        Err(e) => Err(e@),
    }
}

/// How the reference values of one segment rule fare against an attribute.
pub enum ValuesOutcome {
    Matched,
    NoMatch,
    Failed(Seq<char>, CheckOperatorErrorDetail),
}

/// A rule matches when any reference value matches; otherwise the first
/// value whose comparison failed makes it fail; otherwise it does not match.
pub open spec fn values_outcome(attr: ScalarView, op: Seq<char>, values: Seq<Seq<char>>) -> ValuesOutcome
    decreases values.len(),
{
    if values.len() == 0 {
        ValuesOutcome::NoMatch
    } else {
        let rest = values_outcome(attr, op, values.drop_first());
        match check_operator_spec(attr, op, values[0]) {
            Ok(true) => ValuesOutcome::Matched,
            Ok(false) => rest,
            Err(d) => if rest == ValuesOutcome::Matched {
                ValuesOutcome::Matched
            } else {
                ValuesOutcome::Failed(values[0], d)
            },
        }
    }
}

/// The outcome of the remaining values, after an earlier value failed.
pub open spec fn after_failure(
    failed: Option<(Seq<char>, CheckOperatorErrorDetail)>,
    rest: ValuesOutcome,
) -> ValuesOutcome {
    match failed {
        None => rest,
        Some((v, d)) => if rest == ValuesOutcome::Matched {
            ValuesOutcome::Matched
        } else {
            ValuesOutcome::Failed(v, d)
        },
    }
}

/// Checks the reference values of `rule` against an attribute. On failure
/// it gives the index of the first value whose comparison failed.
fn rule_values_match(attr: &Value, rule: &SegmentRule) -> (r: Result<bool, (usize, CheckOperatorErrorDetail)>)
    ensures
        match r {
            Ok(true) => values_outcome(attr@, rule@.operator, rule@.values) == ValuesOutcome::Matched,
            Ok(false) => values_outcome(attr@, rule@.operator, rule@.values) == ValuesOutcome::NoMatch,
            Err((i, d)) => i < rule@.values.len() && values_outcome(attr@, rule@.operator, rule@.values)
                == ValuesOutcome::Failed(rule@.values[i as int], d),
        },
{
    let ghost values = rule@.values;
    let mut failed: Option<(usize, CheckOperatorErrorDetail)> = None;
    let mut i: usize = 0;
    assert(values.subrange(0, values.len() as int) =~= values);
    while i < rule.values.len()
        invariant
            values == rule@.values,
            values.len() == rule.values@.len(),
            i <= values.len(),
            match failed {
                Some((k, _)) => k < i,
                None => true,
            },
            values_outcome(attr@, rule@.operator, values) == after_failure(
                match failed {
                    Some((k, d)) => Some((values[k as int], d)),
                    None => None,
                },
                values_outcome(attr@, rule@.operator, values.subrange(i as int, values.len() as int)),
            ),
        decreases values.len() - i,
    {
        assert(values.subrange(i as int, values.len() as int).drop_first() =~= values.subrange(
            i + 1,
            values.len() as int,
        ));
        assert(values[i as int] == rule.values@[i as int]@);
        match check_operator(attr, rule.operator.as_str(), rule.values[i].as_str()) {
            Ok(true) => {
                return Ok(true);
            },
            Ok(false) => {},
            Err(d) => {
                if failed.is_none() {
                    failed = Some((i, d));
                }
            },
        }
        i += 1;
    }
    match failed {
        None => Ok(false),
        Some(e) => Err(e),
    }
}

/// Whether the entity satisfies all of a segment's rules. An attribute that
/// the entity lacks makes the segment not match.
pub open spec fn rules_outcome(
    segment_id: Seq<char>,
    rules: Seq<SegmentRuleView>,
    attrs: Seq<(String, Value)>,
) -> Result<bool, EvaluationErrorView>
    decreases rules.len(),
{
    if rules.len() == 0 {
        Ok(true)
    } else {
        let rule = rules[0];
        match attribute_of(attrs, rule.attribute_name) {
            None => Ok(false),
            Some(a) => match values_outcome(a, rule.operator, rule.values) {
                ValuesOutcome::Matched => rules_outcome(segment_id, rules.drop_first(), attrs),
                ValuesOutcome::NoMatch => Ok(false),
                ValuesOutcome::Failed(v, d) => Err(
                    EvaluationErrorView::Failed {
                        segment_id,
                        rule,
                        value: v,
                        detail: d,
                    },
                ),
            },
        }
    }
}

/// Whether an entity with these attributes belongs to the segment.
pub open spec fn belongs_spec(segment: SegmentView, attrs: Seq<(String, Value)>) -> Result<
    bool,
    EvaluationErrorView,
> {
    rules_outcome(segment.segment_id, segment.rules, attrs)
}

/// Decides whether an entity with these attributes belongs to the segment.
pub fn belong_to_segment(segment: &Segment, attrs: &Attributes) -> (r: Result<bool, SegmentEvaluationError>)
    ensures
        result_view(r) == belongs_spec(segment@, attrs@),
{
    let ghost rules = segment@.rules;
    let mut i: usize = 0;
    assert(rules.subrange(0, rules.len() as int) =~= rules);
    while i < segment.rules.len()
        invariant
            rules == segment@.rules,
            rules.len() == segment.rules@.len(),
            i <= rules.len(),
            belongs_spec(segment@, attrs@) == rules_outcome(
                segment@.segment_id,
                rules.subrange(i as int, rules.len() as int),
                attrs@,
            ),
        decreases rules.len() - i,
    {
        assert(rules.subrange(i as int, rules.len() as int).drop_first() =~= rules.subrange(
            i + 1,
            rules.len() as int,
        ));
        let rule = &segment.rules[i];
        assert(rules[i as int] == rule@);
        match find_attribute(attrs, rule.attribute_name.as_str()) {
            None => {
                return Ok(false);
            },
            Some(attr) => match rule_values_match(attr, rule) {
                Ok(true) => {},
                Ok(false) => {
                    return Ok(false);
                },
                Err((k, d)) => {
                    assert(rule@.values[k as int] == rule.values@[k as int]@);
                    return Err(
                        SegmentEvaluationError::SegmentEvaluationFailed(
                            SegmentEvaluationErrorKind {
                                segment_id: segment.segment_id.clone(),
                                segment_rule: rule.clone(),
                                value: rule.values[k].clone(),
                                source: d,
                            },
                        ),
                    );
                },
            },
        }
        i += 1;
    }
    Ok(true)
}

/// The segments by id; of two with the same id the later one counts.
pub open spec fn segments_map(s: Seq<Segment>) -> Map<Seq<char>, SegmentView> {
    keyed_map(s, |g: Segment| g.segment_id@, |g: Segment| g@)
}

/// Looks up a segment by id.
pub fn find_segment<'a>(segments: &'a Vec<Segment>, id: &str) -> (r: Option<&'a Segment>)
    ensures
        match r {
            Some(seg) => segments_map(segments@).contains_key(id@) && segments_map(segments@)[id@]
                == seg@,
            None => !segments_map(segments@).contains_key(id@),
        },
{
    let mut i: usize = segments.len();
    while i > 0
        invariant
            i <= segments@.len(),
            forall|j: int| i <= j < segments@.len() ==> (#[trigger] segments@[j]).segment_id@ != id@,
        decreases i,
    {
        let k = i - 1;
        if text_eq(segments[k].segment_id.as_str(), id) {
            proof {
                lemma_keyed_map_prefix(segments@, |g: Segment| g.segment_id@, |g: Segment| g@, i as int, id@);
                assert(segments@.subrange(0, i as int).drop_last() =~= segments@.subrange(0, k as int));
            }
            return Some(&segments[k]);
        }
        i = k;
    }
    proof {
        lemma_keyed_map_prefix(segments@, |g: Segment| g.segment_id@, |g: Segment| g@, 0, id@);
        assert(segments_map(segments@.subrange(0, 0)) == Map::<Seq<char>, SegmentView>::empty());
    }
    None
}

/// Whether any segment of a group takes the entity in. A segment id that is
/// not known is an error.
pub open spec fn group_outcome(
    ids: Seq<Seq<char>>,
    segments: Map<Seq<char>, SegmentView>,
    attrs: Seq<(String, Value)>,
) -> Result<bool, EvaluationErrorView>
    decreases ids.len(),
{
    if ids.len() == 0 {
        Ok(false)
    } else if !segments.contains_key(ids[0]) {
        Err(EvaluationErrorView::SegmentIdNotFound(ids[0]))
    } else {
        match belongs_spec(segments[ids[0]], attrs) {
            Err(e) => Err(e),
            Ok(true) => Ok(true),
            Ok(false) => group_outcome(ids.drop_first(), segments, attrs),
        }
    }
}

/// Decides whether any of the segments `segment_ids` takes the entity in.
pub fn segment_applies_to_entity(
    segments: &Vec<Segment>,
    segment_ids: &Vec<String>,
    attrs: &Attributes,
) -> (r: Result<bool, SegmentEvaluationError>)
    ensures
        result_view(r) == group_outcome(
            crate::models::texts_view(segment_ids@),
            segments_map(segments@),
            attrs@,
        ),
{
    let ghost ids = crate::models::texts_view(segment_ids@);
    let mut i: usize = 0;
    assert(ids.subrange(0, ids.len() as int) =~= ids);
    while i < segment_ids.len()
        invariant
            ids == crate::models::texts_view(segment_ids@),
            ids.len() == segment_ids@.len(),
            i <= ids.len(),
            group_outcome(ids, segments_map(segments@), attrs@) == group_outcome(
                ids.subrange(i as int, ids.len() as int),
                segments_map(segments@),
                attrs@,
            ),
        decreases ids.len() - i,
    {
        assert(ids.subrange(i as int, ids.len() as int).drop_first() =~= ids.subrange(
            i + 1,
            ids.len() as int,
        ));
        assert(ids[i as int] == segment_ids@[i as int]@);
        match find_segment(segments, segment_ids[i].as_str()) {
            None => {
                return Err(SegmentEvaluationError::SegmentIdNotFound(segment_ids[i].clone()));
            },
            Some(segment) => match belong_to_segment(segment, attrs) {
                Err(e) => {
                    return Err(e);
                },
                Ok(true) => {
                    return Ok(true);
                },
                Ok(false) => {},
            },
        }
        i += 1;
    }
    Ok(false)
}

/// Whether any segment group of a targeting rule takes the entity in.
pub open spec fn targeting_outcome(
    groups: Seq<Seq<Seq<char>>>,
    segments: Map<Seq<char>, SegmentView>,
    attrs: Seq<(String, Value)>,
) -> Result<bool, EvaluationErrorView>
    decreases groups.len(),
{
    if groups.len() == 0 {
        Ok(false)
    } else {
        match group_outcome(groups[0], segments, attrs) {
            Err(e) => Err(e),
            Ok(true) => Ok(true),
            Ok(false) => targeting_outcome(groups.drop_first(), segments, attrs),
        }
    }
}

/// Decides whether the targeting rule applies to an entity.
pub fn targeting_rule_applies_to_entity(
    segments: &Vec<Segment>,
    targeting_rule: &TargetingRule,
    attrs: &Attributes,
) -> (r: Result<bool, SegmentEvaluationError>)
    ensures
        result_view(r) == targeting_outcome(targeting_rule@.groups, segments_map(segments@), attrs@),
{
    let ghost groups = targeting_rule@.groups;
    let mut i: usize = 0;
    assert(groups.subrange(0, groups.len() as int) =~= groups);
    while i < targeting_rule.rules.len()
        invariant
            groups == targeting_rule@.groups,
            groups.len() == targeting_rule.rules@.len(),
            i <= groups.len(),
            targeting_outcome(groups, segments_map(segments@), attrs@) == targeting_outcome(
                groups.subrange(i as int, groups.len() as int),
                segments_map(segments@),
                attrs@,
            ),
        decreases groups.len() - i,
    {
        assert(groups.subrange(i as int, groups.len() as int).drop_first() =~= groups.subrange(
            i + 1,
            groups.len() as int,
        ));
        assert(groups[i as int] == targeting_rule.rules@[i as int]@);
        match segment_applies_to_entity(segments, &targeting_rule.rules[i].segments, attrs) {
            Err(e) => {
                return Err(e);
            },
            Ok(true) => {
                return Ok(true);
            },
            Ok(false) => {},
        }
        i += 1;
    }
    Ok(false)
}

} // verus!

verus! {

/// Whether evaluating rule `i` settles the choice: it matches, or it fails.
pub open spec fn decisive(
    rules: Seq<TargetingRuleView>,
    segments: Map<Seq<char>, SegmentView>,
    attrs: Seq<(String, Value)>,
    i: int,
) -> bool {
    targeting_outcome(rules[i].groups, segments, attrs) != Ok::<bool, EvaluationErrorView>(false)
}

/// Rule `i` is evaluated before rule `j`: lower order first, then list order.
pub open spec fn precedes(rules: Seq<TargetingRuleView>, i: int, j: int) -> bool {
    rules[i].order < rules[j].order || (rules[i].order == rules[j].order && i < j)
}

/// Rule `k` is the first decisive rule in evaluation order.
pub open spec fn is_first_decisive(
    rules: Seq<TargetingRuleView>,
    segments: Map<Seq<char>, SegmentView>,
    attrs: Seq<(String, Value)>,
    k: int,
) -> bool {
    &&& 0 <= k < rules.len()
    &&& decisive(rules, segments, attrs, k)
    &&& forall|j: int|
        0 <= j < rules.len() && j != k && #[trigger] decisive(rules, segments, attrs, j) ==> precedes(
            rules,
            k,
            j,
        )
}

/// The applicable targeting rule: rules are taken by ascending order (list
/// order among equal orders) and the first that matches is chosen; a failure
/// met before any match is the result.
pub open spec fn applicable_rule(
    rules: Seq<TargetingRuleView>,
    segments: Map<Seq<char>, SegmentView>,
    attrs: Seq<(String, Value)>,
) -> Result<Option<int>, EvaluationErrorView> {
    if exists|k: int| is_first_decisive(rules, segments, attrs, k) {
        let k = choose|k: int| is_first_decisive(rules, segments, attrs, k);
        match targeting_outcome(rules[k].groups, segments, attrs) {
            Err(e) => Err(e),
            Ok(_) => Ok(Some(k)),
        }
    } else {
        Ok(None)
    }
}

proof fn lemma_first_decisive_unique(
    rules: Seq<TargetingRuleView>,
    segments: Map<Seq<char>, SegmentView>,
    attrs: Seq<(String, Value)>,
    k1: int,
    k2: int,
)
    requires
        is_first_decisive(rules, segments, attrs, k1),
        is_first_decisive(rules, segments, attrs, k2),
    ensures
        k1 == k2,
{
    if k1 != k2 {
        assert(precedes(rules, k1, k2));
        assert(precedes(rules, k2, k1));
    }
}

/// Whether rule `j` comes after rule `last` in evaluation order (every rule
/// does, where none has been evaluated yet).
pub open spec fn comes_after(rules: Seq<TargetingRuleView>, last: Option<usize>, j: int) -> bool {
    match last {
        None => true,
        Some(l) => precedes(rules, l as int, j),
    }
}

/// The rules evaluated up to and including `last`.
pub open spec fn evaluated(rules: Seq<TargetingRuleView>, last: Option<usize>) -> Set<int> {
    Set::new(|j: int| 0 <= j < rules.len() && !comes_after(rules, last, j))
}

/// The rule that comes right after `last` in evaluation order, if any.
fn next_in_order(rules: &Vec<TargetingRule>, last: Option<usize>) -> (r: Option<usize>)
    requires
        match last {
            Some(l) => l < rules@.len(),
            None => true,
        },
    ensures
        match r {
            None => forall|j: int|
                0 <= j < rules@.len() ==> !comes_after(
                    crate::models::rules_view(rules@),
                    last,
                    j,
                ),
            Some(k) => {
                &&& k < rules@.len()
                &&& comes_after(crate::models::rules_view(rules@), last, k as int)
                &&& forall|j: int|
                    0 <= j < rules@.len() && j != k && comes_after(
                        crate::models::rules_view(rules@),
                        last,
                        j,
                    ) ==> precedes(crate::models::rules_view(rules@), k as int, j)
            },
        },
{
    let ghost rv = crate::models::rules_view(rules@);
    let mut best: Option<usize> = None;
    let mut j: usize = 0;
    while j < rules.len()
        invariant
            rv == crate::models::rules_view(rules@),
            j <= rules@.len(),
            match last {
                Some(l) => l < rules@.len(),
                None => true,
            },
            match best {
                None => forall|i: int| 0 <= i < j ==> !comes_after(rv, last, i),
                Some(k) => {
                    &&& k < j
                    &&& comes_after(rv, last, k as int)
                    &&& forall|i: int|
                        0 <= i < j && i != k && comes_after(rv, last, i) ==> precedes(
                            rv,
                            k as int,
                            i,
                        )
                },
            },
        decreases rules@.len() - j,
    {
        assert(rv[j as int] == rules@[j as int]@);
        let after = match last {
            None => true,
            Some(l) => {
                assert(rv[l as int] == rules@[l as int]@);
                rules[l].order < rules[j].order || (rules[l].order == rules[j].order && l < j)
            },
        };
        if after {
            let better = match best {
                None => true,
                Some(k) => {
                    assert(rv[k as int] == rules@[k as int]@);
                    rules[j].order < rules[k].order
                },
            };
            if better {
                best = Some(j);
            }
        }
        j += 1;
    }
    best
}

/// Finds the targeting rule that applies to an entity, as an index into
/// `rules`. Rules are evaluated by ascending order, and the first one that
/// matches, or fails, ends the search.
pub fn find_applicable_segment_rule_for_entity(
    segments: &Vec<Segment>,
    rules: &Vec<TargetingRule>,
    attrs: &Attributes,
) -> (r: Result<Option<usize>, SegmentEvaluationError>)
    ensures
        match r {
            Ok(Some(k)) => applicable_rule(
                crate::models::rules_view(rules@),
                segments_map(segments@),
                attrs@,
            ) == Ok::<Option<int>, EvaluationErrorView>(Some(k as int)),
            Ok(None) => applicable_rule(
                crate::models::rules_view(rules@),
                segments_map(segments@),
                attrs@,
            ) == Ok::<Option<int>, EvaluationErrorView>(None),
            Err(e) => applicable_rule(
                crate::models::rules_view(rules@),
                segments_map(segments@),
                attrs@,
            ) == Err::<Option<int>, EvaluationErrorView>(e@),
        },
{
    let ghost rv = crate::models::rules_view(rules@);
    let ghost segs = segments_map(segments@);
    let ghost n = rules@.len() as int;
    let total: usize = rules.len();
    let mut last: Option<usize> = None;
    let mut steps: usize = 0;
    proof {
        vstd::set_lib::lemma_int_range(0, n);
        assert(evaluated(rv, last) =~= Set::<int>::empty());
    }
    loop
        invariant
            rv == crate::models::rules_view(rules@),
            segs == segments_map(segments@),
            n == rules@.len(),
            n == total,
            rv.len() == n,
            match last {
                Some(l) => l < n,
                None => true,
            },
            evaluated(rv, last).finite(),
            evaluated(rv, last).len() == steps,
            steps <= n,
            forall|j: int|
                0 <= j < n && !comes_after(rv, last, j) ==> !#[trigger] decisive(
                    rv,
                    segs,
                    attrs@,
                    j,
                ),
        decreases n - steps,
    {
        match next_in_order(rules, last) {
            None => {
                assert(!exists|k: int| is_first_decisive(rv, segs, attrs@, k));
                return Ok(None);
            },
            Some(k) => {
                let rule = &rules[k];
                assert(rv[k as int] == rule@);
                let outcome = targeting_rule_applies_to_entity(segments, rule, attrs);
                match outcome {
                    Ok(false) => {},
                    _ => {
                        assert(is_first_decisive(rv, segs, attrs@, k as int)) by {
                            assert forall|j: int|
                                0 <= j < n && j != k && #[trigger] decisive(rv, segs, attrs@, j)
                                    implies precedes(rv, k as int, j) by {
                                if !comes_after(rv, last, j) {
                                } else {
                                    assert(precedes(rv, k as int, j));
                                }
                            }
                        }
                        proof {
                            let c = choose|c: int| is_first_decisive(rv, segs, attrs@, c);
                            lemma_first_decisive_unique(rv, segs, attrs@, c, k as int);
                        }
                        return match outcome {
                            Ok(_) => Ok(Some(k)),
                            Err(e) => Err(e),
                        };
                    },
                }
                proof {
                    let old_set = evaluated(rv, last);
                    let new_set = evaluated(rv, Some(k));
                    assert(new_set =~= old_set.insert(k as int)) by {
                        assert forall|j: int| new_set.contains(j) implies old_set.insert(
                            k as int,
                        ).contains(j) by {
                            if j != k && comes_after(rv, last, j) {
                                assert(precedes(rv, k as int, j));
                            }
                        }
                        assert forall|j: int| old_set.insert(k as int).contains(j) implies new_set.contains(
                            j,
                        ) by {
                            if j != k {
                                match last {
                                    Some(l) => {
                                        assert(!precedes(rv, l as int, j));
                                        assert(precedes(rv, l as int, k as int));
                                    },
                                    None => {},
                                }
                            }
                        }
                    }
                    assert(!old_set.contains(k as int));
                    assert(new_set.subset_of(vstd::set_lib::set_int_range(0, n)));
                    vstd::set_lib::lemma_int_range(0, n);
                    vstd::set_lib::lemma_len_subset(new_set, vstd::set_lib::set_int_range(0, n));
                    assert(steps + 1 <= n);
                }
                last = Some(k);
                steps = steps + 1;
            },
        }
    }
}

} // verus!
