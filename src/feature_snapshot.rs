//! A feature together with the segments that its targeting rules name, and
//! its evaluation for an entity.
use vstd::prelude::*;

use crate::entity::{Attributes, Entity};
use crate::errors::{EntityEvaluationError, Error, Result};
use crate::models::{Feature as FeatureModel, FeatureView, Segment, SegmentView, TargetingRuleView};
use crate::rollout::{rollout_decision, should_rollout};
use crate::segment_evaluation::{
    applicable_rule, find_applicable_segment_rule_for_entity, segments_map, EvaluationErrorView,
};
use crate::value::{is_default_spec, is_of_kind, ConfigValue, ScalarView, Value, ValueKind};

verus! {

/// Why a value could not be resolved.
pub enum ResolutionFailure {
    /// Segment membership could not be decided.
    Segment(EvaluationErrorView),
    /// The matched rule's rollout percentage is neither `"$default"` nor a
    /// number in the range of `u32`.
    InvalidRollout,
    /// The entity has to be bucketed and its id is too long to be hashed.
    TagTooLong,
}

/// The rollout percentage of a matched rule: its own, or the feature's where
/// it has none or writes `"$default"`.
pub open spec fn rule_percentage(own: Option<ScalarView>, base: u32) -> Option<u32> {
    match own {
        None => Some(base),
        Some(v) => if is_default_spec(v) {
            Some(base)
        } else {
            match v {
                ScalarView::Numeric(n) => if 0 <= n <= u32::MAX {
                    Some(n as u32)
                } else {
                    None
                },
                _ => None,
            }
        },
    }
}

/// The value that the feature's own rollout percentage gives the entity.
pub open spec fn direct_value(f: FeatureView, entity_id: Seq<char>) -> std::result::Result<
    ScalarView,
    ResolutionFailure,
> {
    match rollout_decision(f.rollout_percentage, entity_id, f.feature_id) {
        None => Err(ResolutionFailure::TagTooLong),
        Some(true) => Ok(f.enabled_value),
        Some(false) => Ok(f.disabled_value),
    }
}

/// The configured value that a feature resolves to for an entity.
pub open spec fn feature_outcome(
    f: FeatureView,
    segments: Map<Seq<char>, SegmentView>,
    entity_id: Seq<char>,
    attrs: Seq<(String, Value)>,
) -> std::result::Result<ScalarView, ResolutionFailure> {
    if !f.enabled {
        Ok(f.disabled_value)
    } else if f.segment_rules.len() == 0 || attrs.len() == 0 {
        direct_value(f, entity_id)
    } else {
        match applicable_rule(f.segment_rules, segments, attrs) {
            Err(e) => Err(ResolutionFailure::Segment(e)),
            Ok(None) => direct_value(f, entity_id),
            Ok(Some(k)) => {
                let rule: TargetingRuleView = f.segment_rules[k];
                match rule_percentage(rule.rollout_percentage, f.rollout_percentage) {
                    None => Err(ResolutionFailure::InvalidRollout),
                    Some(p) => match rollout_decision(p, entity_id, f.feature_id) {
                        None => Err(ResolutionFailure::TagTooLong),
                        Some(true) => if is_default_spec(rule.value) {
                            Ok(f.enabled_value)
                        } else {
                            Ok(rule.value)
                        },
                        Some(false) => Ok(f.disabled_value),
                    },
                }
            },
        }
    }
}

/// What a resolution gives once checked against the declared kind.
pub open spec fn typed_result(
    kind: ValueKind,
    outcome: std::result::Result<ScalarView, ResolutionFailure>,
    r: Result<Value>,
) -> bool {
    match outcome {
        Ok(v) => if is_of_kind(v, kind) {
            r is Ok && r->Ok_0@ == v
        } else {
            r is Err && r->Err_0 is ProtocolError
        },
        Err(ResolutionFailure::Segment(e)) => r is Err && r->Err_0 is EntityEvaluationError
            && r->Err_0->EntityEvaluationError_0.0@ == e,
        Err(ResolutionFailure::InvalidRollout) => r is Err && r->Err_0 is ProtocolError,
        Err(ResolutionFailure::TagTooLong) => r is Err && r->Err_0 is Other,
    }
}

/// What a resolution gives before it is checked against the declared kind.
pub open spec fn resolved_result(
    outcome: std::result::Result<ScalarView, ResolutionFailure>,
    r: Result<ConfigValue>,
) -> bool {
    match outcome {
        Ok(v) => r is Ok && r->Ok_0@ == v,
        Err(ResolutionFailure::Segment(e)) => r is Err && r->Err_0 is EntityEvaluationError
            && r->Err_0->EntityEvaluationError_0.0@ == e,
        Err(ResolutionFailure::InvalidRollout) => r is Err && r->Err_0 is ProtocolError,
        Err(ResolutionFailure::TagTooLong) => r is Err && r->Err_0 is Other,
    }
}

fn tag_too_long() -> (r: Error)
    ensures
        r is Other,
{
    Error::Other("The entity id is too long to be bucketed.".to_owned())
}

/// Checks a configured value against the declared kind.
pub fn coerce(kind: ValueKind, v: ConfigValue) -> (r: Result<Value>)
    ensures
        typed_result(kind, Ok(v@), r),
{
    match (kind, v) {
        (ValueKind::Numeric, ConfigValue::Numeric(n)) => Ok(Value::Numeric(n)),
        (ValueKind::String, ConfigValue::String(s)) => Ok(Value::String(s)),
        (ValueKind::Boolean, ConfigValue::Boolean(b)) => Ok(Value::Boolean(b)),
        (ValueKind::Numeric, _) => Err(
            Error::ProtocolError("Feature specifies numeric type, but its value is not numeric.".to_owned()),
        ),
        (ValueKind::Boolean, _) => Err(Error::ProtocolError("Expected Boolean".to_owned())),
        (ValueKind::String, _) => Err(Error::ProtocolError("Expected String".to_owned())),
    }
}

/// A feature with the segments it needs, frozen at the time it was taken.
#[derive(Debug)]
pub struct FeatureSnapshot {
    pub feature: FeatureModel,
    pub segments: Vec<Segment>,
}

impl FeatureSnapshot {
    pub fn new(feature: FeatureModel, segments: Vec<Segment>) -> (r: Self)
        ensures
            r.feature@ == feature@,
            segments_map(r.segments@) == segments_map(segments@),
    {
        FeatureSnapshot { feature, segments }
    }

    /// The segments of this snapshot, by id.
    pub open spec fn segment_map(&self) -> Map<Seq<char>, SegmentView> {
        segments_map(self.segments@)
    }

    /// The rollout percentage of the matched rule at `k`.
    fn rule_rollout_percentage(&self, k: usize) -> (r: Option<u32>)
        requires
            k < self.feature.segment_rules@.len(),
        ensures
            r == rule_percentage(
                self.feature@.segment_rules[k as int].rollout_percentage,
                self.feature.rollout_percentage,
            ),
    {
        let rule = &self.feature.segment_rules[k];
        assert(self.feature@.segment_rules[k as int] == rule@);
        match &rule.rollout_percentage {
            None => Some(self.feature.rollout_percentage),
            Some(value) => {
                if value.is_default() {
                    Some(self.feature.rollout_percentage)
                } else {
                    match value {
                        ConfigValue::Numeric(n) => {
                            if 0 <= n.0 && n.0 <= u32::MAX as i128 {
                                Some(n.0 as u32)
                            } else {
                                None
                            }
                        },
                        _ => None,
                    }
                }
            },
        }
    }

    fn use_rollout_percentage_to_get_value_from_feature_directly(&self, entity_id: &str) -> (r:
        Result<ConfigValue>)
        ensures
            resolved_result(direct_value(self.feature@, entity_id@), r),
    {
        match should_rollout(
            self.feature.rollout_percentage,
            entity_id,
            self.feature.feature_id.as_str(),
        ) {
            None => Err(tag_too_long()),
            Some(true) => Ok(self.feature.enabled_value.clone()),
            Some(false) => Ok(self.feature.disabled_value.clone()),
        }
    }

    /// Resolves the configured value of the feature for an entity.
    pub fn evaluate_feature_for_entity(&self, entity_id: &str, attrs: &Attributes) -> (r: Result<
        ConfigValue,
    >)
        ensures
            resolved_result(feature_outcome(self.feature@, self.segment_map(), entity_id@, attrs@), r),
    {
        if !self.feature.enabled {
            return Ok(self.feature.disabled_value.clone());
        }
        if self.feature.segment_rules.len() == 0 || attrs.len() == 0 {
            return self.use_rollout_percentage_to_get_value_from_feature_directly(entity_id);
        }
        match find_applicable_segment_rule_for_entity(
            &self.segments,
            &self.feature.segment_rules,
            attrs,
        ) {
            Err(e) => Err(Error::EntityEvaluationError(EntityEvaluationError(e))),
            Ok(None) => self.use_rollout_percentage_to_get_value_from_feature_directly(entity_id),
            Ok(Some(k)) => {
                let rule = &self.feature.segment_rules[k];
                assert(self.feature@.segment_rules[k as int] == rule@);
                match self.rule_rollout_percentage(k) {
                    None => Err(
                        Error::ProtocolError(
                            "Invalid rollout value. Could not convert to u32.".to_owned(),
                        ),
                    ),
                    Some(p) => match should_rollout(p, entity_id, self.feature.feature_id.as_str()) {
                        None => Err(tag_too_long()),
                        Some(true) => {
                            if rule.value.is_default() {
                                Ok(self.feature.enabled_value.clone())
                            } else {
                                Ok(rule.value.clone())
                            }
                        },
                        Some(false) => Ok(self.feature.disabled_value.clone()),
                    },
                }
            },
        }
    }

    /// The value of the feature for an entity of this id and these
    /// attributes, of the feature's declared kind.
    pub fn get_value_for(&self, entity_id: &str, attrs: &Attributes) -> (r: Result<Value>)
        ensures
            typed_result(
                self.feature.kind,
                feature_outcome(self.feature@, self.segment_map(), entity_id@, attrs@),
                r,
            ),
            !self.feature.enabled ==> typed_result(
                self.feature.kind,
                Ok(self.feature.disabled_value@),
                r,
            ),
    {
        let v = self.evaluate_feature_for_entity(entity_id, attrs)?;
        coerce(self.feature.kind, v)
    }

    pub fn get_id(&self) -> (r: &str)
        ensures
            r@ == self.feature.feature_id@,
    {
        self.feature.feature_id.as_str()
    }

    pub fn get_name(&self) -> (r: Result<String>)
        ensures
            r is Ok && r->Ok_0@ == self.feature.name@,
    {
        Ok(self.feature.name.clone())
    }

    pub fn get_data_type(&self) -> (r: Result<ValueKind>)
        ensures
            r == Ok::<ValueKind, Error>(self.feature.kind),
    {
        Ok(self.feature.kind)
    }

    pub fn is_enabled(&self) -> (r: Result<bool>)
        ensures
            r == Ok::<bool, Error>(self.feature.enabled),
    {
        Ok(self.feature.enabled)
    }

    pub fn get_enabled_value(&self) -> (r: Result<ConfigValue>)
        ensures
            r is Ok && r->Ok_0@ == self.feature.enabled_value@,
    {
        Ok(self.feature.enabled_value.clone())
    }

    /// The value of the feature for an entity.
    pub fn get_value<E: Entity>(&self, entity: &E) -> (r: Result<Value>)
        ensures
            typed_result(
                self.feature.kind,
                feature_outcome(
                    self.feature@,
                    self.segment_map(),
                    entity.id_view(),
                    entity.attributes_view(),
                ),
                r,
            ),
            !self.feature.enabled ==> typed_result(
                self.feature.kind,
                Ok(self.feature.disabled_value@),
                r,
            ),
    {
        let id = entity.get_id();
        let attrs = entity.get_attributes();
        self.get_value_for(id.as_str(), &attrs)
    }
}

} // verus!
