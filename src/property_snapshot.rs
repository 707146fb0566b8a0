//! A property together with the segments that its targeting rules name, and
//! its evaluation for an entity.
use vstd::prelude::*;

use crate::entity::{Attributes, Entity};
use crate::errors::{EntityEvaluationError, Error, Result};
use crate::feature_snapshot::{coerce, resolved_result, typed_result, ResolutionFailure};
use crate::models::{Property as PropertyModel, PropertyView, Segment, SegmentView};
use crate::segment_evaluation::{applicable_rule, find_applicable_segment_rule_for_entity, segments_map};
use crate::value::{is_default_spec, ConfigValue, ScalarView, Value, ValueKind};

verus! {

/// The configured value that a property resolves to for an entity.
pub open spec fn property_outcome(
    p: PropertyView,
    segments: Map<Seq<char>, SegmentView>,
    attrs: Seq<(String, Value)>,
) -> std::result::Result<ScalarView, ResolutionFailure> {
    if p.segment_rules.len() == 0 || attrs.len() == 0 {
        Ok(p.value)
    } else {
        match applicable_rule(p.segment_rules, segments, attrs) {
            Err(e) => Err(ResolutionFailure::Segment(e)),
            Ok(None) => Ok(p.value),
            Ok(Some(k)) => if is_default_spec(p.segment_rules[k].value) {
                Ok(p.value)
            } else {
                Ok(p.segment_rules[k].value)
            },
        }
    }
}

/// A property with the segments it needs, frozen at the time it was taken.
#[derive(Debug)]
pub struct PropertySnapshot {
    pub property: PropertyModel,
    pub segments: Vec<Segment>,
}

impl PropertySnapshot {
    pub fn new(property: PropertyModel, segments: Vec<Segment>) -> (r: Self)
        ensures
            r.property@ == property@,
            segments_map(r.segments@) == segments_map(segments@),
    {
        PropertySnapshot { property, segments }
    }

    /// The segments of this snapshot, by id.
    pub open spec fn segment_map(&self) -> Map<Seq<char>, SegmentView> {
        segments_map(self.segments@)
    }

    /// Resolves the configured value of the property for an entity.
    pub fn evaluate_feature_for_entity(&self, attrs: &Attributes) -> (r: std::result::Result<
        ConfigValue,
        Error,
    >)
        ensures
            resolved_result(property_outcome(self.property@, self.segment_map(), attrs@), r),
    {
        if self.property.segment_rules.len() == 0 || attrs.len() == 0 {
            return Ok(self.property.value.clone());
        }
        match find_applicable_segment_rule_for_entity(
            &self.segments,
            &self.property.segment_rules,
            attrs,
        ) {
            Err(e) => Err(Error::EntityEvaluationError(EntityEvaluationError(e))),
            Ok(None) => Ok(self.property.value.clone()),
            Ok(Some(k)) => {
                let rule = &self.property.segment_rules[k];
                assert(self.property@.segment_rules[k as int] == rule@);
                if rule.value.is_default() {
                    Ok(self.property.value.clone())
                } else {
                    Ok(rule.value.clone())
                }
            },
        }
    }

    /// The value of the property for an entity with these attributes, of
    /// the property's declared kind.
    pub fn get_value_for(&self, attrs: &Attributes) -> (r: Result<Value>)
        ensures
            typed_result(
                self.property.kind,
                property_outcome(self.property@, self.segment_map(), attrs@),
                r,
            ),
    {
        let v = self.evaluate_feature_for_entity(attrs)?;
        coerce(self.property.kind, v)
    }

    pub fn get_id(&self) -> (r: &str)
        ensures
            r@ == self.property.property_id@,
    {
        self.property.property_id.as_str()
    }

    pub fn get_name(&self) -> (r: Result<String>)
        ensures
            r is Ok && r->Ok_0@ == self.property.name@,
    {
        Ok(self.property.name.clone())
    }

    pub fn get_data_type(&self) -> (r: Result<ValueKind>)
        ensures
            r == Ok::<ValueKind, Error>(self.property.kind),
    {
        Ok(self.property.kind)
    }

    pub fn get_value_default(&self) -> (r: Result<ConfigValue>)
        ensures
            r is Ok && r->Ok_0@ == self.property.value@,
    {
        Ok(self.property.value.clone())
    }

    /// The value of the property for an entity.
    pub fn get_value<E: Entity>(&self, entity: &E) -> (r: Result<Value>)
        ensures
            typed_result(
                self.property.kind,
                property_outcome(self.property@, self.segment_map(), entity.attributes_view()),
                r,
            ),
    {
        let attrs = entity.get_attributes();
        self.get_value_for(&attrs)
    }
}

} // verus!
