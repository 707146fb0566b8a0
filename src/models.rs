//! The configuration document: environments with their features and
//! properties, and the segments that targeting rules refer to.
use vstd::prelude::*;

use crate::value::{ConfigValue, ScalarView, ValueKind};

verus! {

/// The views of a list of strings.
pub open spec fn texts_view(v: Seq<String>) -> Seq<Seq<char>> {
    v.map_values(|s: String| s@)
}

/// One condition of a segment: the entity's attribute, compared with the
/// operator, must match at least one of the values.
#[derive(Debug)]
pub struct SegmentRule {
    pub attribute_name: String,
    pub operator: String,
    pub values: Vec<String>,
}

pub struct SegmentRuleView {
    pub attribute_name: Seq<char>,
    pub operator: Seq<char>,
    pub values: Seq<Seq<char>>,
}

impl View for SegmentRule {
    type V = SegmentRuleView;

    open spec fn view(&self) -> SegmentRuleView {
        SegmentRuleView {
            attribute_name: self.attribute_name@,
            operator: self.operator@,
            values: texts_view(self.values@),
        }
    }
}

impl Clone for SegmentRule {
    fn clone(&self) -> (r: Self)
        ensures
            r@ == self@,
    {
        let values = self.values.clone();
        assert(texts_view(values@) =~= texts_view(self.values@));
        SegmentRule {
            attribute_name: self.attribute_name.clone(),
            operator: self.operator.clone(),
            values,
        }
    }
}

/// A named predicate over entity attributes: all of its rules must match.
#[derive(Debug)]
pub struct Segment {
    pub name: String,
    pub segment_id: String,
    pub rules: Vec<SegmentRule>,
}

pub struct SegmentView {
    pub name: Seq<char>,
    pub segment_id: Seq<char>,
    pub rules: Seq<SegmentRuleView>,
}

impl View for Segment {
    type V = SegmentView;

    open spec fn view(&self) -> SegmentView {
        SegmentView {
            name: self.name@,
            segment_id: self.segment_id@,
            rules: self.rules@.map_values(|r: SegmentRule| r@),
        }
    }
}

impl Clone for Segment {
    fn clone(&self) -> (r: Self)
        ensures
            r@ == self@,
    {
        let mut rules: Vec<SegmentRule> = Vec::new();
        let mut i: usize = 0;
        while i < self.rules.len()
            invariant
                i <= self.rules@.len(),
                rules@.len() == i,
                forall|j: int| 0 <= j < i ==> rules@[j]@ == self.rules@[j]@,
            decreases self.rules@.len() - i,
        {
            rules.push(self.rules[i].clone());
            i += 1;
        }
        assert(rules@.map_values(|r: SegmentRule| r@) =~= self.rules@.map_values(
            |r: SegmentRule| r@,
        ));
        Segment { name: self.name.clone(), segment_id: self.segment_id.clone(), rules }
    }
}

/// A group of segment ids: the group matches when any of its segments does.
#[derive(Debug)]
pub struct Segments {
    pub segments: Vec<String>,
}

impl View for Segments {
    type V = Seq<Seq<char>>;

    open spec fn view(&self) -> Seq<Seq<char>> {
        texts_view(self.segments@)
    }
}

impl Clone for Segments {
    fn clone(&self) -> (r: Self)
        ensures
            r@ == self@,
    {
        let segments = self.segments.clone();
        assert(texts_view(segments@) =~= texts_view(self.segments@));
        Segments { segments }
    }
}

/// A rule that gives a value (and a rollout percentage) to the entities in
/// any of its segment groups. Rules of lower `order` take precedence.
#[derive(Debug)]
pub struct TargetingRule {
    pub rules: Vec<Segments>,
    pub value: ConfigValue,
    pub order: u32,
    pub rollout_percentage: Option<ConfigValue>,
}

pub struct TargetingRuleView {
    pub groups: Seq<Seq<Seq<char>>>,
    pub value: ScalarView,
    pub order: u32,
    pub rollout_percentage: Option<ScalarView>,
}

pub open spec fn option_view(v: Option<ConfigValue>) -> Option<ScalarView> {
    match v {
        Some(c) => Some(c@),
        None => None,
    }
}

impl View for TargetingRule {
    type V = TargetingRuleView;

    open spec fn view(&self) -> TargetingRuleView {
        TargetingRuleView {
            groups: self.rules@.map_values(|g: Segments| g@),
            value: self.value@,
            order: self.order,
            rollout_percentage: option_view(self.rollout_percentage),
        }
    }
}

impl Clone for TargetingRule {
    fn clone(&self) -> (r: Self)
        ensures
            r@ == self@,
    {
        let mut rules: Vec<Segments> = Vec::new();
        let mut i: usize = 0;
        while i < self.rules.len()
            invariant
                i <= self.rules@.len(),
                rules@.len() == i,
                forall|j: int| 0 <= j < i ==> rules@[j]@ == self.rules@[j]@,
            decreases self.rules@.len() - i,
        {
            rules.push(self.rules[i].clone());
            i += 1;
        }
        assert(rules@.map_values(|g: Segments| g@) =~= self.rules@.map_values(|g: Segments| g@));
        let rollout_percentage = match &self.rollout_percentage {
            Some(p) => Some(p.clone()),
            None => None,
        };
        TargetingRule { rules, value: self.value.clone(), order: self.order, rollout_percentage }
    }
}

/// The views of a list of targeting rules.
pub open spec fn rules_view(v: Seq<TargetingRule>) -> Seq<TargetingRuleView> {
    v.map_values(|r: TargetingRule| r@)
}

/// A copy of a list of targeting rules.
pub fn clone_rules(v: &Vec<TargetingRule>) -> (r: Vec<TargetingRule>)
    ensures
        rules_view(r@) == rules_view(v@),
{
    let mut out: Vec<TargetingRule> = Vec::new();
    let mut i: usize = 0;
    while i < v.len()
        invariant
            i <= v@.len(),
            out@.len() == i,
            forall|j: int| 0 <= j < i ==> out@[j]@ == v@[j]@,
        decreases v@.len() - i,
    {
        out.push(v[i].clone());
        i += 1;
    }
    assert(rules_view(out@) =~= rules_view(v@));
    out
}

pub open spec fn option_text_view(v: Option<String>) -> Option<Seq<char>> {
    match v {
        Some(s) => Some(s@),
        None => None,
    }
}

pub fn clone_option_text(v: &Option<String>) -> (r: Option<String>)
    ensures
        option_text_view(r) == option_text_view(*v),
{
    match v {
        Some(s) => Some(s.clone()),
        None => None,
    }
}

/// A feature flag as configured.
#[derive(Debug)]
pub struct Feature {
    pub name: String,
    pub feature_id: String,
    pub kind: ValueKind,
    pub format: Option<String>,
    pub enabled_value: ConfigValue,
    pub disabled_value: ConfigValue,
    pub segment_rules: Vec<TargetingRule>,
    pub enabled: bool,
    pub rollout_percentage: u32,
}

pub struct FeatureView {
    pub name: Seq<char>,
    pub feature_id: Seq<char>,
    pub kind: ValueKind,
    pub format: Option<Seq<char>>,
    pub enabled_value: ScalarView,
    pub disabled_value: ScalarView,
    pub segment_rules: Seq<TargetingRuleView>,
    pub enabled: bool,
    pub rollout_percentage: u32,
}

impl View for Feature {
    type V = FeatureView;

    open spec fn view(&self) -> FeatureView {
        FeatureView {
            name: self.name@,
            feature_id: self.feature_id@,
            kind: self.kind,
            format: option_text_view(self.format),
            enabled_value: self.enabled_value@,
            disabled_value: self.disabled_value@,
            segment_rules: rules_view(self.segment_rules@),
            enabled: self.enabled,
            rollout_percentage: self.rollout_percentage,
        }
    }
}

impl Clone for Feature {
    fn clone(&self) -> (r: Self)
        ensures
            r@ == self@,
    {
        Feature {
            name: self.name.clone(),
            feature_id: self.feature_id.clone(),
            kind: self.kind,
            format: clone_option_text(&self.format),
            enabled_value: self.enabled_value.clone(),
            disabled_value: self.disabled_value.clone(),
            segment_rules: clone_rules(&self.segment_rules),
            enabled: self.enabled,
            rollout_percentage: self.rollout_percentage,
        }
    }
}

/// A configuration property as configured.
#[derive(Debug)]
pub struct Property {
    pub name: String,
    pub property_id: String,
    pub kind: ValueKind,
    pub tags: Option<String>,
    pub format: Option<String>,
    pub value: ConfigValue,
    pub segment_rules: Vec<TargetingRule>,
}

pub struct PropertyView {
    pub name: Seq<char>,
    pub property_id: Seq<char>,
    pub kind: ValueKind,
    pub tags: Option<Seq<char>>,
    pub format: Option<Seq<char>>,
    pub value: ScalarView,
    pub segment_rules: Seq<TargetingRuleView>,
}

impl View for Property {
    type V = PropertyView;

    open spec fn view(&self) -> PropertyView {
        PropertyView {
            name: self.name@,
            property_id: self.property_id@,
            kind: self.kind,
            tags: option_text_view(self.tags),
            format: option_text_view(self.format),
            value: self.value@,
            segment_rules: rules_view(self.segment_rules@),
        }
    }
}

impl Clone for Property {
    fn clone(&self) -> (r: Self)
        ensures
            r@ == self@,
    {
        Property {
            name: self.name.clone(),
            property_id: self.property_id.clone(),
            kind: self.kind,
            tags: clone_option_text(&self.tags),
            format: clone_option_text(&self.format),
            value: self.value.clone(),
            segment_rules: clone_rules(&self.segment_rules),
        }
    }
}

/// One environment of the configuration document.
#[derive(Debug)]
pub struct Environment {
    pub name: String,
    pub environment_id: String,
    pub features: Vec<Feature>,
    pub properties: Vec<Property>,
}

/// The whole configuration document: all environments and the segments that
/// they share.
#[derive(Debug)]
pub struct Configuration {
    pub environments: Vec<Environment>,
    pub segments: Vec<Segment>,
}

} // verus!
