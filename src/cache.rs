//! The configuration snapshot of one environment: its features and
//! properties by id, and the segments that they may name.
use vstd::prelude::*;

use crate::errors::{ConfigurationAccessError, Error};
use crate::feature_snapshot::FeatureSnapshot;
use crate::models::{
    Configuration, Environment, Feature, FeatureView, Property, PropertyView, Segment,
    TargetingRule, TargetingRuleView,
};
use crate::property_snapshot::PropertySnapshot;
use crate::segment_evaluation::{find_segment, segments_map};
use crate::keyed::{keyed_map, lemma_keyed_map_dom, lemma_keyed_map_prefix};
use crate::value::text_eq;

verus! {

/// The features by id; of two with the same id the later one counts.
pub open spec fn features_map(s: Seq<Feature>) -> Map<Seq<char>, FeatureView> {
    keyed_map(s, |f: Feature| f.feature_id@, |f: Feature| f@)
}

/// The properties by id; of two with the same id the later one counts.
pub open spec fn properties_map(s: Seq<Property>) -> Map<Seq<char>, PropertyView> {
    keyed_map(s, |p: Property| p.property_id@, |p: Property| p@)
}

/// Every segment id that the rules name is known.
pub open spec fn references_resolve(
    rules: Seq<TargetingRuleView>,
    segments: Map<Seq<char>, crate::models::SegmentView>,
) -> bool {
    forall|i: int, g: int, j: int|
        0 <= i < rules.len() && 0 <= g < rules[i].groups.len() && 0 <= j < rules[i].groups[g].len()
            ==> segments.contains_key(#[trigger] rules[i].groups[g][j])
}

/// The segment ids that the rules name.
pub open spec fn referenced_ids(rules: Seq<TargetingRuleView>) -> Set<Seq<char>> {
    Set::new(
        |id: Seq<char>|
            exists|i: int, g: int|
                0 <= i < rules.len() && 0 <= g < rules[i].groups.len() && (
                #[trigger] rules[i].groups[g]).contains(id),
    )
}

/// Whether environment `k` is the first of the given id.
pub open spec fn is_first_environment(envs: Seq<Environment>, id: Seq<char>, k: int) -> bool {
    &&& 0 <= k < envs.len()
    &&& envs[k].environment_id@ == id
    &&& forall|j: int| 0 <= j < k ==> (#[trigger] envs[j]).environment_id@ != id
}

/// The features, properties and segments of one environment.
#[derive(Debug)]
pub struct ConfigurationSnapshot {
    pub features: Vec<Feature>,
    pub properties: Vec<Property>,
    pub segments: Vec<Segment>,
}

impl ConfigurationSnapshot {
    /// The snapshot of the first environment of the given id.
    pub fn new(environment_id: &str, configuration: Configuration) -> (r: Result<
        Self,
        ConfigurationAccessError,
    >)
        ensures
            match r {
                Ok(s) => exists|k: int|
                    is_first_environment(configuration.environments@, environment_id@, k) && s.features
                        == configuration.environments@[k].features && s.properties
                        == configuration.environments@[k].properties && s.segments
                        == configuration.segments,
                Err(e) => (forall|k: int|
                    0 <= k < configuration.environments@.len()
                        ==> (#[trigger] configuration.environments@[k]).environment_id@
                        != environment_id@) && e is EnvironmentNotFound && e->environment_id@
                    == environment_id@,
            },
    {
        let ghost envs = configuration.environments@;
        let ghost all_segments = configuration.segments;
        let mut environments = configuration.environments;
        let segments = configuration.segments;
        assert(environments@ == envs && segments == all_segments);
        let mut i: usize = 0;
        while i < environments.len()
            invariant
                environments@ == envs,
                segments == all_segments,
                configuration.environments@ == envs,
                configuration.segments == all_segments,
                i <= envs.len(),
                forall|j: int| 0 <= j < i ==> (#[trigger] envs[j]).environment_id@ != environment_id@,
            decreases envs.len() - i,
        {
            if text_eq(environments[i].environment_id.as_str(), environment_id) {
                assert(is_first_environment(envs, environment_id@, i as int));
                let environment = environments.remove(i);
                let r = ConfigurationSnapshot {
                    features: environment.features,
                    properties: environment.properties,
                    segments,
                };
                return Ok(r);
            }
            i += 1;
        }
        Err(ConfigurationAccessError::EnvironmentNotFound { environment_id: environment_id.to_owned() })
    }

    pub open spec fn feature_map(&self) -> Map<Seq<char>, FeatureView> {
        features_map(self.features@)
    }

    pub open spec fn property_map(&self) -> Map<Seq<char>, PropertyView> {
        properties_map(self.properties@)
    }

    pub open spec fn segment_map(&self) -> Map<Seq<char>, crate::models::SegmentView> {
        segments_map(self.segments@)
    }

    /// Looks up a feature by id.
    pub fn get_feature(&self, feature_id: &str) -> (r: Result<&Feature, ConfigurationAccessError>)
        ensures
            match r {
                Ok(f) => self.feature_map().contains_key(feature_id@) && self.feature_map()[feature_id@]
                    == f@,
                Err(e) => !self.feature_map().contains_key(feature_id@) && e is FeatureNotFound
                    && e->feature_id@ == feature_id@,
            },
    {
        let mut i: usize = self.features.len();
        while i > 0
            invariant
                i <= self.features@.len(),
                forall|j: int|
                    i <= j < self.features@.len() ==> (#[trigger] self.features@[j]).feature_id@
                        != feature_id@,
            decreases i,
        {
            let k = i - 1;
            if text_eq(self.features[k].feature_id.as_str(), feature_id) {
                proof {
                    lemma_keyed_map_prefix(
                        self.features@,
                        |f: Feature| f.feature_id@,
                        |f: Feature| f@,
                        i as int,
                        feature_id@,
                    );
                    assert(self.features@.subrange(0, i as int).drop_last() =~= self.features@.subrange(
                        0,
                        k as int,
                    ));
                }
                return Ok(&self.features[k]);
            }
            i = k;
        }
        proof {
            lemma_keyed_map_prefix(
                self.features@,
                |f: Feature| f.feature_id@,
                |f: Feature| f@,
                0,
                feature_id@,
            );
        }
        Err(ConfigurationAccessError::FeatureNotFound { feature_id: feature_id.to_owned() })
    }

    /// Looks up a property by id.
    pub fn get_property(&self, property_id: &str) -> (r: Result<&Property, ConfigurationAccessError>)
        ensures
            match r {
                Ok(p) => self.property_map().contains_key(property_id@)
                    && self.property_map()[property_id@] == p@,
                Err(e) => !self.property_map().contains_key(property_id@) && e is PropertyNotFound
                    && e->property_id@ == property_id@,
            },
    {
        let mut i: usize = self.properties.len();
        while i > 0
            invariant
                i <= self.properties@.len(),
                forall|j: int|
                    i <= j < self.properties@.len() ==> (#[trigger] self.properties@[j]).property_id@
                        != property_id@,
            decreases i,
        {
            let k = i - 1;
            if text_eq(self.properties[k].property_id.as_str(), property_id) {
                proof {
                    lemma_keyed_map_prefix(
                        self.properties@,
                        |p: Property| p.property_id@,
                        |p: Property| p@,
                        i as int,
                        property_id@,
                    );
                    assert(self.properties@.subrange(0, i as int).drop_last()
                        =~= self.properties@.subrange(0, k as int));
                }
                return Ok(&self.properties[k]);
            }
            i = k;
        }
        proof {
            lemma_keyed_map_prefix(
                self.properties@,
                |p: Property| p.property_id@,
                |p: Property| p@,
                0,
                property_id@,
            );
        }
        Err(ConfigurationAccessError::PropertyNotFound { property_id: property_id.to_owned() })
    }

    /// Whether every segment id of a group is known.
    fn group_resolves(&self, ids: &Vec<String>) -> (r: bool)
        ensures
            r == forall|j: int|
                0 <= j < ids@.len() ==> self.segment_map().contains_key(
                    #[trigger] crate::models::texts_view(ids@)[j],
                ),
    {
        let mut j: usize = 0;
        while j < ids.len()
            invariant
                j <= ids@.len(),
                forall|l: int|
                    0 <= l < j ==> self.segment_map().contains_key(
                        #[trigger] crate::models::texts_view(ids@)[l],
                    ),
            decreases ids@.len() - j,
        {
            assert(crate::models::texts_view(ids@)[j as int] == ids@[j as int]@);
            if find_segment(&self.segments, ids[j].as_str()).is_none() {
                return false;
            }
            j += 1;
        }
        true
    }

    /// Whether every segment id of a targeting rule is known.
    fn rule_resolves(&self, rule: &TargetingRule) -> (r: bool)
        ensures
            r == forall|g: int, j: int|
                0 <= g < rule@.groups.len() && 0 <= j < rule@.groups[g].len()
                    ==> self.segment_map().contains_key(#[trigger] rule@.groups[g][j]),
    {
        let mut g: usize = 0;
        while g < rule.rules.len()
            invariant
                g <= rule.rules@.len(),
                rule@.groups.len() == rule.rules@.len(),
                forall|h: int, j: int|
                    0 <= h < g && 0 <= j < rule@.groups[h].len() ==> self.segment_map().contains_key(
                        #[trigger] rule@.groups[h][j],
                    ),
            decreases rule.rules@.len() - g,
        {
            assert(rule@.groups[g as int] == crate::models::texts_view(
                rule.rules@[g as int].segments@,
            ));
            if !self.group_resolves(&rule.rules[g].segments) {
                return false;
            }
            g += 1;
        }
        true
    }

    /// Whether every segment id that the rules name is known.
    fn references_known(&self, rules: &Vec<TargetingRule>) -> (r: bool)
        ensures
            r == references_resolve(crate::models::rules_view(rules@), self.segment_map()),
    {
        let ghost rv = crate::models::rules_view(rules@);
        let mut i: usize = 0;
        while i < rules.len()
            invariant
                rv == crate::models::rules_view(rules@),
                i <= rules@.len(),
                forall|k: int, g: int, j: int|
                    0 <= k < i && 0 <= g < rv[k].groups.len() && 0 <= j < rv[k].groups[g].len()
                        ==> self.segment_map().contains_key(#[trigger] rv[k].groups[g][j]),
            decreases rules@.len() - i,
        {
            assert(rv[i as int] == rules@[i as int]@);
            if !self.rule_resolves(&rules[i]) {
                return false;
            }
            i += 1;
        }
        true
    }

    /// Whether one of the rules names the segment `id`.
    fn rules_name(rules: &Vec<TargetingRule>, id: &str) -> (r: bool)
        ensures
            r == referenced_ids(crate::models::rules_view(rules@)).contains(id@),
    {
        let ghost rv = crate::models::rules_view(rules@);
        let mut i: usize = 0;
        while i < rules.len()
            invariant
                rv == crate::models::rules_view(rules@),
                i <= rules@.len(),
                forall|k: int, g: int|
                    0 <= k < i && 0 <= g < rv[k].groups.len() ==> !(#[trigger] rv[k].groups[g]).contains(
                        id@,
                    ),
            decreases rules@.len() - i,
        {
            let rule = &rules[i];
            assert(rv[i as int] == rule@);
            let mut g: usize = 0;
            while g < rule.rules.len()
                invariant
                    rv == crate::models::rules_view(rules@),
                    i < rules@.len(),
                    rv[i as int] == rule@,
                    rule@.groups.len() == rule.rules@.len(),
                    g <= rule.rules@.len(),
                    forall|k: int, h: int|
                        0 <= k < i && 0 <= h < rv[k].groups.len() ==> !(#[trigger] rv[k].groups[h]).contains(
                            id@,
                        ),
                    forall|h: int| 0 <= h < g ==> !(#[trigger] rule@.groups[h]).contains(id@),
                decreases rule.rules@.len() - g,
            {
                assert(rule@.groups[g as int] == crate::models::texts_view(
                    rule.rules@[g as int].segments@,
                ));
                if contains_text(&rule.rules[g].segments, id) {
                    assert(referenced_ids(rv).contains(id@)) by {
                        assert(rv[i as int].groups[g as int].contains(id@));
                    }
                    return true;
                }
                g += 1;
            }
            i += 1;
        }
        false
    }

    /// Copies of the segments that the rules name.
    fn segments_named_by(&self, rules: &Vec<TargetingRule>) -> (r: Vec<Segment>)
        ensures
            segments_map(r@) == self.segment_map().restrict(
                referenced_ids(crate::models::rules_view(rules@)),
            ),
    {
        let ghost named = referenced_ids(crate::models::rules_view(rules@));
        let mut out: Vec<Segment> = Vec::new();
        let mut i: usize = 0;
        assert(segments_map(self.segments@.subrange(0, 0)) =~= Map::<
            Seq<char>,
            crate::models::SegmentView,
        >::empty());
        assert(segments_map(out@) =~= segments_map(self.segments@.subrange(0, 0)).restrict(named));
        while i < self.segments.len()
            invariant
                named == referenced_ids(crate::models::rules_view(rules@)),
                i <= self.segments@.len(),
                segments_map(out@) == segments_map(self.segments@.subrange(0, i as int)).restrict(named),
            decreases self.segments@.len() - i,
        {
            let segment = &self.segments[i];
            let ghost prefix = self.segments@.subrange(0, i as int);
            assert(self.segments@.subrange(0, i + 1).drop_last() =~= prefix);
            assert(self.segments@.subrange(0, i + 1).last() == *segment);
            if Self::rules_name(rules, segment.segment_id.as_str()) {
                let ghost before = out@;
                out.push(segment.clone());
                assert(out@.drop_last() =~= before);
                assert(segments_map(out@) =~= segments_map(self.segments@.subrange(0, i + 1)).restrict(
                    named,
                ));
            } else {
                assert(segments_map(out@) =~= segments_map(self.segments@.subrange(0, i + 1)).restrict(
                    named,
                ));
            }
            i += 1;
        }
        assert(self.segments@.subrange(0, self.segments@.len() as int) =~= self.segments@);
        out
    }

    /// A snapshot of one feature with the segments it may need. Fails when
    /// the feature is unknown or names a segment that is not known.
    pub fn get_feature_snapshot(&self, feature_id: &str) -> (r: Result<FeatureSnapshot, Error>)
        ensures
            match r {
                Ok(s) => self.feature_map().contains_key(feature_id@) && s.feature@
                    == self.feature_map()[feature_id@] && s.segment_map() == self.segment_map().restrict(
                    referenced_ids(s.feature@.segment_rules),
                )
                    && references_resolve(s.feature@.segment_rules, self.segment_map()),
                Err(Error::ConfigurationAccessError(ConfigurationAccessError::FeatureNotFound {
                    feature_id: id,
                })) => !self.feature_map().contains_key(feature_id@) && id@ == feature_id@,
                Err(Error::ConfigurationAccessError(ConfigurationAccessError::MissingSegments {
                    resource_id: id,
                })) => self.feature_map().contains_key(feature_id@) && !references_resolve(
                    self.feature_map()[feature_id@].segment_rules,
                    self.segment_map(),
                ) && id@ == feature_id@,
                Err(_) => false,
            },
    {
        let feature = match self.get_feature(feature_id) {
            Ok(f) => f,
            Err(e) => {
                return Err(Error::ConfigurationAccessError(e));
            },
        };
        if !self.references_known(&feature.segment_rules) {
            return Err(
                Error::ConfigurationAccessError(
                    ConfigurationAccessError::MissingSegments { resource_id: feature_id.to_owned() },
                ),
            );
        }
        Ok(FeatureSnapshot::new(feature.clone(), self.segments_named_by(&feature.segment_rules)))
    }

    /// A snapshot of one property with the segments it may need. Fails when
    /// the property is unknown or names a segment that is not known.
    pub fn get_property_snapshot(&self, property_id: &str) -> (r: Result<PropertySnapshot, Error>)
        ensures
            match r {
                Ok(s) => self.property_map().contains_key(property_id@) && s.property@
                    == self.property_map()[property_id@] && s.segment_map() == self.segment_map().restrict(
                    referenced_ids(s.property@.segment_rules),
                )
                    && references_resolve(s.property@.segment_rules, self.segment_map()),
                Err(Error::ConfigurationAccessError(ConfigurationAccessError::PropertyNotFound {
                    property_id: id,
                })) => !self.property_map().contains_key(property_id@) && id@ == property_id@,
                Err(Error::ConfigurationAccessError(ConfigurationAccessError::MissingSegments {
                    resource_id: id,
                })) => self.property_map().contains_key(property_id@) && !references_resolve(
                    self.property_map()[property_id@].segment_rules,
                    self.segment_map(),
                ) && id@ == property_id@,
                Err(_) => false,
            },
    {
        let property = match self.get_property(property_id) {
            Ok(p) => p,
            Err(e) => {
                return Err(Error::ConfigurationAccessError(e));
            },
        };
        if !self.references_known(&property.segment_rules) {
            return Err(
                Error::ConfigurationAccessError(
                    ConfigurationAccessError::MissingSegments { resource_id: property_id.to_owned() },
                ),
            );
        }
        Ok(PropertySnapshot::new(property.clone(), self.segments_named_by(&property.segment_rules)))
    }

    /// The ids of the features, each once.
    pub fn get_feature_ids(&self) -> (r: Vec<String>)
        ensures
            crate::models::texts_view(r@).no_duplicates(),
            forall|k: Seq<char>|
                self.feature_map().contains_key(k) <==> crate::models::texts_view(r@).contains(k),
    {
        let mut ids: Vec<String> = Vec::new();
        let mut i: usize = 0;
        while i < self.features.len()
            invariant
                i <= self.features@.len(),
                ids@.len() == i,
                forall|j: int| 0 <= j < i ==> (#[trigger] ids@[j])@ == self.features@[j].feature_id@,
            decreases self.features@.len() - i,
        {
            ids.push(self.features[i].feature_id.clone());
            i += 1;
        }
        proof {
            assert forall|k: Seq<char>|
                self.feature_map().contains_key(k) <==> crate::models::texts_view(ids@).contains(k) by {
                lemma_keyed_map_dom(self.features@, |f: Feature| f.feature_id@, |f: Feature| f@, k);
                if crate::models::texts_view(ids@).contains(k) {
                    let j = choose|j: int|
                        0 <= j < ids@.len() && crate::models::texts_view(ids@)[j] == k;
                    assert(ids@[j]@ == self.features@[j].feature_id@);
                }
                if self.feature_map().contains_key(k) {
                    let j = choose|j: int|
                        0 <= j < self.features@.len() && (|f: Feature| f.feature_id@)(
                            #[trigger] self.features@[j],
                        ) == k;
                    assert(crate::models::texts_view(ids@)[j] == k);
                }
            }
        }
        distinct_texts(&ids)
    }

    /// The ids of the properties, each once.
    pub fn get_property_ids(&self) -> (r: Vec<String>)
        ensures
            crate::models::texts_view(r@).no_duplicates(),
            forall|k: Seq<char>|
                self.property_map().contains_key(k) <==> crate::models::texts_view(r@).contains(k),
    {
        let mut ids: Vec<String> = Vec::new();
        let mut i: usize = 0;
        while i < self.properties.len()
            invariant
                i <= self.properties@.len(),
                ids@.len() == i,
                forall|j: int| 0 <= j < i ==> (#[trigger] ids@[j])@ == self.properties@[j].property_id@,
            decreases self.properties@.len() - i,
        {
            ids.push(self.properties[i].property_id.clone());
            i += 1;
        }
        proof {
            assert forall|k: Seq<char>|
                self.property_map().contains_key(k) <==> crate::models::texts_view(ids@).contains(k) by {
                lemma_keyed_map_dom(self.properties@, |p: Property| p.property_id@, |p: Property| p@, k);
                if crate::models::texts_view(ids@).contains(k) {
                    let j = choose|j: int|
                        0 <= j < ids@.len() && crate::models::texts_view(ids@)[j] == k;
                    assert(ids@[j]@ == self.properties@[j].property_id@);
                }
                if self.property_map().contains_key(k) {
                    let j = choose|j: int|
                        0 <= j < self.properties@.len() && (|p: Property| p.property_id@)(
                            #[trigger] self.properties@[j],
                        ) == k;
                    assert(crate::models::texts_view(ids@)[j] == k);
                }
            }
        }
        distinct_texts(&ids)
    }
}

/// The distinct strings of `v`, in the order in which they first occur.
pub fn distinct_texts(v: &Vec<String>) -> (r: Vec<String>)
    ensures
        crate::models::texts_view(r@).no_duplicates(),
        forall|k: Seq<char>|
            crate::models::texts_view(r@).contains(k) <==> crate::models::texts_view(v@).contains(k),
{
    let ghost src = crate::models::texts_view(v@);
    let mut out: Vec<String> = Vec::new();
    let mut i: usize = 0;
    while i < v.len()
        invariant
            src == crate::models::texts_view(v@),
            i <= v@.len(),
            crate::models::texts_view(out@).no_duplicates(),
            forall|k: Seq<char>|
                crate::models::texts_view(out@).contains(k) <==> exists|j: int|
                    0 <= j < i && #[trigger] src[j] == k,
        decreases v@.len() - i,
    {
        let ghost before = crate::models::texts_view(out@);
        let ghost id = v@[i as int]@;
        assert(src[i as int] == id);
        if !contains_text(&out, v[i].as_str()) {
            out.push(v[i].clone());
            assert(crate::models::texts_view(out@) =~= before.push(id));
        }
        assert forall|k: Seq<char>|
            crate::models::texts_view(out@).contains(k) <==> exists|j: int|
                0 <= j < i + 1 && #[trigger] src[j] == k by {
            if k == id {
                assert(src[i as int] == k);
                if before.contains(k) {
                    let m = choose|m: int| 0 <= m < before.len() && before[m] == k;
                    assert(crate::models::texts_view(out@)[m] == k);
                } else {
                    assert(crate::models::texts_view(out@)[before.len() as int] == k);
                }
            } else {
                if crate::models::texts_view(out@).contains(k) {
                    let m = choose|m: int|
                        0 <= m < crate::models::texts_view(out@).len()
                            && crate::models::texts_view(out@)[m] == k;
                    assert(m < before.len() && before[m] == k);
                    assert(before.contains(k));
                    let j = choose|j: int| 0 <= j < i && #[trigger] src[j] == k;
                    assert(0 <= j < i + 1 && src[j] == k);
                }
                if exists|j: int| 0 <= j < i + 1 && #[trigger] src[j] == k {
                    let j = choose|j: int| 0 <= j < i + 1 && #[trigger] src[j] == k;
                    assert(j < i);
                    assert(before.contains(k));
                    let m = choose|m: int| 0 <= m < before.len() && before[m] == k;
                    assert(crate::models::texts_view(out@)[m] == k);
                }
            }
        }
        i += 1;
    }
    assert forall|k: Seq<char>|
        crate::models::texts_view(out@).contains(k) <==> src.contains(k) by {
        if src.contains(k) {
            let j = choose|j: int| 0 <= j < src.len() && src[j] == k;
            assert(exists|j: int| 0 <= j < i && #[trigger] src[j] == k);
        }
    }
    out
}

/// Whether `s` is one of the strings of `v`.
pub fn contains_text(v: &Vec<String>, s: &str) -> (r: bool)
    ensures
        r == crate::models::texts_view(v@).contains(s@),
{
    let mut i: usize = 0;
    while i < v.len()
        invariant
            i <= v@.len(),
            forall|j: int| 0 <= j < i ==> (#[trigger] v@[j])@ != s@,
        decreases v@.len() - i,
    {
        if text_eq(v[i].as_str(), s) {
            assert(crate::models::texts_view(v@)[i as int] == s@);
            return true;
        }
        i += 1;
    }
    assert(!crate::models::texts_view(v@).contains(s@)) by {
        if crate::models::texts_view(v@).contains(s@) {
            let j = choose|j: int| 0 <= j < v@.len() && crate::models::texts_view(v@)[j] == s@;
            assert(v@[j]@ == s@);
        }
    }
    false
}

} // verus!
