//! The read access that feature and property handles offer.
use vstd::prelude::*;

use crate::entity::Entity;
use crate::errors::{Error, Result};
use crate::feature_snapshot::{feature_outcome, typed_result, FeatureSnapshot};
use crate::property_snapshot::{property_outcome, PropertySnapshot};
use crate::value::{ConfigValue, Value, ValueKind};

verus! {

/// A handle on a feature flag.
pub trait Feature {
    fn get_id(&self) -> &str;

    fn get_name(&self) -> Result<String>;

    fn get_data_type(&self) -> Result<ValueKind>;

    fn is_enabled(&self) -> Result<bool>;

    fn get_enabled_value(&self) -> Result<ConfigValue>;

    fn get_value<E: Entity>(&self, entity: &E) -> Result<Value>;
}

/// A handle on a configuration property.
pub trait Property {
    fn get_id(&self) -> &str;

    fn get_name(&self) -> Result<String>;

    fn get_data_type(&self) -> Result<ValueKind>;

    fn get_value_default(&self) -> Result<ConfigValue>;

    fn get_value<E: Entity>(&self, entity: &E) -> Result<Value>;
}

impl Feature for FeatureSnapshot {
    fn get_id(&self) -> (r: &str)
        ensures
            r@ == self.feature.feature_id@,
    {
        FeatureSnapshot::get_id(self)
    }

    fn get_name(&self) -> (r: Result<String>)
        ensures
            r is Ok && r->Ok_0@ == self.feature.name@,
    {
        FeatureSnapshot::get_name(self)
    }

    fn get_data_type(&self) -> (r: Result<ValueKind>)
        ensures
            r == Ok::<ValueKind, Error>(self.feature.kind),
    {
        FeatureSnapshot::get_data_type(self)
    }

    fn is_enabled(&self) -> (r: Result<bool>)
        ensures
            r == Ok::<bool, Error>(self.feature.enabled),
    {
        FeatureSnapshot::is_enabled(self)
    }

    fn get_enabled_value(&self) -> (r: Result<ConfigValue>)
        ensures
            r is Ok && r->Ok_0@ == self.feature.enabled_value@,
    {
        FeatureSnapshot::get_enabled_value(self)
    }

    fn get_value<E: Entity>(&self, entity: &E) -> (r: Result<Value>)
        ensures
            typed_result(
                self.feature.kind,
                feature_outcome(
                    self.feature@,
                    self.segment_map(),
                    entity.id_view(),
                    entity.attributes_view(),
                ),
                r,
            ),
    {
        FeatureSnapshot::get_value(self, entity)
    }
}

impl Property for PropertySnapshot {
    fn get_id(&self) -> (r: &str)
        ensures
            r@ == self.property.property_id@,
    {
        PropertySnapshot::get_id(self)
    }

    fn get_name(&self) -> (r: Result<String>)
        ensures
            r is Ok && r->Ok_0@ == self.property.name@,
    {
        PropertySnapshot::get_name(self)
    }

    fn get_data_type(&self) -> (r: Result<ValueKind>)
        ensures
            r == Ok::<ValueKind, Error>(self.property.kind),
    {
        PropertySnapshot::get_data_type(self)
    }

    fn get_value_default(&self) -> (r: Result<ConfigValue>)
        ensures
            r is Ok && r->Ok_0@ == self.property.value@,
    {
        PropertySnapshot::get_value_default(self)
    }

    fn get_value<E: Entity>(&self, entity: &E) -> (r: Result<Value>)
        ensures
            typed_result(
                self.property.kind,
                property_outcome(self.property@, self.segment_map(), entity.attributes_view()),
                r,
            ),
    {
        PropertySnapshot::get_value(self, entity)
    }
}

} // verus!
