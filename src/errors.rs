//! The errors of lookups and evaluations.
use vstd::prelude::*;

use crate::segment_evaluation::SegmentEvaluationError;

verus! {

/// An error of access to the configuration snapshot.
#[derive(Debug)]
pub enum ConfigurationAccessError {
    /// The lock around the snapshot could not be acquired.
    LockAcquisitionError,
    /// The configuration has no environment of this id.
    EnvironmentNotFound { environment_id: String },
    /// The snapshot has no feature of this id.
    FeatureNotFound { feature_id: String },
    /// The snapshot has no property of this id.
    PropertyNotFound { property_id: String },
    /// A targeting rule of the resource names a segment that is not known.
    MissingSegments { resource_id: String },
}

impl ConfigurationAccessError {
    /// A description of the error for people.
    pub fn message(&self) -> (r: String)
        ensures
            r@ == match self {
                ConfigurationAccessError::LockAcquisitionError => "Error acquiring index cache lock."@,
                ConfigurationAccessError::EnvironmentNotFound { environment_id } => "Environment `"@
                    + environment_id@ + "` indicated as key not found in the configuration instance."@,
                ConfigurationAccessError::FeatureNotFound { feature_id } => "Feature `"@
                    + feature_id@ + "` not found."@,
                ConfigurationAccessError::PropertyNotFound { property_id } => "Property `"@
                    + property_id@ + "` not found."@,
                ConfigurationAccessError::MissingSegments { resource_id } =>
                    "Missing Segments for Resource `"@ + resource_id@ + "`."@,
            },
    {
        match self {
            ConfigurationAccessError::LockAcquisitionError => "Error acquiring index cache lock.".to_owned(),
            ConfigurationAccessError::EnvironmentNotFound { environment_id } => {
                let mut m = "Environment `".to_owned();
                m.append(environment_id.as_str());
                m.append("` indicated as key not found in the configuration instance.");
                m
            },
            ConfigurationAccessError::FeatureNotFound { feature_id } => {
                let mut m = "Feature `".to_owned();
                m.append(feature_id.as_str());
                m.append("` not found.");
                m
            },
            ConfigurationAccessError::PropertyNotFound { property_id } => {
                let mut m = "Property `".to_owned();
                m.append(property_id.as_str());
                m.append("` not found.");
                m
            },
            ConfigurationAccessError::MissingSegments { resource_id } => {
                let mut m = "Missing Segments for Resource `".to_owned();
                m.append(resource_id.as_str());
                m.append("`.");
                m
            },
        }
    }
}

/// An error that arose while evaluating an entity against segments.
#[derive(Debug)]
pub struct EntityEvaluationError(pub SegmentEvaluationError);

/// The errors of this library.
#[derive(Debug)]
pub enum Error {
    /// The lock around the snapshot could not be acquired.
    CannotAcquireLock,
    /// The configuration disagrees with what it declares (a value of another
    /// kind than the declared one, or a rollout percentage that is no
    /// percentage).
    ProtocolError(String),
    /// A lookup in the snapshot failed.
    ConfigurationAccessError(ConfigurationAccessError),
    /// Segment membership could not be decided.
    EntityEvaluationError(EntityEvaluationError),
    /// Any other failure.
    Other(String),
}

pub type Result<T> = std::result::Result<T, Error>;

} // verus!
