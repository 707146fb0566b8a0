//! Client-side evaluation of feature flags and configuration properties.
//!
//! A configuration snapshot holds the features, properties and segments of one
//! environment. Features and properties are resolved for an entity by matching
//! its attributes against segments, choosing the targeting rule of highest
//! priority and gating the result with a deterministic percentage rollout.
pub mod cache;
pub mod decimal;
pub mod entity;
pub mod errors;
pub mod feature;
pub mod feature_snapshot;
pub mod http;
pub mod keyed;
pub mod laws;
pub mod models;
pub mod property_snapshot;
pub mod refresh;
pub mod rollout;
pub mod segment_evaluation;
pub mod text;
pub mod value;

pub use cache::ConfigurationSnapshot;
pub use entity::{Attributes, Entity};
pub use errors::{ConfigurationAccessError, EntityEvaluationError, Error, Result};
pub use feature::{Feature, Property};
pub use feature_snapshot::FeatureSnapshot;
pub use http::{get_base_url, get_ws_url};
pub use property_snapshot::PropertySnapshot;
pub use rollout::random_value;
pub use segment_evaluation::{check_operator, CheckOperatorErrorDetail, SegmentEvaluationError};
pub use value::{ConfigValue, NumericValue, Value, ValueKind};
