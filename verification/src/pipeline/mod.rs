//! Pipelines: the executor that runs operations in order, the builder that
//! assembles one, and the registry that finds operations by name.

pub mod builder;
pub mod executor;
pub mod registry;

pub use builder::PipelineBuilder;
pub use executor::Pipeline;
pub use registry::{OperationInfo, OperationRegistry};
