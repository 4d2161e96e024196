//! Flows: pipelines of steps that an agent runs.
pub mod executor;
pub mod laws;
pub mod model;
pub mod record;
pub mod runs;
pub mod values;
