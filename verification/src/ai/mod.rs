//! AI provider selection and the agent skill workflow.

pub mod json;
pub mod service;
pub mod agent;
