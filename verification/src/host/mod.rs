//! The sidecar processes around the application.

pub mod sidecar_manager;
