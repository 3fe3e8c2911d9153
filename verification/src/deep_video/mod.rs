//! Deep video analysis: the evidence model and the pure steps of the pipeline.

pub mod types;
pub mod time_format;
pub mod candidate_mining;
pub mod evidence_timeline;
pub mod report;
pub mod artifacts;
pub mod runner;
pub mod frame_sampling;
pub mod contact_sheet;
