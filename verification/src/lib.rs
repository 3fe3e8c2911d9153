//! Evidence pipeline for short-video analysis: candidate mining, evidence
//! timelines, Markdown reports, and the AI provider selection state.

pub mod text;
pub mod deep_video;
pub mod ai;
pub mod commands;
pub mod host;
