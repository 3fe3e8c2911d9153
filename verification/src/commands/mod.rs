//! Operations behind the application commands.

pub mod deep_video;
