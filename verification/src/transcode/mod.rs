//! Transcoding: hardware pipelines, filters, encoders and the passes around them.

pub mod decimal;
pub mod encode;
pub mod filter;
pub mod hw;
pub mod pass;
pub mod scheduler;
pub mod types;
pub mod vfs_io;
