//! Verified decision logic of a media toolkit built around FFmpeg.

pub mod collections;
pub mod common;
pub mod error;
pub mod media;
pub mod model;
pub mod text;
pub mod transcode;
