//! One pass over an input: targets, encoders, output, the packet loop, the end.

pub mod demux;
pub mod encode;
pub mod flush;
pub mod gpu;
pub mod output;
pub mod targets;
