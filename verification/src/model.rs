//! The media values that the decisions of this library speak of.

use vstd::prelude::*;

verus! {

/// A timestamp that is not known.
pub const NO_PTS: i64 = i64::MIN;

/// Pixel formats that decide something; every other format keeps its number.
#[derive(Clone, Copy, Debug, PartialEq, Eq, Hash, Structural)]
pub enum PixelFormat {
    Yuv420p,
    Yuv420p10le,
    Yuv420p10be,
    Yuv444p,
    Yuv444p10le,
    Yuv444p16le,
    Yuvj420p,
    P010le,
    Nv12,
    Rgb24,
    Cuda,
    Vaapi,
    Qsv,
    D3d11,
    Videotoolbox,
    DrmPrime,
    Other(i32),
}

/// Kinds of hardware device that a context can be created for.
#[derive(Clone, Copy, Debug, PartialEq, Eq, Hash, Structural)]
pub enum DeviceType {
    Cuda,
    Vaapi,
    Qsv,
    D3d11va,
    Videotoolbox,
    Drm,
    OpenCl,
    Vulkan,
}

/// Codecs that decide something; every other codec keeps its number.
#[derive(Clone, Copy, Debug, PartialEq, Eq, Hash, Structural)]
pub enum CodecId {
    H264,
    Hevc,
    Av1,
    Ass,
    MovText,
    Other(i32),
}

/// What a stream carries.
#[derive(Clone, Copy, Debug, PartialEq, Eq, Hash, Structural)]
pub enum MediaType {
    Video,
    Audio,
    Subtitle,
    Data,
    Attachment,
    Other,
}

/// A quotient of two integers, as time bases and aspect ratios are written.
#[derive(Clone, Copy, Debug, PartialEq, Eq, Hash, Structural)]
pub struct Rational {
    pub num: i32,
    pub den: i32,
}

} // verus!
