//! What a transcode is asked to do, and what follows for each stream.

use crate::model::PixelFormat;
use crate::transcode::hw::HwType;
use vstd::prelude::*;

verus! {

/// What becomes of an input stream.
#[derive(Clone, Copy, Debug, PartialEq, Eq, Structural)]
pub enum StreamMapping {
    /// Decoded, filtered and encoded; `gpu_pipeline`: without leaving the device.
    Video { out_idx: usize, gpu_pipeline: bool },
    Audio { out_idx: usize },
    /// Copied as it is.
    Copy { out_idx: usize },
    Ignore,
}

impl StreamMapping {
    /// The output stream, where there is one.
    pub open spec fn spec_out_idx(self) -> Option<usize> {
        match self {
            StreamMapping::Video { out_idx, .. } => Some(out_idx),
            StreamMapping::Audio { out_idx } => Some(out_idx),
            StreamMapping::Copy { out_idx } => Some(out_idx),
            StreamMapping::Ignore => None,
        }
    }

    /// The output stream, where there is one.
    pub fn out_idx(self) -> (r: Option<usize>)
        ensures
            r == self.spec_out_idx(),
    {
        match self {
            StreamMapping::Video { out_idx, .. } => Some(out_idx),
            StreamMapping::Audio { out_idx } => Some(out_idx),
            StreamMapping::Copy { out_idx } => Some(out_idx),
            StreamMapping::Ignore => None,
        }
    }
}

/// The container of HLS segments.
#[derive(Clone, Copy, Debug, PartialEq, Eq, Structural)]
pub enum HlsSegmentType {
    Fmp4,
    Mpegts,
}

/// Options of HLS output; the numbers are written out.
#[derive(Debug)]
pub struct HlsOptions {
    pub segment_duration: String,
    pub start_number: String,
    pub playlist_type: String,
    pub segment_pattern: String,
    pub segment_type: HlsSegmentType,
    pub init_filename: String,
}

/// Options of a transcode.
#[derive(Debug)]
pub struct TranscodeOptions {
    pub audio_codec: String,
    pub preset: String,
    pub crf: Option<i32>,
    pub gop: Option<i32>,
    pub keyint_min: Option<i32>,
    pub video_profile: Option<String>,
    pub video_filter: Option<String>,
    pub audio_channels: Option<i32>,
    pub hls: Option<HlsOptions>,
    /// The values of the rates that were given.
    pub maxrate: Option<i64>,
    pub bufsize: Option<i64>,
    pub audio_bitrate: Option<i64>,
}

/// The configuration of one pass.
#[derive(Debug)]
pub struct PassConfig {
    pub video_codec_name: Option<String>,
    pub decode_hw: Option<HwType>,
    pub encode_hw: Option<HwType>,
    pub resolution: Option<(i32, i32)>,
    pub target_bitrate: Option<i64>,
    /// When the input starts, in microseconds.
    pub format_start_time: i64,
}

/// What a video stream is encoded to.
#[derive(Debug)]
pub struct VideoTargets {
    pub codec_name: String,
    pub pix_fmt: PixelFormat,
    pub sw_pix_fmt: PixelFormat,
    pub gpu_pipeline: bool,
    pub width: i32,
    pub height: i32,
}

/// What an audio stream is encoded to.
#[derive(Debug)]
pub struct AudioTargets {
    pub codec_name: String,
    pub sample_fmt: i32,
    pub sample_rate: i32,
    pub channels: i32,
}

} // verus!
