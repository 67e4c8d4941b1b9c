//! What each mapped stream is encoded to.

use crate::error::Error;
use crate::model::PixelFormat;
use crate::text::{contains, contains_text};
use crate::transcode::hw::HwType;
use crate::transcode::types::{
    AudioTargets, PassConfig, StreamMapping, TranscodeOptions, VideoTargets,
};
use vstd::prelude::*;

verus! {

/// What is known of a stream when its target is chosen.
#[derive(Clone, Copy, Debug, PartialEq, Eq, Structural)]
pub struct StreamSource {
    /// The pixel format of the source.
    pub source_fmt: PixelFormat,
    /// What its decoder outputs, where it has a decoder.
    pub decoder: Option<DecoderOutput>,
}

/// What a decoder outputs.
#[derive(Clone, Copy, Debug, PartialEq, Eq, Structural)]
pub struct DecoderOutput {
    pub pix_fmt: PixelFormat,
    pub width: i32,
    pub height: i32,
    pub sample_fmt: i32,
    pub sample_rate: i32,
    pub channels: i32,
}

/// The encoders that were looked up by name: the first format that each lists, where it lists any;
/// `None` for an encoder that was not found.
#[derive(Clone, Copy, Debug, PartialEq, Eq, Structural)]
pub struct Encoders {
    pub video: Option<Option<PixelFormat>>,
    pub audio: Option<Option<i32>>,
}

/// Per-stream encode targets.
#[derive(Debug)]
pub struct StreamTargets {
    pub video: Vec<Option<VideoTargets>>,
    pub audio: Vec<Option<AudioTargets>>,
}

/// The encoder runs on hardware.
pub open spec fn encodes_on_hw(cfg: PassConfig, codec: Seq<char>) -> bool {
    match cfg.encode_hw {
        Some(hw) => hw.spec_is_hw_encoder(codec),
        None => false,
    }
}

/// The codec has ten-bit profiles.
pub open spec fn is_ten_bit_codec(codec: Seq<char>) -> bool {
    contains_text(codec, "hevc"@) || contains_text(codec, "h265"@) || contains_text(codec, "av1"@)
}

/// The layout of the frames on the device: that of the source for codecs with ten-bit profiles on
/// hardware that takes ten bits, else NV12.
pub open spec fn gpu_sw_format(cfg: PassConfig, codec: Seq<char>, source: PixelFormat) -> PixelFormat {
    let encode_hw = cfg.encode_hw->0;
    let decode_hw = match cfg.decode_hw {
        Some(hw) => hw,
        None => encode_hw,
    };
    if is_ten_bit_codec(codec) && encode_hw != HwType::Rkmpp && encode_hw != HwType::V4l2m2m {
        decode_hw.spec_sw_format(source)
    } else {
        PixelFormat::Nv12
    }
}

/// The target of a video stream. `t` leaves the device only where `gpu` is not set or the encoder
/// is no hardware encoder.
pub open spec fn is_video_target(
    t: VideoTargets,
    cfg: PassConfig,
    codec: Seq<char>,
    gpu: bool,
    source_fmt: PixelFormat,
    decoder: DecoderOutput,
    first_fmt: Option<PixelFormat>,
) -> bool {
    &&& t.codec_name@ == codec
    &&& t.gpu_pipeline == (gpu && encodes_on_hw(cfg, codec))
    &&& (t.width, t.height) == (match cfg.resolution {
        Some(size) => size,
        None => (decoder.width, decoder.height),
    })
    &&& if t.gpu_pipeline {
        &&& t.pix_fmt == cfg.encode_hw->0.spec_pix_fmt()
        &&& t.sw_pix_fmt == gpu_sw_format(cfg, codec, source_fmt)
    } else if encodes_on_hw(cfg, codec) {
        t.pix_fmt == PixelFormat::Nv12 && t.sw_pix_fmt == PixelFormat::Nv12
    } else {
        &&& t.sw_pix_fmt == t.pix_fmt
        &&& t.pix_fmt == (match first_fmt {
            Some(f) => f,
            None => decoder.pix_fmt,
        })
    }
}

/// Why a video stream has no target, where it has none.
pub open spec fn video_failure(
    cfg: PassConfig,
    source: StreamSource,
    encoders: Encoders,
) -> Option<Seq<char>> {
    match cfg.video_codec_name {
        None => Some("video_codec_name not set"@),
        Some(name) => if encoders.video is None {
            Some("Encoder '"@ + name@ + "' not found"@)
        } else if source.decoder is None {
            Some("decode context missing for video stream"@)
        } else {
            None
        },
    }
}

/// The target of a video stream.
pub fn video_target(
    cfg: &PassConfig,
    gpu: bool,
    source: StreamSource,
    encoders: Encoders,
) -> (r: Result<VideoTargets, Error>)
    ensures
        match r {
            Ok(t) => video_failure(*cfg, source, encoders) is None && is_video_target(
                t,
                *cfg,
                cfg.video_codec_name->0@,
                gpu,
                source.source_fmt,
                source.decoder->0,
                encoders.video->0,
            ),
            Err(e) => video_failure(*cfg, source, encoders) == Some(e.text()),
        },
{
    let codec = match &cfg.video_codec_name {
        Some(name) => name.as_str(),
        None => return Err(Error::other("video_codec_name not set")),
    };
    let first_fmt = match encoders.video {
        Some(f) => f,
        None => {
            let mut message = "Encoder '".to_owned();
            message.append(codec);
            message.append("' not found");
            return Err(Error::Other(message));
        },
    };
    let decoder = match source.decoder {
        Some(d) => d,
        None => return Err(Error::other("decode context missing for video stream")),
    };
    let (width, height) = match cfg.resolution {
        Some(size) => size,
        None => (decoder.width, decoder.height),
    };
    let hw = match cfg.encode_hw {
        Some(hw) => if hw.is_hw_encoder(codec) {
            Some(hw)
        } else {
            None
        },
        None => None,
    };
    let (pix_fmt, sw_pix_fmt, gpu_pipeline) = match hw {
        Some(encode_hw) => if gpu {
            let decode_hw = match cfg.decode_hw {
                Some(hw) => hw,
                None => encode_hw,
            };
            let src_sw = decode_hw.sw_format(source.source_fmt);
            let ten_bit = contains(codec, "hevc") || contains(codec, "h265") || contains(
                codec,
                "av1",
            );
            let sw = if ten_bit && encode_hw.accepts_p010() {
                src_sw
            } else {
                PixelFormat::Nv12
            };
            (encode_hw.pix_fmt(), sw, true)
        } else {
            (PixelFormat::Nv12, PixelFormat::Nv12, false)
        },
        None => {
            let fmt = match first_fmt {
                Some(f) => f,
                None => decoder.pix_fmt,
            };
            (fmt, fmt, false)
        },
    };
    Ok(
        VideoTargets {
            codec_name: codec.to_owned(),
            pix_fmt,
            sw_pix_fmt,
            gpu_pipeline,
            width,
            height,
        },
    )
}

/// The target of an audio stream: the encoder's first sample format, else the decoder's; the
/// decoder's rate; the asked number of channels, else the decoder's.
pub open spec fn is_audio_target(
    t: AudioTargets,
    opts: TranscodeOptions,
    decoder: DecoderOutput,
    first_fmt: Option<i32>,
) -> bool {
    &&& t.codec_name@ == opts.audio_codec@
    &&& t.sample_fmt == (match first_fmt {
        Some(f) => f,
        None => decoder.sample_fmt,
    })
    &&& t.sample_rate == decoder.sample_rate
    &&& t.channels == (match opts.audio_channels {
        Some(n) => n,
        None => decoder.channels,
    })
}

/// Why an audio stream has no target, where it has none.
pub open spec fn audio_failure(
    opts: TranscodeOptions,
    source: StreamSource,
    encoders: Encoders,
) -> Option<Seq<char>> {
    if encoders.audio is None {
        Some("Audio encoder '"@ + opts.audio_codec@ + "' not found"@)
    } else if source.decoder is None {
        Some("decode context missing for audio stream"@)
    } else {
        None
    }
}

/// The target of an audio stream.
pub fn audio_target(opts: &TranscodeOptions, source: StreamSource, encoders: Encoders) -> (r:
    Result<AudioTargets, Error>)
    ensures
        match r {
            Ok(t) => audio_failure(*opts, source, encoders) is None && is_audio_target(
                t,
                *opts,
                source.decoder->0,
                encoders.audio->0,
            ),
            Err(e) => audio_failure(*opts, source, encoders) == Some(e.text()),
        },
{
    let first_fmt = match encoders.audio {
        Some(f) => f,
        None => {
            let mut message = "Audio encoder '".to_owned();
            message.append(opts.audio_codec.as_str());
            message.append("' not found");
            return Err(Error::Other(message));
        },
    };
    let decoder = match source.decoder {
        Some(d) => d,
        None => return Err(Error::other("decode context missing for audio stream")),
    };
    Ok(
        AudioTargets {
            codec_name: opts.audio_codec.clone(),
            sample_fmt: match first_fmt {
                Some(f) => f,
                None => decoder.sample_fmt,
            },
            sample_rate: decoder.sample_rate,
            channels: match opts.audio_channels {
                Some(n) => n,
                None => decoder.channels,
            },
        },
    )
}

/// Why stream `i` has no target although it is mapped to an encoder, where it has none.
pub open spec fn stream_failure(
    mapping: StreamMapping,
    source: StreamSource,
    cfg: PassConfig,
    opts: TranscodeOptions,
    encoders: Encoders,
) -> Option<Seq<char>> {
    match mapping {
        StreamMapping::Video { .. } => video_failure(cfg, source, encoders),
        StreamMapping::Audio { .. } => audio_failure(opts, source, encoders),
        _ => None,
    }
}

/// `v` and `a` are the targets of a stream: a video stream has a video target, an audio stream has
/// an audio target, and any other stream has none.
pub open spec fn are_targets(
    v: Option<VideoTargets>,
    a: Option<AudioTargets>,
    mapping: StreamMapping,
    source: StreamSource,
    cfg: PassConfig,
    opts: TranscodeOptions,
    encoders: Encoders,
) -> bool {
    match mapping {
        StreamMapping::Video { gpu_pipeline, .. } => {
            &&& a is None
            &&& v matches Some(t) && is_video_target(
                t,
                cfg,
                cfg.video_codec_name->0@,
                gpu_pipeline,
                source.source_fmt,
                source.decoder->0,
                encoders.video->0,
            )
        },
        StreamMapping::Audio { .. } => {
            &&& v is None
            &&& a matches Some(t) && is_audio_target(t, opts, source.decoder->0, encoders.audio->0)
        },
        _ => v is None && a is None,
    }
}

/// The targets of all streams. The first stream that has none although it needs one decides the
/// error.
pub fn determine_targets(
    stream_map: &Vec<StreamMapping>,
    sources: &Vec<StreamSource>,
    cfg: &PassConfig,
    opts: &TranscodeOptions,
    encoders: Encoders,
) -> (r: Result<StreamTargets, Error>)
    requires
        stream_map@.len() == sources@.len(),
    ensures
        match r {
            Ok(t) => {
                &&& t.video@.len() == stream_map@.len()
                &&& t.audio@.len() == stream_map@.len()
                &&& forall|i: int|
                    0 <= i < stream_map@.len() ==> stream_failure(
                        #[trigger] stream_map@[i],
                        sources@[i],
                        *cfg,
                        *opts,
                        encoders,
                    ) is None && are_targets(
                        t.video@[i],
                        t.audio@[i],
                        stream_map@[i],
                        sources@[i],
                        *cfg,
                        *opts,
                        encoders,
                    )
            },
            Err(e) => exists|i: int|
                0 <= i < stream_map@.len() && stream_failure(
                    #[trigger] stream_map@[i],
                    sources@[i],
                    *cfg,
                    *opts,
                    encoders,
                ) == Some(e.text()) && forall|j: int|
                    0 <= j < i ==> stream_failure(
                        #[trigger] stream_map@[j],
                        sources@[j],
                        *cfg,
                        *opts,
                        encoders,
                    ) is None,
        },
{
    let mut video: Vec<Option<VideoTargets>> = Vec::new();
    let mut audio: Vec<Option<AudioTargets>> = Vec::new();
    let mut i: usize = 0;
    while i < stream_map.len()
        invariant
            i <= stream_map@.len(),
            stream_map@.len() == sources@.len(),
            video@.len() == i,
            audio@.len() == i,
            forall|k: int|
                0 <= k < i ==> stream_failure(
                    #[trigger] stream_map@[k],
                    sources@[k],
                    *cfg,
                    *opts,
                    encoders,
                ) is None && are_targets(
                    video@[k],
                    audio@[k],
                    stream_map@[k],
                    sources@[k],
                    *cfg,
                    *opts,
                    encoders,
                ),
        decreases stream_map@.len() - i,
    {
        let ghost m = stream_map@[i as int];
        match stream_map[i] {
            StreamMapping::Video { gpu_pipeline, .. } => {
                match video_target(cfg, gpu_pipeline, sources[i], encoders) {
                    Ok(t) => {
                        video.push(Some(t));
                        audio.push(None);
                    },
                    Err(e) => return Err(e),
                }
            },
            StreamMapping::Audio { .. } => {
                match audio_target(opts, sources[i], encoders) {
                    Ok(t) => {
                        video.push(None);
                        audio.push(Some(t));
                    },
                    Err(e) => return Err(e),
                }
            },
            StreamMapping::Copy { .. } | StreamMapping::Ignore => {
                video.push(None);
                audio.push(None);
            },
        }
        i = i + 1;
    }
    Ok(StreamTargets { video, audio })
}

/// A stream stays on the device only if its encoder is a hardware encoder of the pass; then its
/// frames have the device's own pixel format.
pub proof fn law_device_pipeline_needs_a_device_encoder(
    t: VideoTargets,
    cfg: PassConfig,
    codec: Seq<char>,
    gpu: bool,
    source_fmt: PixelFormat,
    decoder: DecoderOutput,
    first_fmt: Option<PixelFormat>,
)
    requires
        is_video_target(t, cfg, codec, gpu, source_fmt, decoder, first_fmt),
    ensures
        t.gpu_pipeline ==> (cfg.encode_hw matches Some(hw) && hw.spec_is_hw_encoder(codec)
            && t.pix_fmt == hw.spec_pix_fmt()),
{
}

/// A video stream is encoded in the asked size, and in the size of its decoder where none is asked
/// for, by the encoder that was asked for.
pub proof fn law_video_target_has_the_asked_size(
    t: VideoTargets,
    cfg: PassConfig,
    codec: Seq<char>,
    gpu: bool,
    source_fmt: PixelFormat,
    decoder: DecoderOutput,
    first_fmt: Option<PixelFormat>,
)
    requires
        is_video_target(t, cfg, codec, gpu, source_fmt, decoder, first_fmt),
    ensures
        t.codec_name@ == codec,
        cfg.resolution matches Some((w, h)) ==> t.width == w && t.height == h,
        cfg.resolution is None ==> t.width == decoder.width && t.height == decoder.height,
{
}

/// A video stream stays on the device exactly if it is mapped so and the encode device has the
/// encoder. A hardware encoder that takes frames from main memory takes NV12; a software encoder
/// takes its own first format, or the decoder's where it lists none.
pub proof fn law_video_target_has_a_format_of_the_encoder(
    t: VideoTargets,
    cfg: PassConfig,
    codec: Seq<char>,
    gpu: bool,
    source_fmt: PixelFormat,
    decoder: DecoderOutput,
    first_fmt: Option<PixelFormat>,
)
    requires
        is_video_target(t, cfg, codec, gpu, source_fmt, decoder, first_fmt),
    ensures
        cfg.encode_hw matches Some(hw) ==> (hw.spec_is_hw_encoder(codec) ==> t.gpu_pipeline == gpu),
        cfg.encode_hw matches Some(hw) ==> (hw.spec_is_hw_encoder(codec) && gpu ==> t.pix_fmt
            == hw.spec_pix_fmt()),
        cfg.encode_hw matches Some(hw) ==> (hw.spec_is_hw_encoder(codec) && !gpu ==> t.pix_fmt
            == PixelFormat::Nv12 && t.sw_pix_fmt == PixelFormat::Nv12),
        cfg.encode_hw is None || !cfg.encode_hw->0.spec_is_hw_encoder(codec) ==> !t.gpu_pipeline
            && t.sw_pix_fmt == t.pix_fmt && (first_fmt matches Some(f) ==> t.pix_fmt == f) && (
        first_fmt is None ==> t.pix_fmt == decoder.pix_fmt),
{
}

/// On the device, HEVC and AV1 keep the layout of the source, ten bits included, where the encode
/// device takes ten bits; every other codec and device gets NV12.
pub proof fn law_ten_bits_stay_where_they_can(
    t: VideoTargets,
    cfg: PassConfig,
    codec: Seq<char>,
    source_fmt: PixelFormat,
    decoder: DecoderOutput,
    first_fmt: Option<PixelFormat>,
    hw: HwType,
)
    requires
        is_video_target(t, cfg, codec, true, source_fmt, decoder, first_fmt),
        cfg.encode_hw == Some(hw),
        hw.spec_is_hw_encoder(codec),
    ensures
        (contains_text(codec, "hevc"@) || contains_text(codec, "h265"@) || contains_text(
            codec,
            "av1"@,
        )) && hw != HwType::Rkmpp && hw != HwType::V4l2m2m ==> t.sw_pix_fmt == (
        match cfg.decode_hw {
            Some(d) => d,
            None => hw,
        }).spec_sw_format(source_fmt),
        !(contains_text(codec, "hevc"@) || contains_text(codec, "h265"@) || contains_text(
            codec,
            "av1"@,
        )) || hw == HwType::Rkmpp || hw == HwType::V4l2m2m ==> t.sw_pix_fmt == PixelFormat::Nv12,
{
}

/// An audio stream is encoded by the asked encoder, at the rate of its decoder, with the asked
/// number of channels or the decoder's, in the first format of the encoder or the decoder's.
pub proof fn law_audio_target_keeps_the_rate(
    t: AudioTargets,
    opts: TranscodeOptions,
    decoder: DecoderOutput,
    first_fmt: Option<i32>,
)
    requires
        is_audio_target(t, opts, decoder, first_fmt),
    ensures
        t.codec_name@ == opts.audio_codec@,
        t.sample_rate == decoder.sample_rate,
        opts.audio_channels matches Some(n) ==> t.channels == n,
        opts.audio_channels is None ==> t.channels == decoder.channels,
        first_fmt matches Some(f) ==> t.sample_fmt == f,
        first_fmt is None ==> t.sample_fmt == decoder.sample_fmt,
{
}

/// A stream that is mapped to an encoder has a target of its own kind and no other; streams that
/// are copied or ignored have none and never fail.
pub proof fn law_streams_have_targets_of_their_kind(
    v: Option<VideoTargets>,
    a: Option<AudioTargets>,
    mapping: StreamMapping,
    source: StreamSource,
    cfg: PassConfig,
    opts: TranscodeOptions,
    encoders: Encoders,
)
    requires
        are_targets(v, a, mapping, source, cfg, opts, encoders),
    ensures
        v is Some <==> mapping is Video,
        a is Some <==> mapping is Audio,
        mapping is Copy || mapping is Ignore ==> stream_failure(mapping, source, cfg, opts, encoders)
            is None,
        mapping matches StreamMapping::Video { gpu_pipeline, .. } ==> (v->0.gpu_pipeline
            ==> gpu_pipeline),
{
}

/// A stream is refused exactly if its encoder is not there, its decoder is not there, or no video
/// encoder was named.
pub proof fn law_targets_fail_where_something_is_missing(
    mapping: StreamMapping,
    source: StreamSource,
    cfg: PassConfig,
    opts: TranscodeOptions,
    encoders: Encoders,
)
    ensures
        mapping is Video ==> (stream_failure(mapping, source, cfg, opts, encoders) is None
            <==> cfg.video_codec_name is Some && encoders.video is Some && source.decoder is Some),
        mapping is Audio ==> (stream_failure(mapping, source, cfg, opts, encoders) is None
            <==> encoders.audio is Some && source.decoder is Some),
{
}

/// A failure names what is missing: first the codec, then its encoder, then the decoder.
pub proof fn law_missing_targets_are_named(
    source: StreamSource,
    cfg: PassConfig,
    opts: TranscodeOptions,
    encoders: Encoders,
)
    ensures
        cfg.video_codec_name is None ==> video_failure(cfg, source, encoders) == Some(
            "video_codec_name not set"@,
        ),
        cfg.video_codec_name is Some && encoders.video is None ==> video_failure(
            cfg,
            source,
            encoders,
        ) == Some("Encoder '"@ + cfg.video_codec_name->0@ + "' not found"@),
        cfg.video_codec_name is Some && encoders.video is Some && source.decoder is None
            ==> video_failure(cfg, source, encoders) == Some(
            "decode context missing for video stream"@,
        ),
        encoders.audio is None ==> audio_failure(opts, source, encoders) == Some(
            "Audio encoder '"@ + opts.audio_codec@ + "' not found"@,
        ),
        encoders.audio is Some && source.decoder is None ==> audio_failure(opts, source, encoders)
            == Some("decode context missing for audio stream"@),
{
}

} // verus!
