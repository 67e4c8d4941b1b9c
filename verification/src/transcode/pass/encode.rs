//! The encoders of a pass and the output streams that they fill.

use crate::error::{fails_with, Error};
use crate::model::CodecId;
use crate::text::{contains, contains_text, dec, dec_i64, same};
use crate::transcode::encode::{apply_video_encoder_options, wrapped_i32, VideoEncoderOptions};
use crate::transcode::hw::{
    codec_id_for_encoder, encoder_codec_id, hw_of_codec, is_any_hw_encoder, HwType,
};
use crate::transcode::pass::output::option_texts;
use crate::transcode::pass::targets::StreamTargets;
use crate::transcode::types::{
    AudioTargets, PassConfig, StreamMapping, TranscodeOptions, VideoTargets,
};
use vstd::prelude::*;

verus! {

/// How often a key frame comes where the options do not say.
pub const DEFAULT_GOP: i32 = 250;

/// The quality where the options do not say.
pub const DEFAULT_CRF: i32 = 23;

/// The rate of an audio encoder that has none of its own.
pub const DEFAULT_AUDIO_BITRATE: i64 = 128_000;

/// The settings of a video encoder.
#[derive(Debug)]
pub struct VideoEncoderPlan {
    /// The device context of the encode backend is attached.
    pub attach_device: bool,
    pub bit_rate: Option<i64>,
    /// The options of the encoder, as key and value.
    pub options: Vec<(String, String)>,
    pub gop_size: i32,
    /// 0: the encoder decides.
    pub thread_count: i32,
    /// The output is tagged as BT.709 with limited range.
    pub tag_bt709: bool,
    pub global_header: bool,
    /// The other options that were given.
    pub common: VideoEncoderOptions,
}

/// The filter maps tones to BT.709.
pub open spec fn maps_to_bt709(filter: Option<String>) -> bool {
    match filter {
        Some(f) => contains_text(f@, "tonemap"@) && contains_text(f@, "bt709"@),
        None => false,
    }
}

/// Whether the filter maps tones to BT.709.
pub fn tonemaps_to_bt709(filter: &Option<String>) -> (r: bool)
    ensures
        r == maps_to_bt709(*filter),
{
    match filter {
        Some(f) => contains(f.as_str(), "tonemap") && contains(f.as_str(), "bt709"),
        None => false,
    }
}

/// `common` holds the rates, the key frame distances and the profile of `opts`.
pub open spec fn is_common(common: VideoEncoderOptions, opts: TranscodeOptions) -> bool {
    &&& common.rc_max_rate == opts.maxrate
    &&& match (common.rc_buffer_size, opts.bufsize) {
        (Some(size), Some(rate)) => size as int == wrapped_i32(rate as int),
        (None, None) => true,
        _ => false,
    }
    &&& common.gop == opts.gop
    &&& common.keyint_min == opts.keyint_min
    &&& match (common.profile, opts.video_profile) {
        (Some(a), Some(b)) => a@ == b@,
        (None, None) => true,
        _ => false,
    }
}

/// The common options of `opts`.
pub fn common_options(opts: &TranscodeOptions) -> (r: VideoEncoderOptions)
    ensures
        is_common(r, *opts),
{
    let profile = match &opts.video_profile {
        Some(p) => Some(p.as_str()),
        None => None,
    };
    apply_video_encoder_options(opts.maxrate, opts.bufsize, opts.gop, opts.keyint_min, profile)
}

pub open spec fn or_default(value: Option<i32>, default: i32) -> i32 {
    match value {
        Some(v) => v,
        None => default,
    }
}

/// One of the two software encoders that take a quality in place of a rate.
pub open spec fn takes_crf(codec: Seq<char>) -> bool {
    codec == "libx264"@ || codec == "libx265"@
}

/// The options of a video encoder: the preset for hardware encoders and the two software encoders
/// that know it, and the quality for those two where no rate is asked for.
pub open spec fn encoder_option_texts(
    codec: Seq<char>,
    opts: TranscodeOptions,
    bit_rate: Option<i64>,
) -> Seq<(Seq<char>, Seq<char>)> {
    (if hw_of_codec(codec) is Some || takes_crf(codec) {
        seq![("preset"@, opts.preset@)]
    } else {
        seq![]
    }) + (if takes_crf(codec) && bit_rate is None {
        seq![("crf"@, dec(or_default(opts.crf, DEFAULT_CRF) as int))]
    } else {
        seq![]
    })
}

/// `p` is the plan of a video encoder that takes frames from main memory.
pub open spec fn is_sw_video_plan(
    p: VideoEncoderPlan,
    codec: Seq<char>,
    cfg: PassConfig,
    opts: TranscodeOptions,
    encode_accel: Option<HwType>,
    global_header: bool,
) -> bool {
    &&& p.attach_device == (match encode_accel {
        Some(hw) => hw.spec_is_hw_encoder(codec),
        None => false,
    })
    &&& p.bit_rate == cfg.target_bitrate
    &&& option_texts(p.options@) == encoder_option_texts(codec, opts, cfg.target_bitrate)
    &&& p.gop_size == or_default(opts.gop, DEFAULT_GOP)
    &&& p.thread_count == (if hw_of_codec(codec) is Some {
        1int
    } else {
        0
    })
    &&& p.tag_bt709 == maps_to_bt709(opts.video_filter)
    &&& p.global_header == global_header
    &&& is_common(p.common, opts)
}

/// The plan of a video encoder that takes frames from main memory.
pub fn sw_video_plan(
    codec: &str,
    cfg: &PassConfig,
    opts: &TranscodeOptions,
    encode_accel: Option<HwType>,
    global_header: bool,
) -> (r: VideoEncoderPlan)
    ensures
        is_sw_video_plan(r, codec@, *cfg, *opts, encode_accel, global_header),
{
    let hw = is_any_hw_encoder(codec);
    let crf_codec = same(codec, "libx264") || same(codec, "libx265");
    let mut options: Vec<(String, String)> = Vec::new();
    if hw || crf_codec {
        options.push(("preset".to_owned(), opts.preset.clone()));
    }
    if crf_codec && cfg.target_bitrate.is_none() {
        let crf: i32 = match opts.crf {
            Some(v) => v,
            None => DEFAULT_CRF,
        };
        options.push(("crf".to_owned(), dec_i64(crf as i64)));
    }
    proof {
        assert(option_texts(options@) =~= encoder_option_texts(codec@, *opts, cfg.target_bitrate));
    }
    VideoEncoderPlan {
        attach_device: match encode_accel {
            Some(hw) => hw.is_hw_encoder(codec),
            None => false,
        },
        bit_rate: cfg.target_bitrate,
        options,
        gop_size: match opts.gop {
            Some(v) => v,
            None => DEFAULT_GOP,
        },
        thread_count: if hw {
            1
        } else {
            0
        },
        tag_bt709: tonemaps_to_bt709(&opts.video_filter),
        global_header,
        common: common_options(opts),
    }
}

/// The settings of an audio encoder.
#[derive(Clone, Copy, Debug, PartialEq, Eq, Structural)]
pub struct AudioEncoderPlan {
    /// The rate that is set; `None` keeps the encoder's own.
    pub bit_rate: Option<i64>,
    pub strict_std_compliance: i32,
    pub thread_count: i32,
    pub global_header: bool,
}

/// The rate of an audio encoder: the one asked for, else the default where the encoder has none.
pub open spec fn audio_rate(asked: Option<i64>, own: i64) -> Option<i64> {
    match asked {
        Some(rate) => Some(rate),
        None => if own == 0 {
            Some(DEFAULT_AUDIO_BITRATE)
        } else {
            None
        },
    }
}

/// `p` is the plan of an audio encoder. It admits experimental encoders and runs on one thread.
pub open spec fn is_audio_plan(
    p: AudioEncoderPlan,
    opts: TranscodeOptions,
    own_bit_rate: i64,
    global_header: bool,
) -> bool {
    &&& p.bit_rate == audio_rate(opts.audio_bitrate, own_bit_rate)
    &&& p.strict_std_compliance == -2
    &&& p.thread_count == 1
    &&& p.global_header == global_header
}

/// The plan of an audio encoder; `own_bit_rate` is the rate that it has by itself.
pub fn audio_plan(opts: &TranscodeOptions, own_bit_rate: i64, global_header: bool) -> (r:
    AudioEncoderPlan)
    ensures
        is_audio_plan(r, *opts, own_bit_rate, global_header),
{
    let bit_rate = match opts.audio_bitrate {
        Some(rate) => Some(rate),
        None => if own_bit_rate == 0 {
            Some(DEFAULT_AUDIO_BITRATE)
        } else {
            None
        },
    };
    AudioEncoderPlan { bit_rate, strict_std_compliance: -2, thread_count: 1, global_header }
}

/// Which filter graph a stream gets in main memory.
#[derive(Clone, Copy, Debug, PartialEq, Eq, Structural)]
pub enum FilterKind {
    /// None: the stream stays on the device, is copied or is ignored.
    Absent,
    Video,
    Audio,
}

pub open spec fn filter_kind_of(mapping: StreamMapping) -> FilterKind {
    match mapping {
        StreamMapping::Video { gpu_pipeline, .. } => if gpu_pipeline {
            FilterKind::Absent
        } else {
            FilterKind::Video
        },
        StreamMapping::Audio { .. } => FilterKind::Audio,
        _ => FilterKind::Absent,
    }
}

/// Why the filter graph of a stream cannot be set up, where it cannot.
pub open spec fn filter_failure(
    mapping: StreamMapping,
    has_video_target: bool,
    has_audio_target: bool,
    has_decoder: bool,
) -> Option<Seq<char>> {
    match filter_kind_of(mapping) {
        FilterKind::Absent => None,
        FilterKind::Video => if !has_video_target {
            Some("video targets missing"@)
        } else if !has_decoder {
            Some("decode context missing for video"@)
        } else {
            None
        },
        FilterKind::Audio => if !has_audio_target {
            Some("audio targets missing"@)
        } else if !has_decoder {
            Some("decode context missing for audio"@)
        } else {
            None
        },
    }
}

/// Which filter graph a stream gets in main memory.
pub fn sw_filter_kind(
    mapping: StreamMapping,
    has_video_target: bool,
    has_audio_target: bool,
    has_decoder: bool,
) -> (r: Result<FilterKind, Error>)
    ensures
        match r {
            Ok(kind) => kind == filter_kind_of(mapping) && filter_failure(
                mapping,
                has_video_target,
                has_audio_target,
                has_decoder,
            ) is None,
            Err(e) => filter_failure(mapping, has_video_target, has_audio_target, has_decoder)
                == Some(e.text()),
        },
{
    match mapping {
        StreamMapping::Video { gpu_pipeline, .. } => if gpu_pipeline {
            Ok(FilterKind::Absent)
        } else if !has_video_target {
            Err(Error::other("video targets missing"))
        } else if !has_decoder {
            Err(Error::other("decode context missing for video"))
        } else {
            Ok(FilterKind::Video)
        },
        StreamMapping::Audio { .. } => if !has_audio_target {
            Err(Error::other("audio targets missing"))
        } else if !has_decoder {
            Err(Error::other("decode context missing for audio"))
        } else {
            Ok(FilterKind::Audio)
        },
        StreamMapping::Copy { .. } | StreamMapping::Ignore => Ok(FilterKind::Absent),
    }
}

/// The filter graphs of all streams, in order. The first stream whose graph cannot be set up
/// decides the error.
pub fn init_sw_filters(
    stream_map: &Vec<StreamMapping>,
    targets: &StreamTargets,
    has_decoder: &Vec<bool>,
) -> (r: Result<Vec<FilterKind>, Error>)
    requires
        targets.video@.len() == stream_map@.len(),
        targets.audio@.len() == stream_map@.len(),
        has_decoder@.len() == stream_map@.len(),
    ensures
        match r {
            Ok(kinds) => {
                &&& kinds@.len() == stream_map@.len()
                &&& forall|i: int|
                    0 <= i < stream_map@.len() ==> kinds@[i] == filter_kind_of(
                        #[trigger] stream_map@[i],
                    ) && filter_failure(
                        stream_map@[i],
                        targets.video@[i] is Some,
                        targets.audio@[i] is Some,
                        has_decoder@[i],
                    ) is None
            },
            Err(e) => exists|i: int|
                0 <= i < stream_map@.len() && filter_failure(
                    #[trigger] stream_map@[i],
                    targets.video@[i] is Some,
                    targets.audio@[i] is Some,
                    has_decoder@[i],
                ) == Some(e.text()) && forall|j: int|
                    0 <= j < i ==> filter_failure(
                        #[trigger] stream_map@[j],
                        targets.video@[j] is Some,
                        targets.audio@[j] is Some,
                        has_decoder@[j],
                    ) is None,
        },
{
    let mut kinds: Vec<FilterKind> = Vec::new();
    let mut i: usize = 0;
    while i < stream_map.len()
        invariant
            i <= stream_map@.len(),
            targets.video@.len() == stream_map@.len(),
            targets.audio@.len() == stream_map@.len(),
            has_decoder@.len() == stream_map@.len(),
            kinds@.len() == i,
            forall|k: int|
                0 <= k < i ==> kinds@[k] == filter_kind_of(#[trigger] stream_map@[k])
                    && filter_failure(
                    stream_map@[k],
                    targets.video@[k] is Some,
                    targets.audio@[k] is Some,
                    has_decoder@[k],
                ) is None,
        decreases stream_map@.len() - i,
    {
        let ghost m = stream_map@[i as int];
        match sw_filter_kind(
            stream_map[i],
            targets.video[i].is_some(),
            targets.audio[i].is_some(),
            has_decoder[i],
        ) {
            Ok(kind) => kinds.push(kind),
            Err(e) => return Err(e),
        }
        i = i + 1;
    }
    Ok(kinds)
}

/// What fills an output stream.
#[derive(Debug)]
pub enum StreamPlan {
    /// A pipeline on the device, which is set up later.
    Placeholder { codec_id: CodecId, width: i32, height: i32 },
    Video(VideoEncoderPlan),
    Audio(AudioEncoderPlan),
    /// The packets of the input.
    Copy,
    /// There is no output stream.
    Skip,
}

/// Why a stream cannot be planned, where it cannot.
pub open spec fn plan_failure(
    mapping: StreamMapping,
    video: Option<VideoTargets>,
    audio: Option<AudioTargets>,
) -> Option<Seq<char>> {
    match mapping {
        StreamMapping::Video { gpu_pipeline, .. } => if video is Some {
            None
        } else if gpu_pipeline {
            Some("video targets missing for GPU stream"@)
        } else {
            Some("video targets missing"@)
        },
        StreamMapping::Audio { .. } => if audio is Some {
            None
        } else {
            Some("audio targets missing"@)
        },
        _ => None,
    }
}

/// `p` is the plan of a stream.
pub open spec fn is_stream_plan(
    p: StreamPlan,
    mapping: StreamMapping,
    video: Option<VideoTargets>,
    cfg: PassConfig,
    opts: TranscodeOptions,
    encode_accel: Option<HwType>,
    own_audio_rate: i64,
    global_header: bool,
) -> bool {
    match mapping {
        StreamMapping::Video { gpu_pipeline, .. } => if gpu_pipeline {
            p == (StreamPlan::Placeholder {
                codec_id: encoder_codec_id(video->0.codec_name@),
                width: video->0.width,
                height: video->0.height,
            })
        } else {
            p matches StreamPlan::Video(v) && is_sw_video_plan(
                v,
                video->0.codec_name@,
                cfg,
                opts,
                encode_accel,
                global_header,
            )
        },
        StreamMapping::Audio { .. } => p matches StreamPlan::Audio(a) && is_audio_plan(
            a,
            opts,
            own_audio_rate,
            global_header,
        ),
        StreamMapping::Copy { .. } => p == StreamPlan::Copy,
        StreamMapping::Ignore => p == StreamPlan::Skip,
    }
}

fn missing(text: &str) -> (r: Result<StreamPlan, Error>)
    ensures
        fails_with(r, text@),
{
    Err(Error::other(text))
}

/// The plan of one stream.
pub fn plan_stream(
    mapping: StreamMapping,
    video: &Option<VideoTargets>,
    audio: &Option<AudioTargets>,
    cfg: &PassConfig,
    opts: &TranscodeOptions,
    encode_accel: Option<HwType>,
    own_audio_rate: i64,
    global_header: bool,
) -> (r: Result<StreamPlan, Error>)
    ensures
        match r {
            Ok(p) => plan_failure(mapping, *video, *audio) is None && is_stream_plan(
                p,
                mapping,
                *video,
                *cfg,
                *opts,
                encode_accel,
                own_audio_rate,
                global_header,
            ),
            Err(e) => plan_failure(mapping, *video, *audio) == Some(e.text()),
        },
{
    match mapping {
        StreamMapping::Video { gpu_pipeline, .. } => match video {
            Some(t) => if gpu_pipeline {
                Ok(
                    StreamPlan::Placeholder {
                        codec_id: codec_id_for_encoder(t.codec_name.as_str()),
                        width: t.width,
                        height: t.height,
                    },
                )
            } else {
                let plan = sw_video_plan(
                    t.codec_name.as_str(),
                    cfg,
                    opts,
                    encode_accel,
                    global_header,
                );
                Ok(StreamPlan::Video(plan))
            },
            None => if gpu_pipeline {
                missing("video targets missing for GPU stream")
            } else {
                missing("video targets missing")
            },
        },
        StreamMapping::Audio { .. } => match audio {
            Some(_) => Ok(StreamPlan::Audio(audio_plan(opts, own_audio_rate, global_header))),
            None => missing("audio targets missing"),
        },
        StreamMapping::Copy { .. } => Ok(StreamPlan::Copy),
        StreamMapping::Ignore => Ok(StreamPlan::Skip),
    }
}

/// The plans of all streams, in order. The first stream that cannot be planned decides the error.
/// `own_audio_rates` are the rates that the audio encoders have by themselves.
pub fn init_sw_encoders(
    stream_map: &Vec<StreamMapping>,
    targets: &StreamTargets,
    cfg: &PassConfig,
    opts: &TranscodeOptions,
    encode_accel: Option<HwType>,
    own_audio_rates: &Vec<i64>,
    global_header: bool,
) -> (r: Result<Vec<StreamPlan>, Error>)
    requires
        targets.video@.len() == stream_map@.len(),
        targets.audio@.len() == stream_map@.len(),
        own_audio_rates@.len() == stream_map@.len(),
    ensures
        match r {
            Ok(plans) => {
                &&& plans@.len() == stream_map@.len()
                &&& forall|i: int|
                    0 <= i < stream_map@.len() ==> plan_failure(
                        #[trigger] stream_map@[i],
                        targets.video@[i],
                        targets.audio@[i],
                    ) is None && is_stream_plan(
                        plans@[i],
                        stream_map@[i],
                        targets.video@[i],
                        *cfg,
                        *opts,
                        encode_accel,
                        own_audio_rates@[i],
                        global_header,
                    )
            },
            Err(e) => exists|i: int|
                0 <= i < stream_map@.len() && plan_failure(
                    #[trigger] stream_map@[i],
                    targets.video@[i],
                    targets.audio@[i],
                ) == Some(e.text()) && forall|j: int|
                    0 <= j < i ==> plan_failure(
                        #[trigger] stream_map@[j],
                        targets.video@[j],
                        targets.audio@[j],
                    ) is None,
        },
{
    let mut plans: Vec<StreamPlan> = Vec::new();
    let mut i: usize = 0;
    while i < stream_map.len()
        invariant
            i <= stream_map@.len(),
            targets.video@.len() == stream_map@.len(),
            targets.audio@.len() == stream_map@.len(),
            own_audio_rates@.len() == stream_map@.len(),
            plans@.len() == i,
            forall|k: int|
                0 <= k < i ==> plan_failure(
                    #[trigger] stream_map@[k],
                    targets.video@[k],
                    targets.audio@[k],
                ) is None && is_stream_plan(
                    plans@[k],
                    stream_map@[k],
                    targets.video@[k],
                    *cfg,
                    *opts,
                    encode_accel,
                    own_audio_rates@[k],
                    global_header,
                ),
        decreases stream_map@.len() - i,
    {
        let ghost m = stream_map@[i as int];
        match plan_stream(
            stream_map[i],
            &targets.video[i],
            &targets.audio[i],
            cfg,
            opts,
            encode_accel,
            own_audio_rates[i],
            global_header,
        ) {
            Ok(p) => plans.push(p),
            Err(e) => return Err(e),
        }
        i = i + 1;
    }
    Ok(plans)
}

/// The number of output streams of the first `n` input streams.
pub open spec fn output_count(stream_map: Seq<StreamMapping>, n: nat) -> nat
    decreases n,
{
    if n == 0 {
        0
    } else {
        output_count(stream_map, (n - 1) as nat) + (if stream_map[n - 1].spec_out_idx() is Some {
            1nat
        } else {
            0
        })
    }
}

/// Output streams are numbered in the order of the input streams that fill them.
pub open spec fn outputs_in_order(stream_map: Seq<StreamMapping>) -> bool {
    forall|i: int|
        0 <= i < stream_map.len() && (#[trigger] stream_map[i]).spec_out_idx() is Some
            ==> stream_map[i].spec_out_idx()->0 == output_count(stream_map, i as nat)
}

proof fn lemma_output_count_grows(stream_map: Seq<StreamMapping>, i: nat, j: nat)
    requires
        i <= j,
    ensures
        output_count(stream_map, i) <= output_count(stream_map, j),
    decreases j,
{
    if i < j {
        lemma_output_count_grows(stream_map, i, (j - 1) as nat);
    }
}

/// Where output streams are numbered in order, no two input streams fill the same one, and their
/// numbers stay below the number of mapped streams.
pub proof fn law_outputs_are_distinct(stream_map: Seq<StreamMapping>, i: int, j: int)
    requires
        outputs_in_order(stream_map),
        0 <= i < j < stream_map.len(),
        stream_map[i].spec_out_idx() is Some,
        stream_map[j].spec_out_idx() is Some,
    ensures
        stream_map[i].spec_out_idx()->0 < stream_map[j].spec_out_idx()->0,
        stream_map[j].spec_out_idx()->0 < output_count(stream_map, stream_map.len()),
{
    lemma_output_count_grows(stream_map, (i + 1) as nat, j as nat);
    lemma_output_count_grows(stream_map, (j + 1) as nat, stream_map.len());
}

/// Whether the output streams are numbered in the order in which they are created.
pub fn outputs_are_in_order(stream_map: &Vec<StreamMapping>) -> (r: bool)
    ensures
        r == outputs_in_order(stream_map@),
{
    let mut count: usize = 0;
    let mut i: usize = 0;
    while i < stream_map.len()
        invariant
            i <= stream_map@.len(),
            count <= i,
            count == output_count(stream_map@, i as nat),
            forall|k: int|
                0 <= k < i && (#[trigger] stream_map@[k]).spec_out_idx() is Some
                    ==> stream_map@[k].spec_out_idx()->0 == output_count(stream_map@, k as nat),
        decreases stream_map@.len() - i,
    {
        match stream_map[i].out_idx() {
            Some(out) => {
                if out != count {
                    proof {
                        assert(stream_map@[i as int].spec_out_idx() is Some);
                    }
                    return false;
                }
                count = count + 1;
            },
            None => {},
        }
        i = i + 1;
    }
    true
}

/// The plan of an encoder hands on what was asked for: the rate, the key frame distance, which is
/// 250 where none is asked for, and the common options.
pub proof fn law_encoder_gets_the_options(
    p: VideoEncoderPlan,
    codec: Seq<char>,
    cfg: PassConfig,
    opts: TranscodeOptions,
    encode_accel: Option<HwType>,
    global_header: bool,
)
    requires
        is_sw_video_plan(p, codec, cfg, opts, encode_accel, global_header),
    ensures
        p.bit_rate == cfg.target_bitrate,
        opts.gop matches Some(g) ==> p.gop_size == g && p.common.gop == Some(g),
        opts.gop is None ==> p.gop_size == 250 && p.common.gop is None,
        p.global_header == global_header,
        p.common.rc_max_rate == opts.maxrate,
        p.common.rc_buffer_size is Some <==> opts.bufsize is Some,
        opts.bufsize matches Some(size) ==> (i32::MIN <= size <= i32::MAX
            ==> p.common.rc_buffer_size == Some(size as i32)),
        p.common.keyint_min == opts.keyint_min,
        p.common.profile is Some <==> opts.video_profile is Some,
        opts.video_profile is Some ==> p.common.profile->0@ == opts.video_profile->0@,
{
}

/// A hardware encoder gets its device where that is the encode device of the pass, and one thread;
/// any other encoder gets no device and chooses its threads. Output is tagged as BT.709 exactly
/// where the filter maps tones to it.
pub proof fn law_hardware_encoder_gets_its_device(
    p: VideoEncoderPlan,
    codec: Seq<char>,
    cfg: PassConfig,
    opts: TranscodeOptions,
    encode_accel: Option<HwType>,
    global_header: bool,
)
    requires
        is_sw_video_plan(p, codec, cfg, opts, encode_accel, global_header),
    ensures
        p.attach_device <==> (encode_accel matches Some(hw) && hw.spec_is_hw_encoder(codec)),
        hw_of_codec(codec) is Some ==> p.thread_count == 1,
        hw_of_codec(codec) is None ==> p.thread_count == 0,
        opts.video_filter is None ==> !p.tag_bt709,
        opts.video_filter matches Some(f) ==> (p.tag_bt709 <==> contains_text(f@, "tonemap"@)
            && contains_text(f@, "bt709"@)),
{
}

/// The two software encoders that know a quality get it exactly where no rate is asked for: the
/// asked one, or 23. They and hardware encoders get the preset, and no other encoder gets either.
pub proof fn law_rate_or_quality(
    p: VideoEncoderPlan,
    codec: Seq<char>,
    cfg: PassConfig,
    opts: TranscodeOptions,
    encode_accel: Option<HwType>,
    global_header: bool,
)
    requires
        is_sw_video_plan(p, codec, cfg, opts, encode_accel, global_header),
    ensures
        codec == "libx264"@ || codec == "libx265"@ || hw_of_codec(codec) is Some ==> option_texts(
            p.options@,
        ).contains(("preset"@, opts.preset@)),
        (codec == "libx264"@ || codec == "libx265"@) && cfg.target_bitrate is None ==> option_texts(
            p.options@,
        ).contains(
            (
                "crf"@,
                dec(
                    match opts.crf {
                        Some(q) => q as int,
                        None => 23,
                    },
                ),
            ),
        ),
        cfg.target_bitrate is Some || !(codec == "libx264"@ || codec == "libx265"@) ==> forall|i: int|
            0 <= i < p.options@.len() ==> (#[trigger] option_texts(p.options@)[i]).0 == "preset"@,
        codec != "libx264"@ && codec != "libx265"@ && hw_of_codec(codec) is None ==> p.options@.len()
            == 0,
{
    let t = encoder_option_texts(codec, opts, cfg.target_bitrate);
    assert(option_texts(p.options@).len() == p.options@.len());
    assert(t == option_texts(p.options@));
    if hw_of_codec(codec) is Some || takes_crf(codec) {
        assert(t[0] == ("preset"@, opts.preset@));
        if takes_crf(codec) && cfg.target_bitrate is None {
            assert(t[1].0 == "crf"@);
        }
    }
}

/// An audio encoder gets the asked rate; without one it keeps its own, and an encoder that has none
/// gets 128 kilobits.
pub proof fn law_audio_encoder_has_a_rate(
    p: AudioEncoderPlan,
    opts: TranscodeOptions,
    own_bit_rate: i64,
    global_header: bool,
)
    requires
        is_audio_plan(p, opts, own_bit_rate, global_header),
    ensures
        opts.audio_bitrate is Some ==> p.bit_rate == opts.audio_bitrate,
        opts.audio_bitrate is None && own_bit_rate == 0 ==> p.bit_rate == Some(128_000i64),
        opts.audio_bitrate is None && own_bit_rate != 0 ==> p.bit_rate is None,
        p.global_header == global_header,
        p.strict_std_compliance == -2,
        p.thread_count == 1,
{
}

/// Every stream is planned as it is mapped: an encoded stream gets an encoder of its kind, one that
/// stays on the device a place for its pipeline with the size of its target, a copied stream is
/// copied, and an ignored one has no output.
pub proof fn law_streams_are_planned_as_mapped(
    p: StreamPlan,
    mapping: StreamMapping,
    video: Option<VideoTargets>,
    cfg: PassConfig,
    opts: TranscodeOptions,
    encode_accel: Option<HwType>,
    own_audio_rate: i64,
    global_header: bool,
)
    requires
        is_stream_plan(
            p,
            mapping,
            video,
            cfg,
            opts,
            encode_accel,
            own_audio_rate,
            global_header,
        ),
    ensures
        p is Video <==> (mapping matches StreamMapping::Video { gpu_pipeline, .. } && !gpu_pipeline),
        p is Placeholder <==> (mapping matches StreamMapping::Video { gpu_pipeline, .. }
            && gpu_pipeline),
        p matches StreamPlan::Placeholder { width, height, .. } ==> width == video->0.width && height
            == video->0.height,
        p is Audio <==> mapping is Audio,
        p is Copy <==> mapping is Copy,
        p is Skip <==> mapping is Ignore,
{
}

/// A stream is refused exactly if it is mapped to an encoder and has no target of its kind; and a
/// filter graph in main memory needs the decoder too.
pub proof fn law_plans_fail_where_targets_are_missing(
    mapping: StreamMapping,
    video: Option<VideoTargets>,
    audio: Option<AudioTargets>,
    has_decoder: bool,
)
    ensures
        plan_failure(mapping, video, audio) is Some <==> (mapping is Video && video is None) || (
        mapping is Audio && audio is None),
        filter_kind_of(mapping) == FilterKind::Audio <==> mapping is Audio,
        filter_kind_of(mapping) == FilterKind::Video <==> (mapping matches StreamMapping::Video {
            gpu_pipeline,
            ..
        } && !gpu_pipeline),
        mapping is Audio ==> (filter_failure(mapping, video is Some, audio is Some, has_decoder)
            is None <==> audio is Some && has_decoder),
        mapping matches StreamMapping::Video { gpu_pipeline, .. } ==> (filter_failure(
            mapping,
            video is Some,
            audio is Some,
            has_decoder,
        ) is None <==> gpu_pipeline || (video is Some && has_decoder)),
        mapping is Copy || mapping is Ignore ==> filter_failure(
            mapping,
            video is Some,
            audio is Some,
            has_decoder,
        ) is None,
{
}

/// Outputs are in order exactly if the first input stream with an output fills output 0 and each
/// further one the next output.
pub proof fn law_outputs_count_up(stream_map: Seq<StreamMapping>, i: int)
    requires
        outputs_in_order(stream_map),
        0 <= i < stream_map.len(),
        stream_map[i].spec_out_idx() is Some,
    ensures
        (forall|j: int| 0 <= j < i ==> (#[trigger] stream_map[j]) is Ignore)
            ==> stream_map[i].spec_out_idx() == Some(0usize),
        forall|j: int|
            0 <= j < i && (#[trigger] stream_map[j]).spec_out_idx() is Some && (forall|k: int|
                j < k < i ==> (#[trigger] stream_map[k]) is Ignore)
                ==> stream_map[i].spec_out_idx()->0 == stream_map[j].spec_out_idx()->0 + 1,
{
    if forall|j: int| 0 <= j < i ==> (#[trigger] stream_map[j]) is Ignore {
        lemma_ignored_do_not_count(stream_map, 0, i as nat);
    }
    assert forall|j: int|
        0 <= j < i && (#[trigger] stream_map[j]).spec_out_idx() is Some && (forall|k: int|
            j < k < i ==> (#[trigger] stream_map[k]) is Ignore) implies stream_map[i].spec_out_idx()->0
        == stream_map[j].spec_out_idx()->0 + 1 by {
        lemma_ignored_do_not_count(stream_map, (j + 1) as nat, i as nat);
    }
}

proof fn lemma_ignored_do_not_count(stream_map: Seq<StreamMapping>, from: nat, to: nat)
    requires
        from <= to <= stream_map.len(),
        forall|k: int| from <= k < to ==> (#[trigger] stream_map[k]) is Ignore,
    ensures
        output_count(stream_map, to) == output_count(stream_map, from),
    decreases to,
{
    if from < to {
        lemma_ignored_do_not_count(stream_map, from, (to - 1) as nat);
        assert(stream_map[to - 1] is Ignore);
    }
}

/// A failure names the targets or the decoder that is missing.
pub proof fn law_missing_parts_are_named(
    mapping: StreamMapping,
    video: Option<VideoTargets>,
    audio: Option<AudioTargets>,
    has_decoder: bool,
)
    ensures
        mapping matches StreamMapping::Video { gpu_pipeline, .. } ==> video is None ==> (
        gpu_pipeline ==> plan_failure(mapping, video, audio) == Some(
            "video targets missing for GPU stream"@,
        )) && (!gpu_pipeline ==> plan_failure(mapping, video, audio) == Some(
            "video targets missing"@,
        ) && filter_failure(mapping, false, audio is Some, has_decoder) == Some(
            "video targets missing"@,
        ) && filter_failure(mapping, true, audio is Some, false) == Some(
            "decode context missing for video"@,
        )),
        mapping is Audio && audio is None ==> plan_failure(mapping, video, audio) == Some(
            "audio targets missing"@,
        ),
        mapping is Audio ==> filter_failure(mapping, video is Some, false, has_decoder) == Some(
            "audio targets missing"@,
        ) && filter_failure(mapping, video is Some, true, false) == Some(
            "decode context missing for audio"@,
        ),
{
}

} // verus!
