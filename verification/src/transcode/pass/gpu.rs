//! Pipelines that keep the frames of a stream on a device from the decoder to the encoder.

use crate::model::{CodecId, PixelFormat};
use crate::text::{contains_text, dec};
use crate::transcode::filter::{
    filter_spec, law_chain_scales_to_the_asked_size, HwFilterParams,
};
use crate::transcode::hw::{codec_id_for_encoder, encoder_codec_id, FilterBackend, HwType};
use crate::transcode::encode::VideoEncoderOptions;
use crate::transcode::pass::encode::{
    common_options, is_common, maps_to_bt709, or_default, tonemaps_to_bt709, DEFAULT_GOP,
};
use crate::transcode::types::{PassConfig, StreamMapping, TranscodeOptions, VideoTargets};
use vstd::prelude::*;

verus! {

/// The number of frames that a pool starts with.
pub const POOL_SIZE: i32 = 25;

/// A pool of frames on a device.
#[derive(Clone, Copy, Debug, PartialEq, Eq, Structural)]
pub struct FramePool {
    pub format: PixelFormat,
    pub sw_format: PixelFormat,
    pub width: i32,
    pub height: i32,
    pub initial_pool_size: i32,
}

/// The pipeline of a stream on a device.
#[derive(Debug)]
pub struct GpuPlan {
    pub out_idx: usize,
    /// The layout of the frames that the decoder outputs.
    pub src_sw_fmt: PixelFormat,
    /// The pool of the decoder.
    pub decode_pool: FramePool,
    /// The pool of the encoder, for a filter that does not bring its own.
    pub encode_pool: FramePool,
    pub need_format_convert: bool,
    pub decode_hw: HwType,
    pub encode_hw: HwType,
    pub pix_fmt: PixelFormat,
    pub bit_rate: Option<i64>,
    /// The value of the option `preset`.
    pub preset: String,
    pub gop_size: i32,
    pub thread_count: i32,
    /// The output is tagged as BT.709 with limited range.
    pub tag_bt709: bool,
    pub global_header: bool,
    pub common: VideoEncoderOptions,
}

/// The stream is one whose pipeline is on the device: it is mapped so, its target is so, and its
/// decoder is there.
pub open spec fn is_gpu_stream(
    mapping: StreamMapping,
    target: Option<VideoTargets>,
    has_decoder: bool,
) -> bool {
    &&& mapping matches StreamMapping::Video { gpu_pipeline, .. } && gpu_pipeline
    &&& target matches Some(t) && t.gpu_pipeline
    &&& has_decoder
}

/// The backend that encodes: the decode backend where no other is there.
pub open spec fn encoding_backend(decode_accel: HwType, encode_accel: Option<HwType>) -> HwType {
    match encode_accel {
        Some(hw) => hw,
        None => decode_accel,
    }
}

/// Colours are tagged as BT.709 where the filter maps to it, and where there is a filter and the
/// encoder's colours are unspecified.
pub open spec fn is_tagged_bt709(filter: Option<String>, unspecified: bool) -> bool {
    maps_to_bt709(filter) || (unspecified && filter is Some)
}

/// `p` is the pipeline of a stream on the device.
pub open spec fn is_gpu_plan(
    p: GpuPlan,
    mapping: StreamMapping,
    target: VideoTargets,
    cfg: PassConfig,
    opts: TranscodeOptions,
    decode_accel: HwType,
    encode_accel: Option<HwType>,
    source_fmt: PixelFormat,
    dec_size: (i32, i32),
    unspecified: bool,
    global_header: bool,
) -> bool {
    let encode_hw = encoding_backend(decode_accel, encode_accel);
    &&& mapping.spec_out_idx() == Some(p.out_idx)
    &&& p.src_sw_fmt == decode_accel.spec_sw_format(source_fmt)
    &&& p.decode_pool == (FramePool {
        format: decode_accel.spec_pix_fmt(),
        sw_format: p.src_sw_fmt,
        width: dec_size.0,
        height: dec_size.1,
        initial_pool_size: POOL_SIZE,
    })
    &&& p.encode_pool == (FramePool {
        format: encode_hw.spec_pix_fmt(),
        sw_format: target.sw_pix_fmt,
        width: target.width,
        height: target.height,
        initial_pool_size: POOL_SIZE,
    })
    &&& p.need_format_convert == (p.src_sw_fmt != target.sw_pix_fmt || cfg.resolution is Some)
    &&& p.decode_hw == decode_accel
    &&& p.encode_hw == encode_hw
    &&& p.pix_fmt == encode_hw.spec_pix_fmt()
    &&& p.bit_rate == cfg.target_bitrate
    &&& p.preset@ == opts.preset@
    &&& p.gop_size == or_default(opts.gop, DEFAULT_GOP)
    &&& p.thread_count == 1
    &&& p.tag_bt709 == is_tagged_bt709(opts.video_filter, unspecified)
    &&& p.global_header == global_header
    &&& is_common(p.common, opts)
}

/// The pipeline of a stream on the device; `None` where the stream has no such pipeline, or there
/// is no decode backend. `dec_size` is the size that the decoder outputs, where there is a
/// decoder; `unspecified` tells that the encoder's colours are not set.
pub fn plan_gpu_pipeline(
    mapping: StreamMapping,
    target: &Option<VideoTargets>,
    cfg: &PassConfig,
    opts: &TranscodeOptions,
    decode_accel: Option<HwType>,
    encode_accel: Option<HwType>,
    source_fmt: PixelFormat,
    dec_size: Option<(i32, i32)>,
    unspecified: bool,
    global_header: bool,
) -> (r: Option<GpuPlan>)
    ensures
        match r {
            Some(p) => {
                &&& decode_accel is Some
                &&& is_gpu_stream(mapping, *target, dec_size is Some)
                &&& is_gpu_plan(
                    p,
                    mapping,
                    target->0,
                    *cfg,
                    *opts,
                    decode_accel->0,
                    encode_accel,
                    source_fmt,
                    dec_size->0,
                    unspecified,
                    global_header,
                )
            },
            None => decode_accel is None || !is_gpu_stream(mapping, *target, dec_size is Some),
        },
{
    let decode_hw = match decode_accel {
        Some(hw) => hw,
        None => return None,
    };
    let encode_hw = match encode_accel {
        Some(hw) => hw,
        None => decode_hw,
    };
    let out_idx: usize = match mapping {
        StreamMapping::Video { out_idx, gpu_pipeline } => if gpu_pipeline {
            out_idx
        } else {
            return None;
        },
        _ => return None,
    };
    let t = match target {
        Some(t) => if t.gpu_pipeline {
            t
        } else {
            return None;
        },
        None => return None,
    };
    let (dec_width, dec_height) = match dec_size {
        Some(size) => size,
        None => return None,
    };
    let src_sw_fmt = decode_hw.sw_format(source_fmt);
    let tag_bt709 = tonemaps_to_bt709(&opts.video_filter) || (unspecified
        && opts.video_filter.is_some());
    Some(
        GpuPlan {
            out_idx,
            src_sw_fmt,
            decode_pool: FramePool {
                format: decode_hw.pix_fmt(),
                sw_format: src_sw_fmt,
                width: dec_width,
                height: dec_height,
                initial_pool_size: POOL_SIZE,
            },
            encode_pool: FramePool {
                format: encode_hw.pix_fmt(),
                sw_format: t.sw_pix_fmt,
                width: t.width,
                height: t.height,
                initial_pool_size: POOL_SIZE,
            },
            need_format_convert: src_sw_fmt != t.sw_pix_fmt || cfg.resolution.is_some(),
            decode_hw,
            encode_hw,
            pix_fmt: encode_hw.pix_fmt(),
            bit_rate: cfg.target_bitrate,
            preset: opts.preset.clone(),
            gop_size: match opts.gop {
                Some(v) => v,
                None => DEFAULT_GOP,
            },
            thread_count: 1,
            tag_bt709,
            global_header,
            common: common_options(opts),
        },
    )
}

/// What is known of a stream when its pipeline on the device is planned.
#[derive(Clone, Copy, Debug)]
pub struct GpuSource {
    /// The pixel format of the source.
    pub source_fmt: PixelFormat,
    /// The size that its decoder outputs, where it has a decoder.
    pub dec_size: Option<(i32, i32)>,
}

/// `p` is what becomes of a stream: its pipeline on the device, where it has one.
pub open spec fn is_gpu_outcome(
    p: Option<GpuPlan>,
    mapping: StreamMapping,
    target: Option<VideoTargets>,
    source: GpuSource,
    cfg: PassConfig,
    opts: TranscodeOptions,
    decode_accel: Option<HwType>,
    encode_accel: Option<HwType>,
    unspecified: bool,
    global_header: bool,
) -> bool {
    match p {
        Some(plan) => {
            &&& decode_accel is Some
            &&& is_gpu_stream(mapping, target, source.dec_size is Some)
            &&& is_gpu_plan(
                plan,
                mapping,
                target->0,
                cfg,
                opts,
                decode_accel->0,
                encode_accel,
                source.source_fmt,
                source.dec_size->0,
                unspecified,
                global_header,
            )
        },
        None => decode_accel is None || !is_gpu_stream(mapping, target, source.dec_size is Some),
    }
}

/// The pipelines on the device of all streams, in order.
pub fn init_gpu_pipelines(
    stream_map: &Vec<StreamMapping>,
    targets: &Vec<Option<VideoTargets>>,
    sources: &Vec<GpuSource>,
    cfg: &PassConfig,
    opts: &TranscodeOptions,
    decode_accel: Option<HwType>,
    encode_accel: Option<HwType>,
    unspecified: bool,
    global_header: bool,
) -> (r: Vec<Option<GpuPlan>>)
    requires
        targets@.len() == stream_map@.len(),
        sources@.len() == stream_map@.len(),
    ensures
        r@.len() == stream_map@.len(),
        forall|i: int|
            0 <= i < stream_map@.len() ==> is_gpu_outcome(
                #[trigger] r@[i],
                stream_map@[i],
                targets@[i],
                sources@[i],
                *cfg,
                *opts,
                decode_accel,
                encode_accel,
                unspecified,
                global_header,
            ),
{
    let mut plans: Vec<Option<GpuPlan>> = Vec::new();
    let mut i: usize = 0;
    while i < stream_map.len()
        invariant
            i <= stream_map@.len(),
            targets@.len() == stream_map@.len(),
            sources@.len() == stream_map@.len(),
            plans@.len() == i,
            forall|k: int|
                0 <= k < i ==> is_gpu_outcome(
                    #[trigger] plans@[k],
                    stream_map@[k],
                    targets@[k],
                    sources@[k],
                    *cfg,
                    *opts,
                    decode_accel,
                    encode_accel,
                    unspecified,
                    global_header,
                ),
        decreases stream_map@.len() - i,
    {
        let plan = plan_gpu_pipeline(
            stream_map[i],
            &targets[i],
            cfg,
            opts,
            decode_accel,
            encode_accel,
            sources[i].source_fmt,
            sources[i].dec_size,
            unspecified,
            global_header,
        );
        plans.push(plan);
        i = i + 1;
    }
    plans
}

/// What decides the filter chain of a pipeline on the device.
pub fn gpu_filter_params<'a>(
    plan: &GpuPlan,
    target_sw_fmt: PixelFormat,
    resolution: Option<(i32, i32)>,
    filter_backend: FilterBackend,
    video_filter: Option<&'a str>,
) -> (r: HwFilterParams<'a>)
    ensures
        r.decode_hw == plan.decode_hw,
        r.filter_backend == filter_backend,
        r.encode_hw == Some(plan.encode_hw),
        r.target_sw_fmt == target_sw_fmt,
        r.resolution == resolution,
        r.need_format_convert == plan.need_format_convert,
        r.custom_filter == video_filter,
{
    HwFilterParams {
        decode_hw: plan.decode_hw,
        filter_backend,
        encode_hw: Some(plan.encode_hw),
        target_sw_fmt,
        resolution,
        need_format_convert: plan.need_format_convert,
        custom_filter: video_filter,
    }
}

/// The codec of the output stream that waits for a pipeline on the device.
pub fn placeholder_codec_id(codec_name: &str) -> (r: CodecId)
    ensures
        r == encoder_codec_id(codec_name@),
{
    codec_id_for_encoder(codec_name)
}

/// A pipeline on the device whose output size is asked for resizes: whatever the layouts are, its
/// chain hands the asked width and height to a scaler, where no custom filter takes its place.
pub proof fn law_asked_size_is_scaled_to(
    p: GpuPlan,
    mapping: StreamMapping,
    target: VideoTargets,
    cfg: PassConfig,
    opts: TranscodeOptions,
    decode_accel: HwType,
    encode_accel: Option<HwType>,
    source_fmt: PixelFormat,
    dec_size: (i32, i32),
    unspecified: bool,
    global_header: bool,
    params: HwFilterParams,
    w: i32,
    h: i32,
)
    requires
        is_gpu_plan(
            p,
            mapping,
            target,
            cfg,
            opts,
            decode_accel,
            encode_accel,
            source_fmt,
            dec_size,
            unspecified,
            global_header,
        ),
        cfg.resolution == Some((w, h)),
        params.decode_hw == p.decode_hw,
        params.resolution == cfg.resolution,
        params.need_format_convert == p.need_format_convert,
        params.custom_filter is None,
    ensures
        p.need_format_convert,
        params.filter_backend == FilterBackend::Native ==> contains_text(
            filter_spec(params),
            FilterBackend::Native.spec_scale_filter(Some(decode_accel)) + "="@ + "w="@ + dec(
                w as int,
            ) + ":"@ + "h="@ + dec(h as int),
        ),
        params.filter_backend == FilterBackend::OpenCL ==> contains_text(
            filter_spec(params),
            "scale_opencl"@ + "="@ + ""@ + dec(w as int) + ":"@ + ""@ + dec(h as int),
        ),
        params.filter_backend == FilterBackend::Vulkan ==> contains_text(
            filter_spec(params),
            "libplacebo"@ + "="@ + "w="@ + dec(w as int) + ":"@ + "h="@ + dec(h as int),
        ),
        params.filter_backend == FilterBackend::Software ==> contains_text(
            filter_spec(params),
            "scale="@ + dec(w as int) + ":"@ + dec(h as int),
        ),
{
    law_chain_scales_to_the_asked_size(params, w, h);
}

/// A pipeline on the device converts exactly if the layout of the decoded frames is not that of
/// the target, or a size is asked for; so frames that are not converted already have the layout
/// and the size of the target.
pub proof fn law_frames_reach_the_target_layout(
    p: GpuPlan,
    mapping: StreamMapping,
    target: VideoTargets,
    cfg: PassConfig,
    opts: TranscodeOptions,
    decode_accel: HwType,
    encode_accel: Option<HwType>,
    source_fmt: PixelFormat,
    dec_size: (i32, i32),
    unspecified: bool,
    global_header: bool,
)
    requires
        is_gpu_plan(
            p,
            mapping,
            target,
            cfg,
            opts,
            decode_accel,
            encode_accel,
            source_fmt,
            dec_size,
            unspecified,
            global_header,
        ),
    ensures
        decode_accel.spec_sw_format(source_fmt) != target.sw_pix_fmt ==> p.need_format_convert,
        cfg.resolution is Some ==> p.need_format_convert,
        decode_accel.spec_sw_format(source_fmt) == target.sw_pix_fmt && cfg.resolution is None
            ==> !p.need_format_convert,
        !p.need_format_convert ==> p.decode_pool.sw_format == p.encode_pool.sw_format,
{
}

/// Frames enter a pipeline on the device in the size and the pixel format of its decoder and leave
/// it in the size and layout of the target, in the pixel format of the device that encodes: the
/// asked one, or the decode device where no other is there.
pub proof fn law_pools_fit_their_ends(
    p: GpuPlan,
    mapping: StreamMapping,
    target: VideoTargets,
    cfg: PassConfig,
    opts: TranscodeOptions,
    decode_accel: HwType,
    encode_accel: Option<HwType>,
    source_fmt: PixelFormat,
    dec_size: (i32, i32),
    unspecified: bool,
    global_header: bool,
)
    requires
        is_gpu_plan(
            p,
            mapping,
            target,
            cfg,
            opts,
            decode_accel,
            encode_accel,
            source_fmt,
            dec_size,
            unspecified,
            global_header,
        ),
    ensures
        mapping matches StreamMapping::Video { out_idx, .. } ==> p.out_idx == out_idx,
        p.decode_hw == decode_accel,
        p.src_sw_fmt == decode_accel.spec_sw_format(source_fmt),
        p.decode_pool.width == dec_size.0 && p.decode_pool.height == dec_size.1,
        p.decode_pool.format == decode_accel.spec_pix_fmt(),
        p.decode_pool.sw_format == decode_accel.spec_sw_format(source_fmt),
        p.encode_pool.width == target.width && p.encode_pool.height == target.height,
        p.encode_pool.sw_format == target.sw_pix_fmt,
        encode_accel matches Some(hw) ==> p.encode_hw == hw && p.pix_fmt == hw.spec_pix_fmt()
            && p.encode_pool.format == hw.spec_pix_fmt(),
        encode_accel is None ==> p.encode_hw == decode_accel && p.pix_fmt
            == decode_accel.spec_pix_fmt() && p.encode_pool.format == decode_accel.spec_pix_fmt(),
        p.decode_pool.initial_pool_size == 25 && p.encode_pool.initial_pool_size == 25,
{
}

/// What was asked of the encoder reaches it: the rate, the preset, the key frame distance, which
/// is 250 where none is asked for, and the common options.
pub proof fn law_device_encoder_gets_the_options(
    p: GpuPlan,
    mapping: StreamMapping,
    target: VideoTargets,
    cfg: PassConfig,
    opts: TranscodeOptions,
    decode_accel: HwType,
    encode_accel: Option<HwType>,
    source_fmt: PixelFormat,
    dec_size: (i32, i32),
    unspecified: bool,
    global_header: bool,
)
    requires
        is_gpu_plan(
            p,
            mapping,
            target,
            cfg,
            opts,
            decode_accel,
            encode_accel,
            source_fmt,
            dec_size,
            unspecified,
            global_header,
        ),
    ensures
        p.bit_rate == cfg.target_bitrate,
        p.preset@ == opts.preset@,
        opts.gop matches Some(g) ==> p.gop_size == g && p.common.gop == Some(g),
        opts.gop is None ==> p.gop_size == 250 && p.common.gop is None,
        p.thread_count == 1,
        p.global_header == global_header,
        p.common.rc_max_rate == opts.maxrate,
        p.common.rc_buffer_size is Some <==> opts.bufsize is Some,
        opts.bufsize matches Some(size) ==> (i32::MIN <= size <= i32::MAX
            ==> p.common.rc_buffer_size == Some(size as i32)),
        p.common.keyint_min == opts.keyint_min,
        p.common.profile is Some <==> opts.video_profile is Some,
        opts.video_profile is Some ==> p.common.profile->0@ == opts.video_profile->0@,
{
}

/// Output is tagged as BT.709 where the filter maps tones to it, and where a filter is there and
/// the encoder has no colours; without a filter it is never tagged.
pub proof fn law_colours_are_tagged(filter: String, unspecified: bool)
    ensures
        !is_tagged_bt709(None, unspecified),
        is_tagged_bt709(Some(filter), true),
        is_tagged_bt709(Some(filter), false) <==> contains_text(filter@, "tonemap"@)
            && contains_text(filter@, "bt709"@),
{
}

/// A stream has a pipeline on the device exactly if it is a video stream that is mapped so, its
/// target is on the device, its decoder is there, and a decode device is there.
pub proof fn law_only_device_streams_get_a_pipeline(
    p: Option<GpuPlan>,
    mapping: StreamMapping,
    target: Option<VideoTargets>,
    source: GpuSource,
    cfg: PassConfig,
    opts: TranscodeOptions,
    decode_accel: Option<HwType>,
    encode_accel: Option<HwType>,
    unspecified: bool,
    global_header: bool,
)
    requires
        is_gpu_outcome(
            p,
            mapping,
            target,
            source,
            cfg,
            opts,
            decode_accel,
            encode_accel,
            unspecified,
            global_header,
        ),
    ensures
        p is Some <==> decode_accel is Some && source.dec_size is Some && (target matches Some(t)
            && t.gpu_pipeline) && (mapping matches StreamMapping::Video { gpu_pipeline, .. }
            && gpu_pipeline),
{
}

/// The filter chain of a pipeline is asked for with the devices of the plan and with what the pass
/// asks for, nothing left out.
pub proof fn law_filters_are_asked_for_as_planned<'a>(
    plan: GpuPlan,
    target_sw_fmt: PixelFormat,
    resolution: Option<(i32, i32)>,
    filter_backend: FilterBackend,
    video_filter: Option<&'a str>,
    r: HwFilterParams<'a>,
)
    requires
        call_ensures(
            gpu_filter_params,
            (&plan, target_sw_fmt, resolution, filter_backend, video_filter),
            r,
        ),
    ensures
        r.decode_hw == plan.decode_hw,
        r.encode_hw == Some(plan.encode_hw),
        r.filter_backend == filter_backend,
        r.target_sw_fmt == target_sw_fmt,
        r.resolution == resolution,
        r.need_format_convert == plan.need_format_convert,
        r.custom_filter == video_filter,
{
}

} // verus!
