//! Filter chains: the texts that describe filter graphs, and the devices that their filters get.

use crate::model::{PixelFormat, Rational};
use crate::text::{
    contains, contains_text, dec, dec_i64, is_space, join, join_text, law_text_contains_its_parts,
    lemma_contains_head, lemma_contains_tail, lemma_contains_through, lemma_join_split,
    lemma_split_join, lemma_split_nonempty, lemma_split_pieces, occurs_at, split, split_text,
    starts_with, starts_with_text, texts, trim, trim_end_text, trim_start_text, trim_text,
};
use crate::transcode::hw::{format_name, format_text, FilterBackend, HwType};
use vstd::prelude::*;

verus! {

/// What decides the filter chain of a pipeline whose decoder outputs hardware frames.
pub struct HwFilterParams<'a> {
    /// Decode backend.
    pub decode_hw: HwType,
    /// Filter backend to use.
    pub filter_backend: FilterBackend,
    /// Encode backend (may differ from decode).
    pub encode_hw: Option<HwType>,
    /// Target software pixel format for the encoder.
    pub target_sw_fmt: PixelFormat,
    /// Output resolution (`None`: keep the input's).
    pub resolution: Option<(i32, i32)>,
    /// Whether a pixel format conversion is needed.
    pub need_format_convert: bool,
    /// A filter chain given by the caller.
    pub custom_filter: Option<&'a str>,
}

/// One piece of a chain: a bare `format=` filter becomes an argument of the hardware scaler.
pub open spec fn rewritten_segment(seg: Seq<char>, hw_scale: Seq<char>) -> Seq<char> {
    if starts_with_text(trim_text(seg), "format="@) {
        hw_scale + "="@ + trim_text(seg)
    } else {
        seg
    }
}

/// The pieces of a chain, each rewritten.
pub open spec fn rewritten_segments(chain: Seq<char>, hw_scale: Seq<char>) -> Seq<Seq<char>> {
    split_text(chain, ',').map_values(|seg: Seq<char>| rewritten_segment(seg, hw_scale))
}

/// A chain with its bare `format=` filters moved to the hardware scaler; a chain that downloads
/// its frames stays as it is.
pub open spec fn rewritten_chain(chain: Seq<char>, hw_scale: Seq<char>) -> Seq<char> {
    if contains_text(chain, "hwdownload"@) {
        chain
    } else {
        join_text(rewritten_segments(chain, hw_scale), ","@)
    }
}

/// Rewrites bare `format=xxx` pieces of a comma-separated filter chain to use the hardware scale
/// filter (`scale_cuda=format=yuv420p`).
///
/// Chains that contain `hwdownload` are left unchanged: after it the frames are in main memory
/// and the plain `format` filter is the right one.
pub fn rewrite_cpu_format_for_hw(chain: &str, hw_scale: &str) -> (r: String)
    ensures
        r@ == rewritten_chain(chain@, hw_scale@),
{
    if contains(chain, "hwdownload") {
        return chain.to_owned();
    }
    let segments = split(chain, ',');
    let mut out: Vec<String> = Vec::new();
    let mut i: usize = 0;
    while i < segments.len()
        invariant
            i <= segments@.len(),
            texts(segments@) == split_text(chain@, ','),
            texts(out@) == rewritten_segments(chain@, hw_scale@).take(i as int),
        decreases segments@.len() - i,
    {
        let ghost before = out@;
        let trimmed = trim(segments[i].as_str());
        let ghost seg = segments@[i as int]@;
        proof {
            assert(split_text(chain@, ',')[i as int] == seg);
            assert(rewritten_segments(chain@, hw_scale@)[i as int] == rewritten_segment(
                seg,
                hw_scale@,
            ));
        }
        let piece = if starts_with(trimmed.as_str(), "format=") {
            let mut piece = hw_scale.to_owned();
            piece.append("=");
            piece.append(trimmed.as_str());
            piece
        } else {
            segments[i].clone()
        };
        out.push(piece);
        i = i + 1;
        proof {
            assert(texts(out@) =~= texts(before).push(piece@));
            assert(texts(out@) =~= rewritten_segments(chain@, hw_scale@).take(i as int));
        }
    }
    proof {
        assert(texts(out@) =~= rewritten_segments(chain@, hw_scale@));
    }
    join(&out, ",")
}

pub open spec fn hwdevice_text(hw: HwType) -> Seq<char> {
    match hw {
        HwType::Cuda => "cuda"@,
        HwType::Vaapi => "vaapi"@,
        HwType::Qsv => "qsv"@,
        HwType::Amf => "d3d11va"@,
        HwType::Videotoolbox => "videotoolbox"@,
        HwType::Rkmpp | HwType::V4l2m2m => "drm"@,
    }
}

/// The device name that `hwmap` derives a device from.
pub fn hwdevice_name(hw: HwType) -> (r: &'static str)
    ensures
        r@ == hwdevice_text(hw),
{
    match hw {
        HwType::Cuda => "cuda",
        HwType::Vaapi => "vaapi",
        HwType::Qsv => "qsv",
        HwType::Amf => "d3d11va",
        HwType::Videotoolbox => "videotoolbox",
        HwType::Rkmpp | HwType::V4l2m2m => "drm",
    }
}

/// A chain that maps frames to the device `bridge`, filters there, and maps them back to the
/// decode device.
pub open spec fn bridged(bridge: Seq<char>, inner: Seq<char>, decode_hw: HwType) -> Seq<char> {
    "hwmap=derive_device="@ + bridge + ","@ + inner + ",hwmap=derive_device="@ + hwdevice_text(
        decode_hw,
    ) + ",format="@ + format_text(decode_hw.spec_pix_fmt())
}

fn bridge_chain(bridge: &str, inner: &str, decode_hw: HwType) -> (r: String)
    ensures
        r@ == bridged(bridge@, inner@, decode_hw),
{
    let mut out = "hwmap=derive_device=".to_owned();
    out.append(bridge);
    out.append(",");
    out.append(inner);
    out.append(",hwmap=derive_device=");
    out.append(hwdevice_name(decode_hw));
    out.append(",format=");
    out.append(format_name(decode_hw.pix_fmt()));
    out
}

/// `filter=`, the size behind the two given marks where there is one, and the target format.
pub open spec fn converting(
    filter: Seq<char>,
    w_mark: Seq<char>,
    h_mark: Seq<char>,
    resolution: Option<(i32, i32)>,
    fmt: Seq<char>,
) -> Seq<char> {
    match resolution {
        Some((w, h)) => filter + "="@ + w_mark + dec(w as int) + ":"@ + h_mark + dec(h as int)
            + ":format="@ + fmt,
        None => filter + "="@ + "format="@ + fmt,
    }
}

fn converting_filter(
    filter: &str,
    w_mark: &str,
    h_mark: &str,
    resolution: Option<(i32, i32)>,
    fmt: &str,
) -> (r: String)
    ensures
        r@ == converting(filter@, w_mark@, h_mark@, resolution, fmt@),
{
    let mut out = filter.to_owned();
    out.append("=");
    match resolution {
        Some((w, h)) => {
            out.append(w_mark);
            out.append(dec_i64(w as i64).as_str());
            out.append(":");
            out.append(h_mark);
            out.append(dec_i64(h as i64).as_str());
            out.append(":format=");
        },
        None => out.append("format="),
    }
    out.append(fmt);
    out
}

/// The chain of a custom filter on a backend.
pub open spec fn custom_chain(
    custom: Seq<char>,
    backend: FilterBackend,
    decode_hw: HwType,
) -> Seq<char> {
    match backend {
        FilterBackend::OpenCL => bridged("opencl"@, custom, decode_hw),
        FilterBackend::Vulkan => bridged("vulkan"@, custom, decode_hw),
        FilterBackend::Native => rewritten_chain(custom, backend.spec_scale_filter(Some(decode_hw))),
        FilterBackend::Software => custom,
    }
}

/// The chain that converts to `fmt` on a backend.
pub open spec fn convert_chain(
    backend: FilterBackend,
    decode_hw: HwType,
    resolution: Option<(i32, i32)>,
    fmt: Seq<char>,
) -> Seq<char> {
    match backend {
        FilterBackend::Native => converting(
            backend.spec_scale_filter(Some(decode_hw)),
            "w="@,
            "h="@,
            resolution,
            fmt,
        ),
        FilterBackend::OpenCL => bridged(
            "opencl"@,
            converting("scale_opencl"@, ""@, ""@, resolution, fmt),
            decode_hw,
        ),
        FilterBackend::Vulkan => bridged(
            "vulkan"@,
            converting("libplacebo"@, "w="@, "h="@, resolution, fmt),
            decode_hw,
        ),
        FilterBackend::Software => match resolution {
            Some((w, h)) => "hwdownload,format="@ + fmt + ",scale="@ + dec(w as int) + ":"@ + dec(
                h as int,
            ),
            None => "hwdownload,format="@ + fmt,
        },
    }
}

/// The filter chain of the given parameters.
pub open spec fn filter_spec(params: HwFilterParams) -> Seq<char> {
    match params.custom_filter {
        Some(custom) => custom_chain(custom@, params.filter_backend, params.decode_hw),
        None => if params.need_format_convert {
            convert_chain(
                params.filter_backend,
                params.decode_hw,
                params.resolution,
                format_text(params.target_sw_fmt),
            )
        } else {
            "null"@
        },
    }
}

/// Builds the filter chain of a hardware pipeline. A custom filter takes priority; without one,
/// the chain converts where that is needed and is `null` otherwise.
pub fn build_filter_spec(params: &HwFilterParams) -> (r: String)
    ensures
        r@ == filter_spec(*params),
{
    match params.custom_filter {
        Some(custom) => {
            return match params.filter_backend {
                FilterBackend::OpenCL => bridge_chain("opencl", custom, params.decode_hw),
                FilterBackend::Vulkan => bridge_chain("vulkan", custom, params.decode_hw),
                FilterBackend::Native => {
                    let scale = params.filter_backend.scale_filter(Some(params.decode_hw));
                    rewrite_cpu_format_for_hw(custom, scale)
                },
                FilterBackend::Software => custom.to_owned(),
            };
        },
        None => {},
    }
    if !params.need_format_convert {
        return "null".to_owned();
    }
    let fmt = format_name(params.target_sw_fmt);
    match params.filter_backend {
        FilterBackend::Native => {
            let scale = params.filter_backend.scale_filter(Some(params.decode_hw));
            converting_filter(scale, "w=", "h=", params.resolution, fmt)
        },
        FilterBackend::OpenCL => {
            let inner = converting_filter("scale_opencl", "", "", params.resolution, fmt);
            bridge_chain("opencl", inner.as_str(), params.decode_hw)
        },
        FilterBackend::Vulkan => {
            let inner = converting_filter("libplacebo", "w=", "h=", params.resolution, fmt);
            bridge_chain("vulkan", inner.as_str(), params.decode_hw)
        },
        FilterBackend::Software => {
            let mut out = "hwdownload,format=".to_owned();
            out.append(fmt);
            match params.resolution {
                Some((w, h)) => {
                    out.append(",scale=");
                    out.append(dec_i64(w as i64).as_str());
                    out.append(":");
                    out.append(dec_i64(h as i64).as_str());
                },
                None => {},
            }
            out
        },
    }
}

/// The chain of a software filter graph: the custom one, or a scaler, or `null`.
pub open spec fn sw_filter_spec_text(
    custom_filter: Option<&str>,
    resolution: Option<(i32, i32)>,
) -> Seq<char> {
    match (custom_filter, resolution) {
        (Some(custom), _) => custom@,
        (None, Some((w, h))) => "scale="@ + dec(w as int) + ":"@ + dec(h as int),
        (None, None) => "null"@,
    }
}

/// Builds the chain of a software filter graph.
pub fn sw_filter_spec(custom_filter: Option<&str>, resolution: Option<(i32, i32)>) -> (r: String)
    ensures
        r@ == sw_filter_spec_text(custom_filter, resolution),
{
    match custom_filter {
        Some(custom) => custom.to_owned(),
        None => match resolution {
            Some((w, h)) => {
                let mut out = "scale=".to_owned();
                out.append(dec_i64(w as i64).as_str());
                out.append(":");
                out.append(dec_i64(h as i64).as_str());
                out
            },
            None => "null".to_owned(),
        },
    }
}

/// The frames that enter a video filter graph.
#[derive(Clone, Copy, Debug, PartialEq, Eq, Structural)]
pub struct VideoSource {
    pub width: i32,
    pub height: i32,
    /// The number of the pixel format.
    pub pix_fmt: i32,
    pub time_base: Rational,
    pub sample_aspect_ratio: Rational,
}

pub open spec fn at_least_one(n: i32) -> int {
    if n < 1 {
        1
    } else {
        n as int
    }
}

pub open spec fn video_source_text(src: VideoSource) -> Seq<char> {
    "video_size="@ + dec(src.width as int) + "x"@ + dec(src.height as int) + ":pix_fmt="@ + dec(
        src.pix_fmt as int,
    ) + ":time_base="@ + dec(src.time_base.num as int) + "/"@ + dec(src.time_base.den as int)
        + ":pixel_aspect="@ + dec(at_least_one(src.sample_aspect_ratio.num)) + "/"@ + dec(
        at_least_one(src.sample_aspect_ratio.den),
    )
}

fn one_or_more(n: i32) -> (r: i32)
    ensures
        r as int == at_least_one(n),
{
    if n < 1 {
        1
    } else {
        n
    }
}

/// The arguments of a video buffer source; an aspect ratio that is not set counts as 1/1.
pub fn video_source_args(src: &VideoSource) -> (r: String)
    ensures
        r@ == video_source_text(*src),
{
    let mut out = "video_size=".to_owned();
    out.append(dec_i64(src.width as i64).as_str());
    out.append("x");
    out.append(dec_i64(src.height as i64).as_str());
    out.append(":pix_fmt=");
    out.append(dec_i64(src.pix_fmt as i64).as_str());
    out.append(":time_base=");
    out.append(dec_i64(src.time_base.num as i64).as_str());
    out.append("/");
    out.append(dec_i64(src.time_base.den as i64).as_str());
    out.append(":pixel_aspect=");
    out.append(dec_i64(one_or_more(src.sample_aspect_ratio.num) as i64).as_str());
    out.append("/");
    out.append(dec_i64(one_or_more(src.sample_aspect_ratio.den) as i64).as_str());
    out
}

pub open spec fn audio_source_text(
    time_base: Rational,
    sample_rate: i32,
    sample_fmt: Seq<char>,
    channel_layout: Seq<char>,
) -> Seq<char> {
    "time_base="@ + dec(time_base.num as int) + "/"@ + dec(time_base.den as int) + ":sample_rate="@
        + dec(sample_rate as int) + ":sample_fmt="@ + sample_fmt + ":channel_layout="@
        + channel_layout
}

/// The arguments of an audio buffer source.
pub fn audio_source_args(
    time_base: Rational,
    sample_rate: i32,
    sample_fmt: &str,
    channel_layout: &str,
) -> (r: String)
    ensures
        r@ == audio_source_text(time_base, sample_rate, sample_fmt@, channel_layout@),
{
    let mut out = "time_base=".to_owned();
    out.append(dec_i64(time_base.num as i64).as_str());
    out.append("/");
    out.append(dec_i64(time_base.den as i64).as_str());
    out.append(":sample_rate=");
    out.append(dec_i64(sample_rate as i64).as_str());
    out.append(":sample_fmt=");
    out.append(sample_fmt);
    out.append(":channel_layout=");
    out.append(channel_layout);
    out
}

pub open spec fn audio_format_text(
    sample_fmt: Seq<char>,
    channel_layout: Seq<char>,
    sample_rate: i32,
) -> Seq<char> {
    "aformat=sample_fmts="@ + sample_fmt + ":channel_layouts="@ + channel_layout + ":sample_rates="@
        + dec(sample_rate as int)
}

/// The chain that converts audio to a sample format, channel layout and rate.
pub fn audio_format_spec(sample_fmt: &str, channel_layout: &str, sample_rate: i32) -> (r: String)
    ensures
        r@ == audio_format_text(sample_fmt@, channel_layout@, sample_rate),
{
    let mut out = "aformat=sample_fmts=".to_owned();
    out.append(sample_fmt);
    out.append(":channel_layouts=");
    out.append(channel_layout);
    out.append(":sample_rates=");
    out.append(dec_i64(sample_rate as i64).as_str());
    out
}

/// The chain that converts audio for an encoder: the conversion, then frames of 1024 samples,
/// the last one padded.
pub fn audio_filter_spec(sample_fmt: &str, channel_layout: &str, sample_rate: i32) -> (r: String)
    ensures
        r@ == audio_format_text(sample_fmt@, channel_layout@, sample_rate)
            + ",asetnsamples=n=1024:p=1"@,
{
    let mut out = audio_format_spec(sample_fmt, channel_layout, sample_rate);
    out.append(",asetnsamples=n=1024:p=1");
    out
}

/// One filter of a parsed graph.
#[derive(Clone, Copy, Debug, PartialEq, Eq, Structural)]
pub struct FilterNode {
    /// The filter works on a hardware device.
    pub uses_device: bool,
    /// It already has one.
    pub has_device: bool,
}

/// Whose device context a filter is given.
#[derive(Clone, Copy, Debug, PartialEq, Eq, Structural)]
pub enum DeviceRole {
    Filter,
    Decode,
}

/// The device that one filter is given: the filter device where there is one, else the decode
/// device, and nothing where the filter uses none or has one already.
pub open spec fn device_for(node: FilterNode, has_filter_device: bool) -> Option<DeviceRole> {
    if !node.uses_device || node.has_device {
        None
    } else if has_filter_device {
        Some(DeviceRole::Filter)
    } else {
        Some(DeviceRole::Decode)
    }
}

/// The devices that the filters of a graph are given, one entry per filter.
pub fn assign_devices(nodes: &Vec<FilterNode>, has_filter_device: bool) -> (r: Vec<
    Option<DeviceRole>,
>)
    ensures
        r@ == nodes@.map_values(|n: FilterNode| device_for(n, has_filter_device)),
{
    let mut out: Vec<Option<DeviceRole>> = Vec::new();
    let mut i: usize = 0;
    while i < nodes.len()
        invariant
            i <= nodes@.len(),
            out@ == nodes@.map_values(|n: FilterNode| device_for(n, has_filter_device)).take(
                i as int,
            ),
        decreases nodes@.len() - i,
    {
        let node = nodes[i];
        let role = if !node.uses_device || node.has_device {
            None
        } else if has_filter_device {
            Some(DeviceRole::Filter)
        } else {
            Some(DeviceRole::Decode)
        };
        out.push(role);
        i = i + 1;
        proof {
            assert(out@ =~= nodes@.map_values(
                |n: FilterNode| device_for(n, has_filter_device),
            ).take(i as int));
        }
    }
    proof {
        assert(out@ =~= nodes@.map_values(|n: FilterNode| device_for(n, has_filter_device)));
    }
    out
}

/// A chain in which no piece is a bare `format=` filter is left unchanged.
pub proof fn law_rewrite_keeps_other_chains(chain: Seq<char>, hw_scale: Seq<char>)
    requires
        forall|i: int|
            0 <= i < split_text(chain, ',').len() ==> !starts_with_text(
                trim_text(#[trigger] split_text(chain, ',')[i]),
                "format="@,
            ),
    ensures
        rewritten_chain(chain, hw_scale) == chain,
{
    assert(rewritten_segments(chain, hw_scale) =~= split_text(chain, ','));
    reveal_strlit(",");
    assert(","@ =~= seq![',']);
    lemma_join_split(chain, ',');
}

proof fn lemma_trim_start_within(s: Seq<char>, sep: char)
    requires
        !s.contains(sep),
    ensures
        !trim_start_text(s).contains(sep),
    decreases s.len(),
{
    if s.len() > 0 && is_space(s[0]) {
        assert forall|i: int| 0 <= i < s.drop_first().len() implies s.drop_first()[i] != sep by {
            assert(s[i + 1] != sep);
        }
        lemma_trim_start_within(s.drop_first(), sep);
    }
}

proof fn lemma_trim_end_within(s: Seq<char>, sep: char)
    requires
        !s.contains(sep),
    ensures
        !trim_end_text(s).contains(sep),
    decreases s.len(),
{
    if s.len() > 0 && is_space(s.last()) {
        assert forall|i: int| 0 <= i < s.drop_last().len() implies s.drop_last()[i] != sep by {
            assert(s[i] != sep);
        }
        lemma_trim_end_within(s.drop_last(), sep);
    }
}

/// Rewriting works piece by piece: where the chain downloads no frames and the scaler's name
/// holds no comma, the rewritten chain has as many pieces as the chain, each the rewriting of
/// the piece at its place.
pub proof fn law_rewrite_works_piece_by_piece(chain: Seq<char>, hw_scale: Seq<char>)
    requires
        !contains_text(chain, "hwdownload"@),
        !hw_scale.contains(','),
    ensures
        split_text(rewritten_chain(chain, hw_scale), ',') == rewritten_segments(chain, hw_scale),
{
    let parts = split_text(chain, ',');
    let out = rewritten_segments(chain, hw_scale);
    reveal_strlit(",");
    reveal_strlit("=");
    assert(","@ =~= seq![',']);
    lemma_split_nonempty(chain, ',');
    assert forall|i: int| 0 <= i < out.len() implies !(#[trigger] out[i]).contains(',') by {
        lemma_split_pieces(chain, ',', i);
        lemma_trim_start_within(parts[i], ',');
        lemma_trim_end_within(trim_start_text(parts[i]), ',');
        let head = hw_scale + "="@;
        assert forall|k: int| 0 <= k < head.len() implies head[k] != ',' by {
            if k < hw_scale.len() {
                assert(hw_scale[k] != ',');
            }
        }
        let t = trim_text(parts[i]);
        assert forall|k: int| 0 <= k < (head + t).len() implies (head + t)[k] != ',' by {
            if k >= head.len() {
                assert(t[k - head.len()] != ',');
            }
        }
    }
    lemma_split_join(out, ',');
}

/// A custom filter takes priority: the chain does not depend on the target format, the resolution
/// or whether a conversion is needed.
pub proof fn law_custom_filter_takes_priority(a: HwFilterParams, b: HwFilterParams)
    requires
        a.custom_filter is Some,
        b.custom_filter is Some,
        a.custom_filter->0@ == b.custom_filter->0@,
        a.filter_backend == b.filter_backend,
        a.decode_hw == b.decode_hw,
    ensures
        filter_spec(a) == filter_spec(b),
{
}

/// A custom filter is used: as it is in software, as it is on the decode device where it downloads
/// its frames or has no bare `format=` filter, and between the two mappings on a bridge device.
pub proof fn law_custom_filter_is_used(params: HwFilterParams, custom: &str)
    requires
        params.custom_filter == Some(custom),
    ensures
        params.filter_backend == FilterBackend::Software ==> filter_spec(params) == custom@,
        params.filter_backend == FilterBackend::Native && contains_text(custom@, "hwdownload"@)
            ==> filter_spec(params) == custom@,
        params.filter_backend == FilterBackend::Native && (forall|i: int|
            0 <= i < split_text(custom@, ',').len() ==> !starts_with_text(
                trim_text(#[trigger] split_text(custom@, ',')[i]),
                "format="@,
            )) ==> filter_spec(params) == custom@,
        params.filter_backend == FilterBackend::OpenCL ==> contains_text(
            filter_spec(params),
            "hwmap=derive_device="@ + "opencl"@ + ","@ + custom@ + ",hwmap=derive_device="@,
        ),
        params.filter_backend == FilterBackend::Vulkan ==> contains_text(
            filter_spec(params),
            "hwmap=derive_device="@ + "vulkan"@ + ","@ + custom@ + ",hwmap=derive_device="@,
        ),
{
    if params.filter_backend == FilterBackend::Native && (forall|i: int|
        0 <= i < split_text(custom@, ',').len() ==> !starts_with_text(
            trim_text(#[trigger] split_text(custom@, ',')[i]),
            "format="@,
        )) {
        law_rewrite_keeps_other_chains(
            custom@,
            params.filter_backend.spec_scale_filter(Some(params.decode_hw)),
        );
    }
    lemma_bridge_holds("opencl"@, custom@, params.decode_hw);
    lemma_bridge_holds("vulkan"@, custom@, params.decode_hw);
}

proof fn lemma_bridge_holds(bridge: Seq<char>, inner: Seq<char>, decode_hw: HwType)
    ensures
        contains_text(
            bridged(bridge, inner, decode_hw),
            "hwmap=derive_device="@ + bridge + ","@ + inner + ",hwmap=derive_device="@,
        ),
        contains_text(bridged(bridge, inner, decode_hw), inner),
        contains_text(
            bridged(bridge, inner, decode_hw),
            ",hwmap=derive_device="@ + hwdevice_text(decode_hw) + ",format="@,
        ),
{
    let chain = bridged(bridge, inner, decode_hw);
    let head = "hwmap=derive_device="@ + bridge + ","@ + inner + ",hwmap=derive_device="@;
    let tail = hwdevice_text(decode_hw) + ",format="@ + format_text(decode_hw.spec_pix_fmt());
    law_text_contains_its_parts(Seq::empty(), head, tail);
    assert(chain =~= Seq::<char>::empty() + head + tail);
    let before = "hwmap=derive_device="@ + bridge + ","@;
    let after = ",hwmap=derive_device="@ + tail;
    law_text_contains_its_parts(before, inner, after);
    assert(chain =~= before + inner + after);
    let back = ",hwmap=derive_device="@ + hwdevice_text(decode_hw) + ",format="@;
    law_text_contains_its_parts(before + inner, back, format_text(decode_hw.spec_pix_fmt()));
    assert(chain =~= (before + inner) + back + format_text(decode_hw.spec_pix_fmt()));
}

/// Frames that are mapped to a bridge device come back to the device that decoded them, whatever
/// is filtered in between.
pub proof fn law_bridged_frames_come_back(params: HwFilterParams)
    requires
        params.filter_backend == FilterBackend::OpenCL || params.filter_backend
            == FilterBackend::Vulkan,
        params.custom_filter is Some || params.need_format_convert,
    ensures
        contains_text(
            filter_spec(params),
            ",hwmap=derive_device="@ + hwdevice_text(params.decode_hw) + ",format="@,
        ),
{
    let fmt = format_text(params.target_sw_fmt);
    match params.custom_filter {
        Some(custom) => {
            lemma_bridge_holds("opencl"@, custom@, params.decode_hw);
            lemma_bridge_holds("vulkan"@, custom@, params.decode_hw);
        },
        None => {
            lemma_bridge_holds(
                "opencl"@,
                converting("scale_opencl"@, ""@, ""@, params.resolution, fmt),
                params.decode_hw,
            );
            lemma_bridge_holds(
                "vulkan"@,
                converting("libplacebo"@, "w="@, "h="@, params.resolution, fmt),
                params.decode_hw,
            );
        },
    }
}

proof fn lemma_add_is_associative(a: Seq<char>, b: Seq<char>, c: Seq<char>)
    ensures
        (a + b) + c == a + (b + c),
{
    assert((a + b) + c =~= a + (b + c));
}

proof fn lemma_converting_holds(
    filter: Seq<char>,
    w_mark: Seq<char>,
    h_mark: Seq<char>,
    resolution: Option<(i32, i32)>,
    fmt: Seq<char>,
)
    ensures
        resolution matches Some((w, h)) ==> contains_text(
            converting(filter, w_mark, h_mark, resolution, fmt),
            filter + "="@ + w_mark + dec(w as int) + ":"@ + h_mark + dec(h as int),
        ),
        contains_text(converting(filter, w_mark, h_mark, resolution, fmt), "format="@ + fmt),
{
    match resolution {
        Some((w, h)) => {
            let size = filter + "="@ + w_mark + dec(w as int) + ":"@ + h_mark + dec(h as int);
            lemma_format_mark();
            lemma_add_is_associative(size, ":format="@, fmt);
            lemma_contains_head(size, ":format="@ + fmt);
            lemma_add_is_associative(":"@, "format="@, fmt);
            lemma_add_is_associative(size, ":"@, "format="@ + fmt);
            lemma_contains_tail(size + ":"@, "format="@ + fmt);
        },
        None => {
            lemma_add_is_associative(filter + "="@, "format="@, fmt);
            lemma_contains_tail(filter + "="@, "format="@ + fmt);
        },
    }
}

proof fn lemma_format_mark()
    ensures
        ":format="@ == ":"@ + "format="@,
{
    reveal_strlit(":format=");
    reveal_strlit("format=");
    reveal_strlit(":");
    assert(":format="@ =~= ":"@ + "format="@);
}

proof fn lemma_software_marks()
    ensures
        ",scale="@ == ","@ + "scale="@,
        "hwdownload,format="@ == "hwdownload,"@ + "format="@,
{
    reveal_strlit(",scale=");
    reveal_strlit("scale=");
    reveal_strlit(",");
    assert(",scale="@ =~= ","@ + "scale="@);
    reveal_strlit("hwdownload,format=");
    reveal_strlit("hwdownload,");
    reveal_strlit("format=");
    assert("hwdownload,format="@ =~= "hwdownload,"@ + "format="@);
}

proof fn lemma_software_holds(fmt: Seq<char>, w: Seq<char>, h: Seq<char>)
    ensures
        contains_text("hwdownload,format="@ + fmt + ",scale="@ + w + ":"@ + h, "scale="@ + w + ":"@ + h),
        contains_text("hwdownload,format="@ + fmt + ",scale="@ + w + ":"@ + h, "format="@ + fmt),
        contains_text("hwdownload,format="@ + fmt, "format="@ + fmt),
{
    lemma_software_marks();
    let head = "hwdownload,format="@ + fmt;
    lemma_add_is_associative("hwdownload,"@, "format="@, fmt);
    lemma_contains_tail("hwdownload,"@, "format="@ + fmt);
    lemma_add_is_associative(head, ","@, "scale="@);
    lemma_add_is_associative(head + ","@, "scale="@, w);
    lemma_add_is_associative(head + ","@, "scale="@ + w, ":"@);
    lemma_add_is_associative(head + ","@, "scale="@ + w + ":"@, h);
    lemma_contains_tail(head + ","@, "scale="@ + w + ":"@ + h);
    let scale = "scale="@ + w + ":"@ + h;
    lemma_add_is_associative(head, ","@, scale);
    lemma_contains_head(head, ","@ + scale);
    lemma_contains_through(head + (","@ + scale), head, "format="@ + fmt);
}

/// Without a custom filter, a chain that converts scales to the asked size: the scaler of the
/// backend gets the width and the height, in this order.
pub proof fn law_chain_scales_to_the_asked_size(params: HwFilterParams, w: i32, h: i32)
    requires
        params.custom_filter is None,
        params.need_format_convert,
        params.resolution == Some((w, h)),
    ensures
        params.filter_backend == FilterBackend::Native ==> contains_text(
            filter_spec(params),
            params.filter_backend.spec_scale_filter(Some(params.decode_hw)) + "="@ + "w="@ + dec(
                w as int,
            ) + ":"@ + "h="@ + dec(h as int),
        ),
        params.filter_backend == FilterBackend::OpenCL ==> contains_text(
            filter_spec(params),
            "scale_opencl"@ + "="@ + ""@ + dec(w as int) + ":"@ + ""@ + dec(h as int),
        ),
        params.filter_backend == FilterBackend::Vulkan ==> contains_text(
            filter_spec(params),
            "libplacebo"@ + "="@ + "w="@ + dec(w as int) + ":"@ + "h="@ + dec(h as int),
        ),
        params.filter_backend == FilterBackend::Software ==> contains_text(
            filter_spec(params),
            "scale="@ + dec(w as int) + ":"@ + dec(h as int),
        ),
{
    let fmt = format_text(params.target_sw_fmt);
    let size = Some((w, h));
    let hw = params.decode_hw;
    match params.filter_backend {
        FilterBackend::Native => {
            lemma_converting_holds(
                params.filter_backend.spec_scale_filter(Some(hw)),
                "w="@,
                "h="@,
                size,
                fmt,
            );
        },
        FilterBackend::OpenCL => {
            let inner = converting("scale_opencl"@, ""@, ""@, size, fmt);
            lemma_converting_holds("scale_opencl"@, ""@, ""@, size, fmt);
            lemma_bridge_holds("opencl"@, inner, hw);
            lemma_contains_through(
                filter_spec(params),
                inner,
                "scale_opencl"@ + "="@ + ""@ + dec(w as int) + ":"@ + ""@ + dec(h as int),
            );
        },
        FilterBackend::Vulkan => {
            let inner = converting("libplacebo"@, "w="@, "h="@, size, fmt);
            lemma_converting_holds("libplacebo"@, "w="@, "h="@, size, fmt);
            lemma_bridge_holds("vulkan"@, inner, hw);
            lemma_contains_through(
                filter_spec(params),
                inner,
                "libplacebo"@ + "="@ + "w="@ + dec(w as int) + ":"@ + "h="@ + dec(h as int),
            );
        },
        FilterBackend::Software => {
            lemma_software_holds(fmt, dec(w as int), dec(h as int));
        },
    }
}

/// Without a custom filter, a chain that converts names the target format, and a chain that does
/// not convert passes frames on as they are.
pub proof fn law_chain_converts_to_the_target(params: HwFilterParams)
    requires
        params.custom_filter is None,
    ensures
        params.need_format_convert ==> contains_text(
            filter_spec(params),
            "format="@ + format_text(params.target_sw_fmt),
        ),
        !params.need_format_convert ==> filter_spec(params) == "null"@,
{
    let fmt = format_text(params.target_sw_fmt);
    let hw = params.decode_hw;
    let size = params.resolution;
    if params.need_format_convert {
        match params.filter_backend {
            FilterBackend::Native => {
                lemma_converting_holds(
                    params.filter_backend.spec_scale_filter(Some(hw)),
                    "w="@,
                    "h="@,
                    size,
                    fmt,
                );
            },
            FilterBackend::OpenCL => {
                let inner = converting("scale_opencl"@, ""@, ""@, size, fmt);
                lemma_converting_holds("scale_opencl"@, ""@, ""@, size, fmt);
                lemma_bridge_holds("opencl"@, inner, hw);
                lemma_contains_through(filter_spec(params), inner, "format="@ + fmt);
            },
            FilterBackend::Vulkan => {
                let inner = converting("libplacebo"@, "w="@, "h="@, size, fmt);
                lemma_converting_holds("libplacebo"@, "w="@, "h="@, size, fmt);
                lemma_bridge_holds("vulkan"@, inner, hw);
                lemma_contains_through(filter_spec(params), inner, "format="@ + fmt);
            },
            FilterBackend::Software => {
                match size {
                    Some((w, h)) => lemma_software_holds(fmt, dec(w as int), dec(h as int)),
                    None => lemma_software_holds(fmt, dec(0), dec(0)),
                }
            },
        }
    }
}

/// In a custom chain on the decode device, exactly the bare `format=` filters are handed to the
/// device's scaler, and every other filter stays at its place.
pub proof fn law_bare_formats_move_to_the_scaler(chain: Seq<char>, hw_scale: Seq<char>, i: int)
    requires
        !contains_text(chain, "hwdownload"@),
        !hw_scale.contains(','),
        0 <= i < split_text(chain, ',').len(),
    ensures
        ({
            let out = split_text(rewritten_chain(chain, hw_scale), ',');
            let piece = split_text(chain, ',')[i];
            &&& out.len() == split_text(chain, ',').len()
            &&& starts_with_text(trim_text(piece), "format="@) ==> out[i] == hw_scale + "="@
                + trim_text(piece)
            &&& !starts_with_text(trim_text(piece), "format="@) ==> out[i] == piece
        }),
{
    law_rewrite_works_piece_by_piece(chain, hw_scale);
}

/// A software graph uses a custom filter as it is; without one it scales to the asked size, and
/// passes frames on where no size is asked for.
pub proof fn law_software_chain_does_what_is_asked(custom: &str, w: i32, h: i32)
    ensures
        sw_filter_spec_text(Some(custom), None) == custom@,
        sw_filter_spec_text(Some(custom), Some((w, h))) == custom@,
        contains_text(
            sw_filter_spec_text(None, Some((w, h))),
            "scale="@ + dec(w as int) + ":"@ + dec(h as int),
        ),
        sw_filter_spec_text(None, None) == "null"@,
{
    let scale = "scale="@ + dec(w as int) + ":"@ + dec(h as int);
    law_text_contains_its_parts(Seq::empty(), scale, Seq::empty());
    assert(scale =~= Seq::<char>::empty() + scale + Seq::<char>::empty());
}

/// The arguments of a video source name its size, its pixel format, its time base and its aspect
/// ratio, whose sides are at least 1.
pub proof fn law_source_arguments_name_the_source(src: VideoSource)
    ensures
        ({
            let t = video_source_text(src);
            &&& contains_text(t, "video_size="@ + dec(src.width as int) + "x"@ + dec(src.height as int))
            &&& contains_text(t, ":pix_fmt="@ + dec(src.pix_fmt as int))
            &&& contains_text(
                t,
                ":time_base="@ + dec(src.time_base.num as int) + "/"@ + dec(src.time_base.den as int),
            )
            &&& src.sample_aspect_ratio.num >= 1 && src.sample_aspect_ratio.den >= 1
                ==> contains_text(
                t,
                ":pixel_aspect="@ + dec(src.sample_aspect_ratio.num as int) + "/"@ + dec(
                    src.sample_aspect_ratio.den as int,
                ),
            )
            &&& src.sample_aspect_ratio.num < 1 && src.sample_aspect_ratio.den < 1 ==> contains_text(
                t,
                ":pixel_aspect="@ + dec(1) + "/"@ + dec(1),
            )
        }),
{
    let t = video_source_text(src);
    let size = "video_size="@ + dec(src.width as int) + "x"@ + dec(src.height as int);
    let fmt = ":pix_fmt="@ + dec(src.pix_fmt as int);
    let tb = ":time_base="@ + dec(src.time_base.num as int) + "/"@ + dec(src.time_base.den as int);
    let sar = ":pixel_aspect="@ + dec(at_least_one(src.sample_aspect_ratio.num)) + "/"@ + dec(
        at_least_one(src.sample_aspect_ratio.den),
    );
    law_text_contains_its_parts(Seq::empty(), size, fmt + tb + sar);
    assert(t =~= Seq::<char>::empty() + size + (fmt + tb + sar));
    law_text_contains_its_parts(size, fmt, tb + sar);
    assert(t =~= size + fmt + (tb + sar));
    law_text_contains_its_parts(size + fmt, tb, sar);
    assert(t =~= (size + fmt) + tb + sar);
    law_text_contains_its_parts(size + fmt + tb, sar, Seq::empty());
    assert(t =~= (size + fmt + tb) + sar + Seq::<char>::empty());
}

/// The texts of an audio graph name the time base, the rate, the sample format and the channel
/// layout that they are made for.
pub proof fn law_audio_texts_name_the_audio(
    tb: Rational,
    rate: i32,
    fmt: Seq<char>,
    layout: Seq<char>,
)
    ensures
        ({
            let t = audio_source_text(tb, rate, fmt, layout);
            &&& contains_text(t, "time_base="@ + dec(tb.num as int) + "/"@ + dec(tb.den as int))
            &&& contains_text(t, ":sample_rate="@ + dec(rate as int))
            &&& contains_text(t, ":sample_fmt="@ + fmt)
            &&& contains_text(t, ":channel_layout="@ + layout)
        }),
        ({
            let t = audio_format_text(fmt, layout, rate);
            &&& contains_text(t, "aformat=sample_fmts="@ + fmt)
            &&& contains_text(t, ":channel_layouts="@ + layout)
            &&& contains_text(t, ":sample_rates="@ + dec(rate as int))
        }),
{
    let e = Seq::<char>::empty();
    let t = audio_source_text(tb, rate, fmt, layout);
    let a = "time_base="@ + dec(tb.num as int) + "/"@ + dec(tb.den as int);
    let b = ":sample_rate="@ + dec(rate as int);
    let c = ":sample_fmt="@ + fmt;
    let d = ":channel_layout="@ + layout;
    law_text_contains_its_parts(e, a, b + c + d);
    assert(t =~= e + a + (b + c + d));
    law_text_contains_its_parts(a, b, c + d);
    assert(t =~= a + b + (c + d));
    law_text_contains_its_parts(a + b, c, d);
    assert(t =~= (a + b) + c + d);
    law_text_contains_its_parts(a + b + c, d, e);
    assert(t =~= (a + b + c) + d + e);
    let u = audio_format_text(fmt, layout, rate);
    let f = "aformat=sample_fmts="@ + fmt;
    let g = ":channel_layouts="@ + layout;
    let h = ":sample_rates="@ + dec(rate as int);
    law_text_contains_its_parts(e, f, g + h);
    assert(u =~= e + f + (g + h));
    law_text_contains_its_parts(f, g, h);
    assert(u =~= f + g + h);
    law_text_contains_its_parts(f + g, h, e);
    assert(u =~= (f + g) + h + e);
}

/// A filter gets a device exactly if it uses one and has none; a filter device goes before the
/// decode device.
pub proof fn law_filters_get_the_device_they_need(node: FilterNode)
    ensures
        device_for(node, true) is Some <==> node.uses_device && !node.has_device,
        device_for(node, false) is Some <==> node.uses_device && !node.has_device,
        device_for(node, true) is Some ==> device_for(node, true) == Some(DeviceRole::Filter),
        device_for(node, false) is Some ==> device_for(node, false) == Some(DeviceRole::Decode),
{
}

/// Frames are mapped back to a device under the name of its device type.
pub proof fn law_devices_are_named(hw: HwType)
    ensures
        hw == HwType::Cuda <==> hwdevice_text(hw) == "cuda"@,
        hw == HwType::Vaapi <==> hwdevice_text(hw) == "vaapi"@,
        hw == HwType::Qsv <==> hwdevice_text(hw) == "qsv"@,
        hw == HwType::Amf <==> hwdevice_text(hw) == "d3d11va"@,
        hw == HwType::Videotoolbox <==> hwdevice_text(hw) == "videotoolbox"@,
        hw == HwType::Rkmpp || hw == HwType::V4l2m2m <==> hwdevice_text(hw) == "drm"@,
{
    reveal_strlit("cuda");
    reveal_strlit("vaapi");
    reveal_strlit("qsv");
    reveal_strlit("d3d11va");
    reveal_strlit("videotoolbox");
    reveal_strlit("drm");
    assert("cuda"@.len() == 4 && "vaapi"@.len() == 5 && "qsv"@.len() == 3 && "d3d11va"@.len() == 7
        && "videotoolbox"@.len() == 12 && "drm"@.len() == 3);
    assert("qsv"@[0] == 'q' && "drm"@[0] == 'd');
}

/// The audio of a pass is brought to the format of the encoder and then cut into frames of 1024
/// samples.
pub proof fn law_audio_frames_are_cut(
    sample_fmt: &str,
    channel_layout: &str,
    sample_rate: i32,
    r: String,
)
    requires
        call_ensures(audio_filter_spec, (sample_fmt, channel_layout, sample_rate), r),
    ensures
        r@ == audio_format_text(sample_fmt@, channel_layout@, sample_rate)
            + ",asetnsamples=n=1024:p=1"@,
{
}

} // verus!
