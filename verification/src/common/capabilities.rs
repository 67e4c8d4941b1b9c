//! Capabilities: which encoders, decoders, filters and accelerators there are, and what follows.

use crate::collections::NameSet;
use crate::media::names::opt_text;
use crate::model::MediaType;
use crate::text::{dec, dec_u64, one_of, same, texts};
use crate::transcode::hw::same_name;
use vstd::prelude::*;

verus! {

/// The hardware acceleration that is available.
#[derive(Clone, Debug)]
pub struct HwCapabilities {
    pub hwaccels: NameSet,
    pub encoders: NameSet,
    pub decoders: NameSet,
    pub filters: NameSet,
    /// `h264_nvenc` encoder available.
    pub has_nvenc: bool,
    /// `hevc_cuvid` decoder available.
    pub has_cuvid: bool,
    /// cuda hwaccel and the CUDA scale, deinterlace, tonemap, overlay and upload filters.
    pub has_cuda_full: bool,
    pub has_bwdif_cuda: bool,
    pub has_bwdif: bool,
    /// `hevc_nvenc` encoder available.
    pub has_nvenc_hevc: bool,
    /// vaapi hwaccel available and `h264_vaapi` encoder compiled in.
    pub has_vaapi: bool,
    /// Full VAAPI: also `scale_vaapi`, `deinterlace_vaapi`, `tonemap_vaapi`, `transpose_vaapi` and
    /// `hwupload_vaapi`.
    pub has_vaapi_full: bool,
    /// `hevc_vaapi` encoder available (requires `has_vaapi`).
    pub has_vaapi_hevc: bool,
    /// qsv hwaccel and `h264_qsv` encoder.
    pub has_qsv: bool,
    /// Full QSV: also `scale_qsv` and `vpp_qsv`.
    pub has_qsv_full: bool,
    /// `hevc_qsv` encoder available (requires `has_qsv`).
    pub has_qsv_hevc: bool,
    /// videotoolbox hwaccel and `h264_videotoolbox` encoder.
    pub has_videotoolbox: bool,
    /// Full VideoToolbox: also `yadif_videotoolbox`, `overlay_videotoolbox` and `scale_vt`.
    pub has_videotoolbox_full: bool,
    /// VideoToolbox with the `tonemap_videotoolbox` filter.
    pub has_videotoolbox_tonemap: bool,
    /// `hevc_videotoolbox` encoder available (requires `has_videotoolbox`).
    pub has_videotoolbox_hevc: bool,
    /// `h264_amf` encoder available.
    pub has_amf: bool,
    /// `hevc_amf` encoder available.
    pub has_amf_hevc: bool,
    /// rkmpp hwaccel and `h264_rkmpp` encoder.
    pub has_rkmpp: bool,
    /// `hevc_rkmpp` encoder available (requires `has_rkmpp`).
    pub has_rkmpp_hevc: bool,
    pub has_tonemap: bool,
    pub has_tonemapx: bool,
    pub has_zscale: bool,
    pub has_tonemap_opencl: bool,
    /// libx265 software HEVC encoder available.
    pub has_libx265: bool,
    /// Normalized names of the codecs that CUDA was found to decode on this machine. Empty until
    /// they have been probed.
    pub cuvid_hw_codecs: NameSet,
}

/// What a codec is for.
#[derive(Clone, Copy, Debug, PartialEq, Eq, Structural)]
pub enum CodecType {
    Video,
    Audio,
    Subtitle,
    Data,
    Unknown,
}

/// A codec of the registry.
#[derive(Clone, Debug)]
pub struct CodecInfo {
    pub name: String,
    pub long_name: String,
    pub codec_type: CodecType,
    pub is_encoder: bool,
    pub is_decoder: bool,
}

/// A filter of the registry.
#[derive(Clone, Debug)]
pub struct FilterInfo {
    pub name: String,
    pub description: String,
}

/// A muxer or demuxer of the registry.
#[derive(Clone, Debug)]
pub struct FormatDesc {
    pub name: String,
    pub long_name: String,
}

/// The flags of `c` follow from its four name sets.
pub open spec fn flags_match(c: HwCapabilities) -> bool {
    let hw = c.hwaccels@;
    let enc = c.encoders@;
    let flt = c.filters@;
    &&& c.has_nvenc == enc.contains("h264_nvenc"@)
    &&& c.has_nvenc_hevc == enc.contains("hevc_nvenc"@)
    &&& c.has_cuvid == c.decoders@.contains("hevc_cuvid"@)
    &&& c.has_cuda_full == (hw.contains("cuda"@) && flt.contains("scale_cuda"@) && flt.contains(
        "yadif_cuda"@,
    ) && flt.contains("tonemap_cuda"@) && flt.contains("overlay_cuda"@) && flt.contains(
        "hwupload_cuda"@,
    ))
    &&& c.has_bwdif_cuda == flt.contains("bwdif_cuda"@)
    &&& c.has_bwdif == flt.contains("bwdif"@)
    &&& c.has_vaapi == (hw.contains("vaapi"@) && enc.contains("h264_vaapi"@))
    &&& c.has_vaapi_full == (c.has_vaapi && flt.contains("scale_vaapi"@) && flt.contains(
        "deinterlace_vaapi"@,
    ) && flt.contains("tonemap_vaapi"@) && flt.contains("transpose_vaapi"@) && flt.contains(
        "hwupload_vaapi"@,
    ))
    &&& c.has_vaapi_hevc == (c.has_vaapi && enc.contains("hevc_vaapi"@))
    &&& c.has_qsv == (hw.contains("qsv"@) && enc.contains("h264_qsv"@))
    &&& c.has_qsv_full == (c.has_qsv && flt.contains("scale_qsv"@) && flt.contains("vpp_qsv"@))
    &&& c.has_qsv_hevc == (c.has_qsv && enc.contains("hevc_qsv"@))
    &&& c.has_videotoolbox == (hw.contains("videotoolbox"@) && enc.contains("h264_videotoolbox"@))
    &&& c.has_videotoolbox_full == (c.has_videotoolbox && flt.contains("yadif_videotoolbox"@)
        && flt.contains("overlay_videotoolbox"@) && flt.contains("scale_vt"@))
    &&& c.has_videotoolbox_tonemap == (c.has_videotoolbox && flt.contains("tonemap_videotoolbox"@))
    &&& c.has_videotoolbox_hevc == (c.has_videotoolbox && enc.contains("hevc_videotoolbox"@))
    &&& c.has_amf == enc.contains("h264_amf"@)
    &&& c.has_amf_hevc == enc.contains("hevc_amf"@)
    &&& c.has_rkmpp == (hw.contains("rkmpp"@) && enc.contains("h264_rkmpp"@))
    &&& c.has_rkmpp_hevc == (c.has_rkmpp && enc.contains("hevc_rkmpp"@))
    &&& c.has_tonemap == flt.contains("tonemap"@)
    &&& c.has_tonemapx == flt.contains("tonemapx"@)
    &&& c.has_zscale == flt.contains("zscale"@)
    &&& c.has_tonemap_opencl == flt.contains("tonemap_opencl"@)
    &&& c.has_libx265 == enc.contains("libx265"@)
}

/// The capabilities that follow from the names of the registries.
pub fn detect_capabilities(
    hwaccels: NameSet,
    encoders: NameSet,
    decoders: NameSet,
    filters: NameSet,
) -> (r: HwCapabilities)
    ensures
        r.hwaccels == hwaccels,
        r.encoders == encoders,
        r.decoders == decoders,
        r.filters == filters,
        flags_match(r),
        r.cuvid_hw_codecs.wf(),
        r.cuvid_hw_codecs@ == Set::<Seq<char>>::empty(),
{
    let has_nvenc = encoders.contains("h264_nvenc");
    let has_nvenc_hevc = encoders.contains("hevc_nvenc");
    let has_cuvid = decoders.contains("hevc_cuvid");
    let cuda = hwaccels.contains("cuda");
    let scale_cuda = filters.contains("scale_cuda");
    let yadif_cuda = filters.contains("yadif_cuda");
    let tonemap_cuda = filters.contains("tonemap_cuda");
    let overlay_cuda = filters.contains("overlay_cuda");
    let hwupload_cuda = filters.contains("hwupload_cuda");
    let has_cuda_full = cuda && scale_cuda && yadif_cuda && tonemap_cuda && overlay_cuda
        && hwupload_cuda;
    let has_bwdif_cuda = filters.contains("bwdif_cuda");
    let has_bwdif = filters.contains("bwdif");
    let vaapi = hwaccels.contains("vaapi");
    let h264_vaapi = encoders.contains("h264_vaapi");
    let has_vaapi = vaapi && h264_vaapi;
    let scale_vaapi = filters.contains("scale_vaapi");
    let deinterlace_vaapi = filters.contains("deinterlace_vaapi");
    let tonemap_vaapi = filters.contains("tonemap_vaapi");
    let transpose_vaapi = filters.contains("transpose_vaapi");
    let hwupload_vaapi = filters.contains("hwupload_vaapi");
    let has_vaapi_full = has_vaapi && scale_vaapi && deinterlace_vaapi && tonemap_vaapi
        && transpose_vaapi && hwupload_vaapi;
    let hevc_vaapi = encoders.contains("hevc_vaapi");
    let has_vaapi_hevc = has_vaapi && hevc_vaapi;
    let qsv = hwaccels.contains("qsv");
    let h264_qsv = encoders.contains("h264_qsv");
    let has_qsv = qsv && h264_qsv;
    let scale_qsv = filters.contains("scale_qsv");
    let vpp_qsv = filters.contains("vpp_qsv");
    let has_qsv_full = has_qsv && scale_qsv && vpp_qsv;
    let hevc_qsv = encoders.contains("hevc_qsv");
    let has_qsv_hevc = has_qsv && hevc_qsv;
    let videotoolbox = hwaccels.contains("videotoolbox");
    let h264_videotoolbox = encoders.contains("h264_videotoolbox");
    let has_videotoolbox = videotoolbox && h264_videotoolbox;
    let yadif_videotoolbox = filters.contains("yadif_videotoolbox");
    let overlay_videotoolbox = filters.contains("overlay_videotoolbox");
    let scale_vt = filters.contains("scale_vt");
    let has_videotoolbox_full = has_videotoolbox && yadif_videotoolbox && overlay_videotoolbox
        && scale_vt;
    let tonemap_videotoolbox = filters.contains("tonemap_videotoolbox");
    let has_videotoolbox_tonemap = has_videotoolbox && tonemap_videotoolbox;
    let hevc_videotoolbox = encoders.contains("hevc_videotoolbox");
    let has_videotoolbox_hevc = has_videotoolbox && hevc_videotoolbox;
    let has_amf = encoders.contains("h264_amf");
    let has_amf_hevc = encoders.contains("hevc_amf");
    let rkmpp = hwaccels.contains("rkmpp");
    let h264_rkmpp = encoders.contains("h264_rkmpp");
    let has_rkmpp = rkmpp && h264_rkmpp;
    let hevc_rkmpp = encoders.contains("hevc_rkmpp");
    let has_rkmpp_hevc = has_rkmpp && hevc_rkmpp;
    let has_tonemap = filters.contains("tonemap");
    let has_tonemapx = filters.contains("tonemapx");
    let has_zscale = filters.contains("zscale");
    let has_tonemap_opencl = filters.contains("tonemap_opencl");
    let has_libx265 = encoders.contains("libx265");
    HwCapabilities {
        hwaccels,
        encoders,
        decoders,
        filters,
        has_nvenc,
        has_cuvid,
        has_cuda_full,
        has_bwdif_cuda,
        has_bwdif,
        has_nvenc_hevc,
        has_vaapi,
        has_vaapi_full,
        has_vaapi_hevc,
        has_qsv,
        has_qsv_full,
        has_qsv_hevc,
        has_videotoolbox,
        has_videotoolbox_full,
        has_videotoolbox_tonemap,
        has_videotoolbox_hevc,
        has_amf,
        has_amf_hevc,
        has_rkmpp,
        has_rkmpp_hevc,
        has_tonemap,
        has_tonemapx,
        has_zscale,
        has_tonemap_opencl,
        has_libx265,
        cuvid_hw_codecs: NameSet::new(),
    }
}

/// A full backend is a backend: the full and the HEVC flags imply the basic flag of VAAPI, QSV,
/// VideoToolbox and RKMPP.
pub proof fn law_full_support_implies_support(c: HwCapabilities)
    requires
        flags_match(c),
    ensures
        c.has_vaapi_full || c.has_vaapi_hevc ==> c.has_vaapi,
        c.has_qsv_full || c.has_qsv_hevc ==> c.has_qsv,
        c.has_videotoolbox_full || c.has_videotoolbox_tonemap || c.has_videotoolbox_hevc
            ==> c.has_videotoolbox,
        c.has_rkmpp_hevc ==> c.has_rkmpp,
{
}

/// `major.minor.micro` of a packed version number.
pub open spec fn version_text(v: u32) -> Seq<char> {
    dec((v / 0x10000) as int % 256) + "."@ + dec((v / 0x100) as int % 256) + "."@ + dec(
        v as int % 256,
    )
}

/// The FFmpeg version string (`7.1`), given what FFmpeg reports as its release.
pub fn ffmpeg_version(release: &str) -> (r: String)
    ensures
        r@ == release@,
{
    release.to_owned()
}

/// A packed library version as `major.minor.micro`.
fn library_version(ver: u32) -> (r: String)
    ensures
        r@ == version_text(ver),
{
    let major: u32 = ver / 0x10000 % 256;
    let minor: u32 = ver / 0x100 % 256;
    let micro: u32 = ver % 256;
    let mut out = dec_u64(major as u64);
    out.append(".");
    out.append(dec_u64(minor as u64).as_str());
    out.append(".");
    out.append(dec_u64(micro as u64).as_str());
    out
}

/// The versions of the six libraries on one line.
pub fn ffmpeg_version_full(
    avutil: u32,
    avcodec: u32,
    avformat: u32,
    avfilter: u32,
    swscale: u32,
    swresample: u32,
) -> (r: String)
    ensures
        r@ == "libavutil "@ + version_text(avutil) + " / libavcodec "@ + version_text(avcodec)
            + " / libavformat "@ + version_text(avformat) + " / libavfilter "@ + version_text(
            avfilter,
        ) + " / libswscale "@ + version_text(swscale) + " / libswresample "@ + version_text(
            swresample,
        ),
{
    let mut out = "libavutil ".to_owned();
    out.append(library_version(avutil).as_str());
    out.append(" / libavcodec ");
    out.append(library_version(avcodec).as_str());
    out.append(" / libavformat ");
    out.append(library_version(avformat).as_str());
    out.append(" / libavfilter ");
    out.append(library_version(avfilter).as_str());
    out.append(" / libswscale ");
    out.append(library_version(swscale).as_str());
    out.append(" / libswresample ");
    out.append(library_version(swresample).as_str());
    out
}

/// `name` is one of the names that are there.
pub open spec fn is_listed(names: Seq<Option<String>>, name: Seq<char>) -> bool {
    exists|i: int| 0 <= i < names.len() && opt_text(#[trigger] names[i]) == Some(name)
}

/// The accelerators, from the names of the device types; a type without a name is passed over.
pub fn list_hwaccels(names: &Vec<Option<String>>) -> (r: NameSet)
    ensures
        r.wf(),
        forall|n: Seq<char>| #[trigger] r@.contains(n) <==> is_listed(names@, n),
{
    let mut set = NameSet::new();
    let mut i: usize = 0;
    while i < names.len()
        invariant
            i <= names@.len(),
            set.wf(),
            forall|n: Seq<char>| #[trigger] set@.contains(n) <==> is_listed(
                names@.take(i as int),
                n,
            ),
        decreases names@.len() - i,
    {
        let ghost before = set@;
        match &names[i] {
            Some(name) => {
                set.insert(name.as_str());
            },
            None => {},
        }
        proof {
            assert forall|n: Seq<char>| #[trigger] set@.contains(n) <==> is_listed(
                names@.take(i + 1),
                n,
            ) by {
                let old_names = names@.take(i as int);
                let new_names = names@.take(i + 1);
                assert(new_names[i as int] == names@[i as int]);
                assert(before.contains(n) <==> is_listed(old_names, n));
                if is_listed(old_names, n) {
                    let k = choose|k: int|
                        0 <= k < old_names.len() && opt_text(#[trigger] old_names[k]) == Some(n);
                    assert(new_names[k] == old_names[k]);
                }
                if is_listed(new_names, n) {
                    let k = choose|k: int|
                        0 <= k < new_names.len() && opt_text(#[trigger] new_names[k]) == Some(n);
                    if k < i {
                        assert(old_names[k] == new_names[k]);
                    }
                }
            }
        }
        i = i + 1;
    }
    proof {
        assert(names@.take(names@.len() as int) =~= names@);
    }
    set
}

/// Some codec of this name encodes (`encoders`) or decodes.
pub open spec fn some_codec(codecs: Seq<CodecInfo>, encoders: bool, name: Seq<char>) -> bool {
    exists|i: int|
        0 <= i < codecs.len() && (#[trigger] codecs[i]).name@ == name && (if encoders {
            codecs[i].is_encoder
        } else {
            codecs[i].is_decoder
        })
}

proof fn lemma_one_codec_more(codecs: Seq<CodecInfo>, i: int, encoders: bool, name: Seq<char>)
    requires
        0 <= i < codecs.len(),
    ensures
        some_codec(codecs.take(i + 1), encoders, name) <==> (some_codec(
            codecs.take(i),
            encoders,
            name,
        ) || (codecs[i].name@ == name && (if encoders {
            codecs[i].is_encoder
        } else {
            codecs[i].is_decoder
        }))),
{
    let a = codecs.take(i);
    let b = codecs.take(i + 1);
    assert(b[i] == codecs[i]);
    if some_codec(a, encoders, name) {
        let k = choose|k: int|
            0 <= k < a.len() && (#[trigger] a[k]).name@ == name && (if encoders {
                a[k].is_encoder
            } else {
                a[k].is_decoder
            });
        assert(b[k] == a[k]);
    }
    if some_codec(b, encoders, name) {
        let k = choose|k: int|
            0 <= k < b.len() && (#[trigger] b[k]).name@ == name && (if encoders {
                b[k].is_encoder
            } else {
                b[k].is_decoder
            });
        if k < i {
            assert(a[k] == b[k]);
        }
    }
}

/// The names of the encoders and of the decoders among the codecs.
pub fn list_codecs_by_name(codecs: &Vec<CodecInfo>) -> (r: (NameSet, NameSet))
    ensures
        r.0.wf(),
        r.1.wf(),
        forall|n: Seq<char>| #[trigger] r.0@.contains(n) <==> some_codec(codecs@, true, n),
        forall|n: Seq<char>| #[trigger] r.1@.contains(n) <==> some_codec(codecs@, false, n),
{
    let mut encoders = NameSet::new();
    let mut decoders = NameSet::new();
    let mut i: usize = 0;
    while i < codecs.len()
        invariant
            i <= codecs@.len(),
            encoders.wf(),
            decoders.wf(),
            forall|n: Seq<char>| #[trigger] encoders@.contains(n) <==> some_codec(
                codecs@.take(i as int),
                true,
                n,
            ),
            forall|n: Seq<char>| #[trigger] decoders@.contains(n) <==> some_codec(
                codecs@.take(i as int),
                false,
                n,
            ),
        decreases codecs@.len() - i,
    {
        let name = codecs[i].name.as_str();
        if codecs[i].is_encoder {
            encoders.insert(name);
        }
        if codecs[i].is_decoder {
            decoders.insert(name);
        }
        proof {
            assert forall|n: Seq<char>| #[trigger] encoders@.contains(n) <==> some_codec(
                codecs@.take(i + 1),
                true,
                n,
            ) by {
                lemma_one_codec_more(codecs@, i as int, true, n);
            }
            assert forall|n: Seq<char>| #[trigger] decoders@.contains(n) <==> some_codec(
                codecs@.take(i + 1),
                false,
                n,
            ) by {
                lemma_one_codec_more(codecs@, i as int, false, n);
            }
        }
        i = i + 1;
    }
    proof {
        assert(codecs@.take(codecs@.len() as int) =~= codecs@);
    }
    (encoders, decoders)
}

pub open spec fn codec_type_of(t: MediaType) -> CodecType {
    match t {
        MediaType::Video => CodecType::Video,
        MediaType::Audio => CodecType::Audio,
        MediaType::Subtitle => CodecType::Subtitle,
        MediaType::Data => CodecType::Data,
        _ => CodecType::Unknown,
    }
}

/// A codec as the registry holds it.
pub struct RawCodec {
    pub name: String,
    pub long_name: Option<String>,
    pub media_type: MediaType,
    pub is_encoder: bool,
    pub is_decoder: bool,
}

/// A name of the registry with an optional longer one.
pub struct RawName {
    pub name: String,
    pub long_name: Option<String>,
}

pub open spec fn or_empty(o: Option<String>) -> Seq<char> {
    match o {
        Some(s) => s@,
        None => Seq::empty(),
    }
}

fn text_or_empty(o: &Option<String>) -> (r: String)
    ensures
        r@ == or_empty(*o),
{
    match o {
        Some(s) => s.clone(),
        None => String::new(),
    }
}

/// The codecs with their metadata, in the order of the registry.
pub fn list_codecs(raw: &Vec<RawCodec>) -> (r: Vec<CodecInfo>)
    ensures
        r@.len() == raw@.len(),
        forall|i: int|
            0 <= i < raw@.len() ==> {
                &&& (#[trigger] r@[i]).name@ == raw@[i].name@
                &&& r@[i].long_name@ == or_empty(raw@[i].long_name)
                &&& r@[i].codec_type == codec_type_of(raw@[i].media_type)
                &&& r@[i].is_encoder == raw@[i].is_encoder
                &&& r@[i].is_decoder == raw@[i].is_decoder
            },
{
    let mut result: Vec<CodecInfo> = Vec::new();
    let mut i: usize = 0;
    while i < raw.len()
        invariant
            i <= raw@.len(),
            result@.len() == i,
            forall|k: int|
                0 <= k < i ==> {
                    &&& (#[trigger] result@[k]).name@ == raw@[k].name@
                    &&& result@[k].long_name@ == or_empty(raw@[k].long_name)
                    &&& result@[k].codec_type == codec_type_of(raw@[k].media_type)
                    &&& result@[k].is_encoder == raw@[k].is_encoder
                    &&& result@[k].is_decoder == raw@[k].is_decoder
                },
        decreases raw@.len() - i,
    {
        let codec = &raw[i];
        result.push(
            CodecInfo {
                name: codec.name.clone(),
                long_name: text_or_empty(&codec.long_name),
                codec_type: match codec.media_type {
                    MediaType::Video => CodecType::Video,
                    MediaType::Audio => CodecType::Audio,
                    MediaType::Subtitle => CodecType::Subtitle,
                    MediaType::Data => CodecType::Data,
                    _ => CodecType::Unknown,
                },
                is_encoder: codec.is_encoder,
                is_decoder: codec.is_decoder,
            },
        );
        i = i + 1;
    }
    result
}

/// The names of the filters.
pub fn list_filter_names(filters: &Vec<FilterInfo>) -> (r: NameSet)
    ensures
        r.wf(),
        forall|n: Seq<char>| #[trigger]
            r@.contains(n) <==> exists|i: int|
                0 <= i < filters@.len() && (#[trigger] filters@[i]).name@ == n,
{
    let mut set = NameSet::new();
    let mut i: usize = 0;
    while i < filters.len()
        invariant
            i <= filters@.len(),
            set.wf(),
            forall|n: Seq<char>| #[trigger]
                set@.contains(n) <==> exists|k: int|
                    0 <= k < i && (#[trigger] filters@[k]).name@ == n,
        decreases filters@.len() - i,
    {
        let ghost before = set@;
        set.insert(filters[i].name.as_str());
        proof {
            assert forall|n: Seq<char>| #[trigger]
                set@.contains(n) <==> exists|k: int|
                    0 <= k < i + 1 && (#[trigger] filters@[k]).name@ == n by {
                assert(before.contains(n) <==> exists|k: int|
                    0 <= k < i && (#[trigger] filters@[k]).name@ == n);
                if before.contains(n) {
                    let k = choose|k: int| 0 <= k < i && (#[trigger] filters@[k]).name@ == n;
                    assert(filters@[k].name@ == n);
                }
                assert(filters@[i as int].name@ == filters@[i as int].name@);
            }
        }
        i = i + 1;
    }
    set
}

/// The filters with their descriptions, in the order of the registry.
pub fn list_filters(raw: &Vec<RawName>) -> (r: Vec<FilterInfo>)
    ensures
        r@.len() == raw@.len(),
        forall|i: int|
            0 <= i < raw@.len() ==> (#[trigger] r@[i]).name@ == raw@[i].name@
                && r@[i].description@ == or_empty(raw@[i].long_name),
{
    let mut result: Vec<FilterInfo> = Vec::new();
    let mut i: usize = 0;
    while i < raw.len()
        invariant
            i <= raw@.len(),
            result@.len() == i,
            forall|k: int|
                0 <= k < i ==> (#[trigger] result@[k]).name@ == raw@[k].name@
                    && result@[k].description@ == or_empty(raw@[k].long_name),
        decreases raw@.len() - i,
    {
        result.push(
            FilterInfo {
                name: raw[i].name.clone(),
                description: text_or_empty(&raw[i].long_name),
            },
        );
        i = i + 1;
    }
    result
}

fn format_descs(raw: &Vec<RawName>) -> (r: Vec<FormatDesc>)
    ensures
        are_formats(r@, raw@),
{
    let mut result: Vec<FormatDesc> = Vec::new();
    let mut i: usize = 0;
    while i < raw.len()
        invariant
            i <= raw@.len(),
            are_formats(result@, raw@.take(i as int)),
        decreases raw@.len() - i,
    {
        result.push(
            FormatDesc { name: raw[i].name.clone(), long_name: text_or_empty(&raw[i].long_name) },
        );
        i = i + 1;
    }
    proof {
        assert(raw@.take(raw@.len() as int) =~= raw@);
    }
    result
}

/// `r` holds the names of `raw`, in order; a missing long name is empty.
pub open spec fn are_formats(r: Seq<FormatDesc>, raw: Seq<RawName>) -> bool {
    &&& r.len() == raw.len()
    &&& forall|i: int|
        0 <= i < raw.len() ==> (#[trigger] r[i]).name@ == raw[i].name@ && r[i].long_name@
            == or_empty(raw[i].long_name)
}

/// The output formats, in the order of the registry.
pub fn list_muxers(raw: &Vec<RawName>) -> (r: Vec<FormatDesc>)
    ensures
        are_formats(r@, raw@),
{
    format_descs(raw)
}

/// The input formats, in the order of the registry.
pub fn list_demuxers(raw: &Vec<RawName>) -> (r: Vec<FormatDesc>)
    ensures
        are_formats(r@, raw@),
{
    format_descs(raw)
}

/// `base`, and behind it each of `more` that is not there already.
pub open spec fn joined_names(base: Seq<Seq<char>>, more: Seq<Seq<char>>) -> Seq<Seq<char>>
    decreases more.len(),
{
    if more.len() == 0 {
        base
    } else {
        let before = joined_names(base, more.drop_last());
        if before.contains(more.last()) {
            before
        } else {
            before.push(more.last())
        }
    }
}

fn holds_name(names: &Vec<String>, name: &str) -> (r: bool)
    ensures
        r == texts(names@).contains(name@),
{
    let mut i: usize = 0;
    while i < names.len()
        invariant
            i <= names@.len(),
            forall|k: int| 0 <= k < i ==> texts(names@)[k] != name@,
        decreases names@.len() - i,
    {
        if same(names[i].as_str(), name) {
            proof {
                assert(texts(names@)[i as int] == name@);
            }
            return true;
        }
        i = i + 1;
    }
    false
}

/// The output protocols, then the input protocols that are not among them.
pub fn list_protocols(outputs: &Vec<String>, inputs: &Vec<String>) -> (r: Vec<String>)
    ensures
        texts(r@) == joined_names(texts(outputs@), texts(inputs@)),
{
    let mut result: Vec<String> = Vec::new();
    let mut i: usize = 0;
    while i < outputs.len()
        invariant
            i <= outputs@.len(),
            texts(result@) == texts(outputs@).take(i as int),
        decreases outputs@.len() - i,
    {
        let ghost before = result@;
        let name = outputs[i].clone();
        result.push(name);
        i = i + 1;
        proof {
            assert(texts(result@) =~= texts(before).push(name@));
            assert(texts(result@) =~= texts(outputs@).take(i as int));
        }
    }
    proof {
        assert(texts(outputs@).take(i as int) =~= texts(outputs@));
        assert(texts(inputs@).take(0) =~= Seq::<Seq<char>>::empty());
    }
    let mut k: usize = 0;
    while k < inputs.len()
        invariant
            k <= inputs@.len(),
            texts(result@) == joined_names(texts(outputs@), texts(inputs@).take(k as int)),
        decreases inputs@.len() - k,
    {
        let ghost before = result@;
        proof {
            let upto = texts(inputs@).take(k + 1);
            assert(upto.drop_last() =~= texts(inputs@).take(k as int));
            assert(upto.last() == inputs@[k as int]@);
        }
        if !holds_name(&result, inputs[k].as_str()) {
            let name = inputs[k].clone();
            result.push(name);
            proof {
                assert(texts(result@) =~= texts(before).push(name@));
            }
        }
        k = k + 1;
    }
    proof {
        assert(texts(inputs@).take(k as int) =~= texts(inputs@));
    }
    result
}

/// The list of protocols holds exactly those of either direction, and names none twice where the
/// output protocols are distinct.
pub proof fn law_protocols_are_joined(outputs: Seq<Seq<char>>, inputs: Seq<Seq<char>>, name: Seq<char>)
    ensures
        joined_names(outputs, inputs).contains(name) <==> outputs.contains(name)
            || inputs.contains(name),
        outputs.no_duplicates() ==> joined_names(outputs, inputs).no_duplicates(),
    decreases inputs.len(),
{
    if inputs.len() > 0 {
        let rest = inputs.drop_last();
        let before = joined_names(outputs, rest);
        law_protocols_are_joined(outputs, rest, name);
        law_protocols_are_joined(outputs, rest, inputs.last());
        assert(inputs.contains(name) <==> rest.contains(name) || name == inputs.last()) by {
            if inputs.contains(name) {
                let i = choose|i: int| 0 <= i < inputs.len() && inputs[i] == name;
                if i < rest.len() {
                    assert(rest[i] == name);
                }
            }
            if rest.contains(name) {
                let i = choose|i: int| 0 <= i < rest.len() && rest[i] == name;
                assert(inputs[i] == name);
            }
            assert(inputs[inputs.len() - 1] == inputs.last());
        }
        let after = joined_names(outputs, inputs);
        if !before.contains(inputs.last()) {
            assert(after == before.push(inputs.last()));
            assert(after.contains(name) <==> before.contains(name) || name == inputs.last()) by {
                if before.contains(name) {
                    let i = choose|i: int| 0 <= i < before.len() && before[i] == name;
                    assert(after[i] == name);
                }
                assert(after[before.len() as int] == inputs.last());
            }
        }
    }
}

/// Whether a filter is available.
pub fn has_filter(caps: &HwCapabilities, name: &str) -> (r: bool)
    ensures
        r == caps.filters@.contains(name@),
{
    caps.filters.contains(name)
}

/// Whether an encoder is available.
pub fn has_encoder(caps: &HwCapabilities, name: &str) -> (r: bool)
    ensures
        r == caps.encoders@.contains(name@),
{
    caps.encoders.contains(name)
}

/// Whether a decoder is available.
pub fn has_decoder(caps: &HwCapabilities, name: &str) -> (r: bool)
    ensures
        r == caps.decoders@.contains(name@),
{
    caps.decoders.contains(name)
}

/// The best AAC encoder: `libfdk_aac` where it is available, else the native `aac`.
pub fn best_aac_encoder(caps: &HwCapabilities) -> (r: &'static str)
    ensures
        r@ == (if caps.encoders@.contains("libfdk_aac"@) {
            "libfdk_aac"@
        } else {
            "aac"@
        }),
{
    if has_encoder(caps, "libfdk_aac") {
        "libfdk_aac"
    } else {
        "aac"
    }
}

/// The encoders of an audio codec, the preferred one first; none for an unknown codec.
pub open spec fn audio_encoders(codec: Seq<char>) -> Seq<Seq<char>> {
    if codec == "aac"@ {
        seq!["libfdk_aac"@, "aac"@]
    } else if codec == "mp3"@ {
        seq!["libmp3lame"@, "mp3"@]
    } else if codec == "opus"@ {
        seq!["libopus"@, "opus"@]
    } else if codec == "flac"@ {
        seq!["flac"@]
    } else if codec == "alac"@ {
        seq!["alac"@]
    } else if codec == "ac3"@ {
        seq!["ac3"@]
    } else if codec == "eac3"@ {
        seq!["eac3"@]
    } else if codec == "vorbis"@ {
        seq!["libvorbis"@, "vorbis"@]
    } else {
        seq![]
    }
}

/// The first of `names` that is available.
pub open spec fn first_available(names: Seq<Seq<char>>, available: Set<Seq<char>>) -> Option<
    Seq<char>,
>
    decreases names.len(),
{
    if names.len() == 0 {
        None
    } else if available.contains(names[0]) {
        Some(names[0])
    } else {
        first_available(names.drop_first(), available)
    }
}

fn pick(caps: &HwCapabilities, first: &'static str, second: &'static str) -> (r: Option<
    &'static str,
>)
    ensures
        same_name(r, first_available(seq![first@, second@], caps.encoders@)),
        first@ == second@ ==> same_name(r, first_available(seq![first@], caps.encoders@)),
{
    proof {
        let two = seq![first@, second@];
        let one = seq![first@];
        assert(two.drop_first() =~= seq![second@]);
        assert(one.drop_first() =~= Seq::<Seq<char>>::empty());
        assert(seq![second@].drop_first() =~= Seq::<Seq<char>>::empty());
        reveal_with_fuel(first_available, 3);
    }
    if caps.encoders.contains(first) {
        Some(first)
    } else if caps.encoders.contains(second) {
        Some(second)
    } else {
        None
    }
}

/// The best available encoder of an audio codec; `None` where the codec is unknown or none of its
/// encoders is available.
pub fn best_encoder_for_audio_codec(caps: &HwCapabilities, codec: &str) -> (r: Option<&'static str>)
    ensures
        same_name(r, first_available(audio_encoders(codec@), caps.encoders@)),
{
    if same(codec, "aac") {
        pick(caps, "libfdk_aac", "aac")
    } else if same(codec, "mp3") {
        pick(caps, "libmp3lame", "mp3")
    } else if same(codec, "opus") {
        pick(caps, "libopus", "opus")
    } else if same(codec, "flac") {
        pick(caps, "flac", "flac")
    } else if same(codec, "alac") {
        pick(caps, "alac", "alac")
    } else if same(codec, "ac3") {
        pick(caps, "ac3", "ac3")
    } else if same(codec, "eac3") {
        pick(caps, "eac3", "eac3")
    } else if same(codec, "vorbis") {
        pick(caps, "libvorbis", "vorbis")
    } else {
        None
    }
}

/// An encoder that is chosen for an audio codec is available and one of that codec's.
pub proof fn law_chosen_audio_encoder_is_available(codec: Seq<char>, available: Set<Seq<char>>)
    ensures
        first_available(audio_encoders(codec), available) matches Some(e) ==> available.contains(e)
            && audio_encoders(codec).contains(e),
        first_available(audio_encoders(codec), available) is None ==> forall|i: int|
            0 <= i < audio_encoders(codec).len() ==> !available.contains(
                #[trigger] audio_encoders(codec)[i],
            ),
{
    lemma_first_available(audio_encoders(codec), available);
}

proof fn lemma_first_available(names: Seq<Seq<char>>, available: Set<Seq<char>>)
    ensures
        first_available(names, available) matches Some(e) ==> available.contains(e)
            && names.contains(e),
        first_available(names, available) is None ==> forall|i: int|
            0 <= i < names.len() ==> !available.contains(#[trigger] names[i]),
    decreases names.len(),
{
    if names.len() > 0 {
        let rest = names.drop_first();
        lemma_first_available(rest, available);
        if available.contains(names[0]) {
            assert(names.contains(names[0]));
        } else {
            match first_available(rest, available) {
                Some(e) => {
                    let i = choose|i: int| 0 <= i < rest.len() && rest[i] == e;
                    assert(names[i + 1] == e);
                },
                None => {
                    assert forall|i: int| 0 <= i < names.len() implies !available.contains(
                        #[trigger] names[i],
                    ) by {
                        if i > 0 {
                            assert(rest[i - 1] == names[i]);
                        }
                    }
                },
            }
        }
    }
}

/// The CUVID decoders and the codecs that they decode.
pub open spec fn cuvid_table() -> Seq<(Seq<char>, Seq<char>)> {
    seq![
        ("h264_cuvid"@, "h264"@),
        ("hevc_cuvid"@, "hevc"@),
        ("vp9_cuvid"@, "vp9"@),
        ("av1_cuvid"@, "av1"@),
        ("mpeg2_cuvid"@, "mpeg2video"@),
        ("mpeg4_cuvid"@, "mpeg4"@),
        ("vc1_cuvid"@, "vc1"@),
        ("vp8_cuvid"@, "vp8"@),
    ]
}

/// The number of CUVID decoders.
pub const CUVID_CANDIDATES: usize = 8;

/// The CUVID decoder number `i` and the codec that it decodes.
pub fn cuvid_candidate(i: usize) -> (r: (&'static str, &'static str))
    requires
        i < CUVID_CANDIDATES,
    ensures
        (r.0@, r.1@) == cuvid_table()[i as int],
{
    match i {
        0 => ("h264_cuvid", "h264"),
        1 => ("hevc_cuvid", "hevc"),
        2 => ("vp9_cuvid", "vp9"),
        3 => ("av1_cuvid", "av1"),
        4 => ("mpeg2_cuvid", "mpeg2video"),
        5 => ("mpeg4_cuvid", "mpeg4"),
        6 => ("vc1_cuvid", "vc1"),
        _ => ("vp8_cuvid", "vp8"),
    }
}

/// The codec `name` is one whose decoder opened.
pub open spec fn opened_codec(opened: Seq<bool>, name: Seq<char>) -> bool {
    exists|i: int| 0 <= i < opened.len() && #[trigger] opened[i] && cuvid_table()[i].1 == name
}

/// The codecs that CUDA decodes on this machine, given which of the CUVID decoders opened, in the
/// order of the candidates. Without a CUDA device none was opened and the list is empty.
pub fn probe_cuvid_hw_codecs(opened: &Vec<bool>) -> (r: NameSet)
    requires
        opened@.len() <= CUVID_CANDIDATES,
    ensures
        r.wf(),
        forall|n: Seq<char>| #[trigger] r@.contains(n) <==> opened_codec(opened@, n),
{
    let mut supported = NameSet::new();
    let mut i: usize = 0;
    while i < opened.len()
        invariant
            i <= opened@.len() <= CUVID_CANDIDATES,
            supported.wf(),
            forall|n: Seq<char>| #[trigger] supported@.contains(n) <==> opened_codec(
                opened@.take(i as int),
                n,
            ),
        decreases opened@.len() - i,
    {
        let ghost before = supported@;
        let (_, key) = cuvid_candidate(i);
        if opened[i] {
            supported.insert(key);
        }
        proof {
            assert forall|n: Seq<char>| #[trigger] supported@.contains(n) <==> opened_codec(
                opened@.take(i + 1),
                n,
            ) by {
                let a = opened@.take(i as int);
                let b = opened@.take(i + 1);
                assert(before.contains(n) <==> opened_codec(a, n));
                assert(b[i as int] == opened@[i as int]);
                if opened_codec(a, n) {
                    let k = choose|k: int|
                        0 <= k < a.len() && #[trigger] a[k] && cuvid_table()[k].1 == n;
                    assert(b[k] == a[k]);
                }
                if opened_codec(b, n) {
                    let k = choose|k: int|
                        0 <= k < b.len() && #[trigger] b[k] && cuvid_table()[k].1 == n;
                    if k < i {
                        assert(a[k] == b[k]);
                    }
                }
            }
        }
        i = i + 1;
    }
    proof {
        assert(opened@.take(opened@.len() as int) =~= opened@);
    }
    supported
}

/// The CUVID decoder of a codec.
pub open spec fn cuvid_decoder_of(codec: Seq<char>) -> Option<Seq<char>> {
    if codec == "h264"@ {
        Some("h264_cuvid"@)
    } else if codec == "hevc"@ {
        Some("hevc_cuvid"@)
    } else if codec == "vp9"@ {
        Some("vp9_cuvid"@)
    } else if codec == "av1"@ {
        Some("av1_cuvid"@)
    } else if codec == "mpeg2video"@ {
        Some("mpeg2_cuvid"@)
    } else if codec == "mpeg4"@ {
        Some("mpeg4_cuvid"@)
    } else if codec == "vc1"@ {
        Some("vc1_cuvid"@)
    } else if codec == "vp8"@ {
        Some("vp8_cuvid"@)
    } else {
        None
    }
}

/// The CUVID decoder that `caps` allow for a codec: it is in the table, it is available, and where
/// the hardware has been probed, the hardware decodes the codec.
pub open spec fn allowed_cuvid_decoder(codec: Seq<char>, caps: HwCapabilities) -> Option<
    Seq<char>,
> {
    match cuvid_decoder_of(codec) {
        Some(d) if caps.has_cuvid && caps.decoders@.contains(d) && (caps.cuvid_hw_codecs@.len() == 0
            || caps.cuvid_hw_codecs@.contains(codec)) => Some(d),
        _ => None,
    }
}

proof fn lemma_cuvid_codecs_differ(i: int, j: int)
    requires
        0 <= i < j < 8,
    ensures
        cuvid_table()[i].1 != cuvid_table()[j].1,
{
    reveal_strlit("h264");
    reveal_strlit("hevc");
    reveal_strlit("vp9");
    reveal_strlit("av1");
    reveal_strlit("mpeg2video");
    reveal_strlit("mpeg4");
    reveal_strlit("vc1");
    reveal_strlit("vp8");
    let a = cuvid_table()[i].1;
    let b = cuvid_table()[j].1;
    assert(a.len() != b.len() || a[0] != b[0] || a[1] != b[1] || a[2] != b[2]);
}

proof fn lemma_cuvid_entry(i: int)
    requires
        0 <= i < 8,
    ensures
        cuvid_decoder_of(cuvid_table()[i].1) == Some(cuvid_table()[i].0),
{
    if 0 < i {
        lemma_cuvid_codecs_differ(0, i);
    }
    if 1 < i {
        lemma_cuvid_codecs_differ(1, i);
    }
    if 2 < i {
        lemma_cuvid_codecs_differ(2, i);
    }
    if 3 < i {
        lemma_cuvid_codecs_differ(3, i);
    }
    if 4 < i {
        lemma_cuvid_codecs_differ(4, i);
    }
    if 5 < i {
        lemma_cuvid_codecs_differ(5, i);
    }
    if 6 < i {
        lemma_cuvid_codecs_differ(6, i);
    }
}

/// The CUVID decoder of a source codec, given by its normalized name; `None` where CUVID does not
/// support it. Once the hardware has been probed (`caps.cuvid_hw_codecs` is not empty), the
/// hardware must support the codec too.
pub fn get_cuvid_decoder(video_codec: &str, caps: &HwCapabilities) -> (r: Option<&'static str>)
    requires
        caps.cuvid_hw_codecs.wf(),
    ensures
        same_name(r, allowed_cuvid_decoder(video_codec@, *caps)),
{
    if !caps.has_cuvid {
        return None;
    }
    let mut i: usize = 0;
    while i < CUVID_CANDIDATES
        invariant
            i <= CUVID_CANDIDATES,
            caps.has_cuvid,
            caps.cuvid_hw_codecs.wf(),
            forall|k: int| 0 <= k < i ==> (#[trigger] cuvid_table()[k]).1 != video_codec@,
        decreases CUVID_CANDIDATES - i,
    {
        let (decoder, key) = cuvid_candidate(i);
        if same(video_codec, key) {
            proof {
                lemma_cuvid_entry(i as int);
            }
            if !caps.decoders.contains(decoder) {
                return None;
            }
            if caps.cuvid_hw_codecs.len() != 0 && !caps.cuvid_hw_codecs.contains(key) {
                return None;
            }
            return Some(decoder);
        }
        i = i + 1;
    }
    proof {
        let t = cuvid_table();
        assert(t[0].1 == "h264"@ && t[1].1 == "hevc"@ && t[2].1 == "vp9"@ && t[3].1 == "av1"@
            && t[4].1 == "mpeg2video"@ && t[5].1 == "mpeg4"@ && t[6].1 == "vc1"@ && t[7].1
            == "vp8"@);
    }
    None
}

/// The decoder that is picked for a codec is the candidate that is probed for it.
pub proof fn law_picked_decoder_is_the_probed_one(i: int)
    requires
        0 <= i < cuvid_table().len(),
    ensures
        cuvid_decoder_of(cuvid_table()[i].1) == Some(cuvid_table()[i].0),
{
    lemma_cuvid_entry(i);
}

/// The codecs that VAAPI and QSV decode.
pub open spec fn vaapi_codecs() -> Seq<Seq<char>> {
    seq!["h264"@, "hevc"@, "mpeg2video"@, "vc1"@, "vp8"@, "vp9"@, "av1"@]
}

fn vaapi_or_qsv(codec: &str) -> (r: bool)
    ensures
        r == one_of(codec@, vaapi_codecs()),
{
    proof {
        let t = vaapi_codecs();
        assert(t[0] == "h264"@ && t[1] == "hevc"@ && t[2] == "mpeg2video"@ && t[3] == "vc1"@ && t[4]
            == "vp8"@ && t[5] == "vp9"@ && t[6] == "av1"@);
    }
    same(codec, "h264") || same(codec, "hevc") || same(codec, "mpeg2video") || same(codec, "vc1")
        || same(codec, "vp8") || same(codec, "vp9") || same(codec, "av1")
}

/// Whether VAAPI decodes a source codec, given by its normalized name.
pub fn vaapi_decode_supported(video_codec: &str) -> (r: bool)
    ensures
        r == one_of(video_codec@, vaapi_codecs()),
{
    vaapi_or_qsv(video_codec)
}

/// Whether QSV decodes a source codec, given by its normalized name.
pub fn qsv_decode_supported(video_codec: &str) -> (r: bool)
    ensures
        r == one_of(video_codec@, vaapi_codecs()),
{
    vaapi_or_qsv(video_codec)
}

/// Whether VideoToolbox decodes a source codec, given by its normalized name.
pub fn videotoolbox_decode_supported(video_codec: &str) -> (r: bool)
    ensures
        r == one_of(video_codec@, seq!["h264"@, "hevc"@, "vp8"@, "vp9"@, "av1"@]),
{
    proof {
        let t = seq!["h264"@, "hevc"@, "vp8"@, "vp9"@, "av1"@];
        assert(t[0] == "h264"@ && t[1] == "hevc"@ && t[2] == "vp8"@ && t[3] == "vp9"@ && t[4]
            == "av1"@);
    }
    same(video_codec, "h264") || same(video_codec, "hevc") || same(video_codec, "vp8") || same(
        video_codec,
        "vp9",
    ) || same(video_codec, "av1")
}

/// Whether a source codec, given by its normalized name, is decoded in hardware for AMF.
pub fn amf_decode_supported(video_codec: &str) -> (r: bool)
    ensures
        r == one_of(video_codec@, seq!["h264"@, "mpeg2video"@, "vc1"@, "hevc"@, "vp9"@, "av1"@]),
{
    proof {
        let t = seq!["h264"@, "mpeg2video"@, "vc1"@, "hevc"@, "vp9"@, "av1"@];
        assert(t[0] == "h264"@ && t[1] == "mpeg2video"@ && t[2] == "vc1"@ && t[3] == "hevc"@ && t[4]
            == "vp9"@ && t[5] == "av1"@);
    }
    same(video_codec, "h264") || same(video_codec, "mpeg2video") || same(video_codec, "vc1")
        || same(video_codec, "hevc") || same(video_codec, "vp9") || same(video_codec, "av1")
}

/// Detected capabilities keep the four registries that they come from, and nothing is probed yet.
pub proof fn law_registries_are_kept(
    hwaccels: NameSet,
    encoders: NameSet,
    decoders: NameSet,
    filters: NameSet,
    c: HwCapabilities,
    name: Seq<char>,
)
    requires
        call_ensures(detect_capabilities, (hwaccels, encoders, decoders, filters), c),
    ensures
        c.hwaccels@.contains(name) <==> hwaccels@.contains(name),
        c.encoders@.contains(name) <==> encoders@.contains(name),
        c.decoders@.contains(name) <==> decoders@.contains(name),
        c.filters@.contains(name) <==> filters@.contains(name),
        !c.cuvid_hw_codecs@.contains(name),
{
}

/// NVENC and AMF are there with their encoders alone, CUVID with its decoder, and the plain filter
/// flags with their filters.
pub proof fn law_single_flags_are_single_names(
    hwaccels: NameSet,
    encoders: NameSet,
    decoders: NameSet,
    filters: NameSet,
    c: HwCapabilities,
)
    requires
        call_ensures(detect_capabilities, (hwaccels, encoders, decoders, filters), c),
    ensures
        c.has_nvenc <==> encoders@.contains("h264_nvenc"@),
        c.has_nvenc_hevc <==> encoders@.contains("hevc_nvenc"@),
        c.has_amf <==> encoders@.contains("h264_amf"@),
        c.has_amf_hevc <==> encoders@.contains("hevc_amf"@),
        c.has_libx265 <==> encoders@.contains("libx265"@),
        c.has_cuvid <==> decoders@.contains("hevc_cuvid"@),
        c.has_bwdif <==> filters@.contains("bwdif"@),
        c.has_bwdif_cuda <==> filters@.contains("bwdif_cuda"@),
        c.has_tonemap <==> filters@.contains("tonemap"@),
        c.has_tonemapx <==> filters@.contains("tonemapx"@),
        c.has_zscale <==> filters@.contains("zscale"@),
        c.has_tonemap_opencl <==> filters@.contains("tonemap_opencl"@),
{
}

/// A backend is there with its accelerator and its H.264 encoder, its HEVC side with the HEVC
/// encoder as well, and it is full with all the filters that work on its frames as well.
pub proof fn law_backend_flags_need_all_their_names(
    hwaccels: NameSet,
    encoders: NameSet,
    decoders: NameSet,
    filters: NameSet,
    c: HwCapabilities,
)
    requires
        call_ensures(detect_capabilities, (hwaccels, encoders, decoders, filters), c),
    ensures
        c.has_vaapi <==> hwaccels@.contains("vaapi"@) && encoders@.contains("h264_vaapi"@),
        c.has_vaapi_hevc <==> hwaccels@.contains("vaapi"@) && encoders@.contains("h264_vaapi"@)
            && encoders@.contains("hevc_vaapi"@),
        c.has_vaapi_full <==> hwaccels@.contains("vaapi"@) && encoders@.contains("h264_vaapi"@)
            && filters@.contains("scale_vaapi"@) && filters@.contains("deinterlace_vaapi"@)
            && filters@.contains("tonemap_vaapi"@) && filters@.contains("transpose_vaapi"@)
            && filters@.contains("hwupload_vaapi"@),
        c.has_qsv <==> hwaccels@.contains("qsv"@) && encoders@.contains("h264_qsv"@),
        c.has_qsv_hevc <==> hwaccels@.contains("qsv"@) && encoders@.contains("h264_qsv"@)
            && encoders@.contains("hevc_qsv"@),
        c.has_qsv_full <==> hwaccels@.contains("qsv"@) && encoders@.contains("h264_qsv"@)
            && filters@.contains("scale_qsv"@) && filters@.contains("vpp_qsv"@),
        c.has_videotoolbox <==> hwaccels@.contains("videotoolbox"@) && encoders@.contains(
            "h264_videotoolbox"@,
        ),
        c.has_videotoolbox_hevc <==> hwaccels@.contains("videotoolbox"@) && encoders@.contains(
            "h264_videotoolbox"@,
        ) && encoders@.contains("hevc_videotoolbox"@),
        c.has_videotoolbox_full <==> hwaccels@.contains("videotoolbox"@) && encoders@.contains(
            "h264_videotoolbox"@,
        ) && filters@.contains("yadif_videotoolbox"@) && filters@.contains("overlay_videotoolbox"@)
            && filters@.contains("scale_vt"@),
        c.has_videotoolbox_tonemap <==> hwaccels@.contains("videotoolbox"@) && encoders@.contains(
            "h264_videotoolbox"@,
        ) && filters@.contains("tonemap_videotoolbox"@),
        c.has_rkmpp <==> hwaccels@.contains("rkmpp"@) && encoders@.contains("h264_rkmpp"@),
        c.has_rkmpp_hevc <==> hwaccels@.contains("rkmpp"@) && encoders@.contains("h264_rkmpp"@)
            && encoders@.contains("hevc_rkmpp"@),
        c.has_cuda_full <==> hwaccels@.contains("cuda"@) && filters@.contains("scale_cuda"@)
            && filters@.contains("yadif_cuda"@) && filters@.contains("tonemap_cuda"@)
            && filters@.contains("overlay_cuda"@) && filters@.contains("hwupload_cuda"@),
{
}

/// A packed version is written as the three numbers that it was packed from.
pub proof fn law_version_is_unpacked(v: u32, major: u8, minor: u8, micro: u8)
    requires
        v == major * 0x10000 + minor * 0x100 + micro,
    ensures
        version_text(v) == dec(major as int) + "."@ + dec(minor as int) + "."@ + dec(micro as int),
{
    lemma_version_parts(v, major, minor, micro);
}

proof fn lemma_version_parts(v: u32, major: u8, minor: u8, micro: u8)
    requires
        v == major * 0x10000 + minor * 0x100 + micro,
    ensures
        (v / 0x10000) as int % 256 == major,
        (v / 0x100) as int % 256 == minor,
        v as int % 256 == micro,
{
    assert(v / 0x10000 == major);
    assert(v / 0x100 == major * 0x100 + minor);
}

/// An accelerator is listed exactly if a device type has its name, and a type without a name adds
/// none.
pub proof fn law_named_types_are_listed(names: Seq<Option<String>>, more: Option<String>, name: Seq<char>)
    ensures
        !is_listed(Seq::empty(), name),
        is_listed(names.push(more), name) <==> is_listed(names, name) || (more is Some
            && more->0@ == name),
{
    let all = names.push(more);
    if is_listed(names, name) {
        let i = choose|i: int| 0 <= i < names.len() && opt_text(#[trigger] names[i]) == Some(name);
        assert(all[i] == names[i]);
    }
    assert(all[names.len() as int] == more);
    if is_listed(all, name) {
        let i = choose|i: int| 0 <= i < all.len() && opt_text(#[trigger] all[i]) == Some(name);
        if i < names.len() {
            assert(names[i] == all[i]);
        }
    }
}

/// A codec counts among the encoders or among the decoders exactly if it can do that.
pub proof fn law_codecs_are_sorted_by_direction(codecs: Seq<CodecInfo>, more: CodecInfo, name: Seq<char>)
    ensures
        !some_codec(Seq::empty(), true, name),
        !some_codec(Seq::empty(), false, name),
        some_codec(codecs.push(more), true, name) <==> some_codec(codecs, true, name) || (
        more.is_encoder && more.name@ == name),
        some_codec(codecs.push(more), false, name) <==> some_codec(codecs, false, name) || (
        more.is_decoder && more.name@ == name),
{
    let all = codecs.push(more);
    assert(all.take(codecs.len() as int) =~= codecs);
    assert(all.take((codecs.len() + 1) as int) =~= all);
    lemma_one_codec_more(all, codecs.len() as int, true, name);
    lemma_one_codec_more(all, codecs.len() as int, false, name);
}

/// A codec is for what its media type says; there is nothing for attachments and other streams.
pub proof fn law_codecs_are_for_their_media(t: MediaType)
    ensures
        codec_type_of(t) == CodecType::Video <==> t == MediaType::Video,
        codec_type_of(t) == CodecType::Audio <==> t == MediaType::Audio,
        codec_type_of(t) == CodecType::Subtitle <==> t == MediaType::Subtitle,
        codec_type_of(t) == CodecType::Data <==> t == MediaType::Data,
        codec_type_of(t) == CodecType::Unknown <==> t == MediaType::Attachment || t
            == MediaType::Other,
{
}

/// A long name that is missing is empty, and any other stands as it is.
pub proof fn law_missing_names_are_empty(r: Seq<FormatDesc>, raw: Seq<RawName>, i: int)
    requires
        are_formats(r, raw),
        0 <= i < raw.len(),
    ensures
        r.len() == raw.len(),
        r[i].name@ == raw[i].name@,
        raw[i].long_name matches Some(s) ==> r[i].long_name@ == s@,
        raw[i].long_name is None ==> r[i].long_name@.len() == 0,
{
    assert(r[i].name@ == raw[i].name@);
}

/// The output protocols come first, in their order.
pub proof fn law_output_protocols_come_first(outputs: Seq<Seq<char>>, inputs: Seq<Seq<char>>, i: int)
    requires
        0 <= i < outputs.len(),
    ensures
        joined_names(outputs, inputs).len() >= outputs.len(),
        joined_names(outputs, inputs)[i] == outputs[i],
    decreases inputs.len(),
{
    if inputs.len() > 0 {
        law_output_protocols_come_first(outputs, inputs.drop_last(), i);
    }
}

/// The preferred encoder of an audio codec is taken where it is available, then the other one.
pub proof fn law_preferred_audio_encoder_is_taken(
    caps: HwCapabilities,
    codec: &str,
    r: Option<&'static str>,
)
    requires
        call_ensures(best_encoder_for_audio_codec, (&caps, codec), r),
    ensures
        codec@ == "aac"@ && caps.encoders@.contains("libfdk_aac"@) ==> r is Some && r->0@
            == "libfdk_aac"@,
        codec@ == "aac"@ && !caps.encoders@.contains("libfdk_aac"@) && caps.encoders@.contains(
            "aac"@,
        ) ==> r is Some && r->0@ == "aac"@,
        codec@ == "mp3"@ && caps.encoders@.contains("libmp3lame"@) ==> r is Some && r->0@
            == "libmp3lame"@,
        codec@ == "mp3"@ && !caps.encoders@.contains("libmp3lame"@) && caps.encoders@.contains(
            "mp3"@,
        ) ==> r is Some && r->0@ == "mp3"@,
        codec@ == "opus"@ && caps.encoders@.contains("libopus"@) ==> r is Some && r->0@
            == "libopus"@,
        codec@ == "opus"@ && !caps.encoders@.contains("libopus"@) && caps.encoders@.contains(
            "opus"@,
        ) ==> r is Some && r->0@ == "opus"@,
        codec@ == "vorbis"@ && caps.encoders@.contains("libvorbis"@) ==> r is Some && r->0@
            == "libvorbis"@,
        codec@ == "vorbis"@ && !caps.encoders@.contains("libvorbis"@) && caps.encoders@.contains(
            "vorbis"@,
        ) ==> r is Some && r->0@ == "vorbis"@,
        codec@ == "flac"@ && caps.encoders@.contains("flac"@) ==> r is Some && r->0@ == "flac"@,
        codec@ == "alac"@ && caps.encoders@.contains("alac"@) ==> r is Some && r->0@ == "alac"@,
        codec@ == "ac3"@ && caps.encoders@.contains("ac3"@) ==> r is Some && r->0@ == "ac3"@,
        codec@ == "eac3"@ && caps.encoders@.contains("eac3"@) ==> r is Some && r->0@ == "eac3"@,
        r is Some ==> caps.encoders@.contains(r->0@),
{
    reveal_strlit("aac");
    reveal_strlit("mp3");
    reveal_strlit("opus");
    reveal_strlit("flac");
    reveal_strlit("alac");
    reveal_strlit("ac3");
    reveal_strlit("eac3");
    reveal_strlit("vorbis");
    assert("aac"@.len() == 3 && "mp3"@.len() == 3 && "ac3"@.len() == 3 && "opus"@.len() == 4
        && "flac"@.len() == 4 && "alac"@.len() == 4 && "eac3"@.len() == 4 && "vorbis"@.len() == 6);
    assert("aac"@[0] == 'a' && "aac"@[1] == 'a' && "mp3"@[0] == 'm' && "ac3"@[0] == 'a' && "ac3"@[1]
        == 'c' && "opus"@[0] == 'o' && "flac"@[0] == 'f' && "alac"@[0] == 'a' && "eac3"@[0] == 'e');
    let names = audio_encoders(codec@);
    lemma_first_available(names, caps.encoders@);
    reveal_with_fuel(first_available, 3);
    if names.len() >= 2 {
        assert(names.drop_first()[0] == names[1]);
    }
}

/// The best AAC encoder is the external one where it is available, else the native one.
pub proof fn law_best_aac_encoder(caps: HwCapabilities, r: &'static str)
    requires
        call_ensures(best_aac_encoder, (&caps,), r),
    ensures
        caps.encoders@.contains("libfdk_aac"@) ==> r@ == "libfdk_aac"@,
        !caps.encoders@.contains("libfdk_aac"@) ==> r@ == "aac"@,
{
}

/// CUVID decodes a codec where CUVID is there, the decoder of that codec is available, and the
/// hardware, once probed, was found to decode it; the decoder is named after the codec.
pub proof fn law_cuvid_decoder_is_allowed(codec: Seq<char>, caps: HwCapabilities)
    ensures
        allowed_cuvid_decoder(codec, caps) matches Some(d) ==> caps.has_cuvid
            && caps.decoders@.contains(d),
        allowed_cuvid_decoder(codec, caps) is Some && caps.cuvid_hw_codecs@.len() > 0
            ==> caps.cuvid_hw_codecs@.contains(codec),
        cuvid_decoder_of(codec) is Some && caps.has_cuvid && caps.decoders@.contains(
            cuvid_decoder_of(codec)->0,
        ) && (caps.cuvid_hw_codecs@.len() == 0 || caps.cuvid_hw_codecs@.contains(codec))
            ==> allowed_cuvid_decoder(codec, caps) == cuvid_decoder_of(codec),
        cuvid_decoder_of(codec) is Some <==> codec == "h264"@ || codec == "hevc"@ || codec == "vp9"@
            || codec == "av1"@ || codec == "mpeg2video"@ || codec == "mpeg4"@ || codec == "vc1"@
            || codec == "vp8"@,
        codec == "h264"@ ==> cuvid_decoder_of(codec) == Some("h264_cuvid"@),
        codec == "hevc"@ ==> cuvid_decoder_of(codec) == Some("hevc_cuvid"@),
        codec == "vp9"@ ==> cuvid_decoder_of(codec) == Some("vp9_cuvid"@),
        codec == "av1"@ ==> cuvid_decoder_of(codec) == Some("av1_cuvid"@),
        codec == "mpeg2video"@ ==> cuvid_decoder_of(codec) == Some("mpeg2_cuvid"@),
        codec == "mpeg4"@ ==> cuvid_decoder_of(codec) == Some("mpeg4_cuvid"@),
        codec == "vc1"@ ==> cuvid_decoder_of(codec) == Some("vc1_cuvid"@),
        codec == "vp8"@ ==> cuvid_decoder_of(codec) == Some("vp8_cuvid"@),
{
    let t = cuvid_table();
    lemma_cuvid_entry(0);
    lemma_cuvid_entry(1);
    lemma_cuvid_entry(2);
    lemma_cuvid_entry(3);
    lemma_cuvid_entry(4);
    lemma_cuvid_entry(5);
    lemma_cuvid_entry(6);
    lemma_cuvid_entry(7);
    assert(t[0].1 == "h264"@ && t[1].1 == "hevc"@ && t[2].1 == "vp9"@ && t[3].1 == "av1"@ && t[4].1
        == "mpeg2video"@ && t[5].1 == "mpeg4"@ && t[6].1 == "vc1"@ && t[7].1 == "vp8"@);
}

/// The hardware decodes the codecs whose decoders opened and no others.
pub proof fn law_opened_decoders_count(opened: Seq<bool>, i: int)
    requires
        0 <= i < opened.len() <= 8,
    ensures
        opened_codec(opened, cuvid_table()[i].1) <==> opened[i],
{
    if opened[i] {
        assert(opened_codec(opened, cuvid_table()[i].1));
    } else if opened_codec(opened, cuvid_table()[i].1) {
        let k = choose|k: int|
            0 <= k < opened.len() && #[trigger] opened[k] && cuvid_table()[k].1
                == cuvid_table()[i].1;
        if k < i {
            lemma_cuvid_codecs_differ(k, i);
        } else if i < k {
            lemma_cuvid_codecs_differ(i, k);
        }
    }
}

/// Each backend decodes the codecs that it is known for and no others.
pub proof fn law_backends_decode_their_codecs(
    codec: &str,
    vaapi: bool,
    qsv: bool,
    videotoolbox: bool,
    amf: bool,
)
    requires
        call_ensures(vaapi_decode_supported, (codec,), vaapi),
        call_ensures(qsv_decode_supported, (codec,), qsv),
        call_ensures(videotoolbox_decode_supported, (codec,), videotoolbox),
        call_ensures(amf_decode_supported, (codec,), amf),
    ensures
        vaapi <==> codec@ == "h264"@ || codec@ == "hevc"@ || codec@ == "mpeg2video"@ || codec@
            == "vc1"@ || codec@ == "vp8"@ || codec@ == "vp9"@ || codec@ == "av1"@,
        qsv <==> vaapi,
        videotoolbox <==> codec@ == "h264"@ || codec@ == "hevc"@ || codec@ == "vp8"@ || codec@
            == "vp9"@ || codec@ == "av1"@,
        amf <==> codec@ == "h264"@ || codec@ == "hevc"@ || codec@ == "mpeg2video"@ || codec@
            == "vc1"@ || codec@ == "vp9"@ || codec@ == "av1"@,
{
    let t = vaapi_codecs();
    assert(t[0] == "h264"@ && t[1] == "hevc"@ && t[2] == "mpeg2video"@ && t[3] == "vc1"@ && t[4]
        == "vp8"@ && t[5] == "vp9"@ && t[6] == "av1"@);
    let v = seq!["h264"@, "hevc"@, "vp8"@, "vp9"@, "av1"@];
    assert(v[0] == "h264"@ && v[1] == "hevc"@ && v[2] == "vp8"@ && v[3] == "vp9"@ && v[4]
        == "av1"@);
    let a = seq!["h264"@, "mpeg2video"@, "vc1"@, "hevc"@, "vp9"@, "av1"@];
    assert(a[0] == "h264"@ && a[1] == "mpeg2video"@ && a[2] == "vc1"@ && a[3] == "hevc"@ && a[4]
        == "vp9"@ && a[5] == "av1"@);
}

/// The line of versions names each library before its own version.
pub proof fn law_versions_are_listed(
    release: &str,
    avutil: u32,
    avcodec: u32,
    avformat: u32,
    avfilter: u32,
    swscale: u32,
    swresample: u32,
    short: String,
    full: String,
)
    requires
        call_ensures(ffmpeg_version, (release,), short),
        call_ensures(
            ffmpeg_version_full,
            (avutil, avcodec, avformat, avfilter, swscale, swresample),
            full,
        ),
    ensures
        short@ == release@,
        full@ == "libavutil "@ + version_text(avutil) + " / libavcodec "@ + version_text(avcodec)
            + " / libavformat "@ + version_text(avformat) + " / libavfilter "@ + version_text(
            avfilter,
        ) + " / libswscale "@ + version_text(swscale) + " / libswresample "@ + version_text(
            swresample,
        ),
{
}

/// A filter, an encoder or a decoder is there exactly if its own registry holds the name.
pub proof fn law_names_are_looked_up(
    caps: HwCapabilities,
    name: &str,
    filter: bool,
    encoder: bool,
    decoder: bool,
)
    requires
        call_ensures(has_filter, (&caps, name), filter),
        call_ensures(has_encoder, (&caps, name), encoder),
        call_ensures(has_decoder, (&caps, name), decoder),
    ensures
        filter <==> caps.filters@.contains(name@),
        encoder <==> caps.encoders@.contains(name@),
        decoder <==> caps.decoders@.contains(name@),
{
}

} // verus!
