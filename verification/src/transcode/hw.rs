//! Hardware backends and the three stages of a pipeline: decode, filter, encode.

use crate::model::{CodecId, DeviceType, PixelFormat};
use crate::text::{contains, contains_text, occurs_at, one_of, same};
use vstd::prelude::*;

verus! {

/// A family of accelerators, shared by decode, filter and encode.
#[derive(Clone, Copy, Debug, PartialEq, Eq, Hash, Structural)]
pub enum HwType {
    Cuda,
    Vaapi,
    Qsv,
    Amf,
    Videotoolbox,
    Rkmpp,
    V4l2m2m,
}

/// Filter (scale, tonemap, overlay) backend; it may differ from the decode and encode device.
#[derive(Clone, Copy, Debug, PartialEq, Eq, Structural)]
pub enum FilterBackend {
    /// Same device as the decode backend (`scale_cuda`, `scale_vaapi`, ...).
    Native,
    /// Cross-device `OpenCL` filters.
    OpenCL,
    /// Cross-device Vulkan filters.
    Vulkan,
    /// CPU filters.
    Software,
}

/// How far a pipeline fell back from running wholly on one device.
#[derive(Clone, Copy, Debug, PartialEq, Eq, Structural)]
pub enum FallbackLevel {
    /// Decode, native filter and encode on the same device.
    FullHw,
    /// Decode on one device, filter over a bridge, encode on another.
    CrossDevice,
    /// Software decode, upload, hardware encode.
    MixedSwDecode,
    /// Hardware decode, download, software filter, hardware encode.
    MixedHwDownload,
    /// Pure software.
    Software,
}

/// A resolved three-stage pipeline.
#[derive(Clone, Debug)]
pub struct HwPipeline {
    /// Decode backend (`None`: software decode).
    pub decode: Option<HwType>,
    /// Filter backend.
    pub filter: FilterBackend,
    /// Encode backend (`None`: software encode).
    pub encode: Option<HwType>,
    /// Video encoder name.
    pub encoder_name: String,
    /// The level that this configuration stands for.
    pub fallback: FallbackLevel,
}

impl HwType {
    pub open spec fn spec_device_type(self) -> DeviceType {
        match self {
            HwType::Cuda => DeviceType::Cuda,
            HwType::Vaapi => DeviceType::Vaapi,
            HwType::Qsv => DeviceType::Qsv,
            HwType::Amf => DeviceType::D3d11va,
            HwType::Videotoolbox => DeviceType::Videotoolbox,
            HwType::Rkmpp | HwType::V4l2m2m => DeviceType::Drm,
        }
    }

    /// The device that a context of this backend is created for.
    pub fn device_type(self) -> (r: DeviceType)
        ensures
            r == self.spec_device_type(),
    {
        match self {
            HwType::Cuda => DeviceType::Cuda,
            HwType::Vaapi => DeviceType::Vaapi,
            HwType::Qsv => DeviceType::Qsv,
            HwType::Amf => DeviceType::D3d11va,
            HwType::Videotoolbox => DeviceType::Videotoolbox,
            HwType::Rkmpp | HwType::V4l2m2m => DeviceType::Drm,
        }
    }

    pub open spec fn spec_pix_fmt(self) -> PixelFormat {
        match self {
            HwType::Cuda => PixelFormat::Cuda,
            HwType::Vaapi => PixelFormat::Vaapi,
            HwType::Qsv => PixelFormat::Qsv,
            HwType::Amf => PixelFormat::D3d11,
            HwType::Videotoolbox => PixelFormat::Videotoolbox,
            HwType::Rkmpp | HwType::V4l2m2m => PixelFormat::DrmPrime,
        }
    }

    /// The pixel format of frames that live on this device.
    pub fn pix_fmt(self) -> (r: PixelFormat)
        ensures
            r == self.spec_pix_fmt(),
    {
        match self {
            HwType::Cuda => PixelFormat::Cuda,
            HwType::Vaapi => PixelFormat::Vaapi,
            HwType::Qsv => PixelFormat::Qsv,
            HwType::Amf => PixelFormat::D3d11,
            HwType::Videotoolbox => PixelFormat::Videotoolbox,
            HwType::Rkmpp | HwType::V4l2m2m => PixelFormat::DrmPrime,
        }
    }

    /// Ten-bit 4:2:0 input becomes P010; CUDA also keeps 4:4:4 (ten-bit widened to sixteen);
    /// everything else becomes NV12.
    pub open spec fn spec_sw_format(self, src: PixelFormat) -> PixelFormat {
        if src == PixelFormat::Yuv420p10le || src == PixelFormat::Yuv420p10be {
            PixelFormat::P010le
        } else if self == HwType::Cuda && src == PixelFormat::Yuv444p {
            PixelFormat::Yuv444p
        } else if self == HwType::Cuda && src == PixelFormat::Yuv444p10le {
            PixelFormat::Yuv444p16le
        } else {
            PixelFormat::Nv12
        }
    }

    /// The software layout behind this device's frames for a source of format `src_pix_fmt`.
    pub fn sw_format(self, src_pix_fmt: PixelFormat) -> (r: PixelFormat)
        ensures
            r == self.spec_sw_format(src_pix_fmt),
    {
        match self {
            HwType::Cuda => match src_pix_fmt {
                PixelFormat::Yuv420p10le | PixelFormat::Yuv420p10be => PixelFormat::P010le,
                PixelFormat::Yuv444p => PixelFormat::Yuv444p,
                PixelFormat::Yuv444p10le => PixelFormat::Yuv444p16le,
                _ => PixelFormat::Nv12,
            },
            _ => match src_pix_fmt {
                PixelFormat::Yuv420p10le | PixelFormat::Yuv420p10be => PixelFormat::P010le,
                _ => PixelFormat::Nv12,
            },
        }
    }

    /// Whether the backend takes ten-bit P010 frames.
    pub fn accepts_p010(self) -> (r: bool)
        ensures
            r == !(self == HwType::Rkmpp || self == HwType::V4l2m2m),
    {
        !matches!(self, HwType::Rkmpp | HwType::V4l2m2m)
    }

    pub open spec fn spec_display_name(self) -> Seq<char> {
        match self {
            HwType::Cuda => "NVIDIA CUDA"@,
            HwType::Vaapi => "VAAPI"@,
            HwType::Qsv => "Intel QSV"@,
            HwType::Amf => "AMD AMF"@,
            HwType::Videotoolbox => "Apple VideoToolbox"@,
            HwType::Rkmpp => "Rockchip RKMPP"@,
            HwType::V4l2m2m => "V4L2M2M"@,
        }
    }

    /// The name shown to people.
    pub fn display_name(self) -> (r: &'static str)
        ensures
            r@ == self.spec_display_name(),
    {
        match self {
            HwType::Cuda => "NVIDIA CUDA",
            HwType::Vaapi => "VAAPI",
            HwType::Qsv => "Intel QSV",
            HwType::Amf => "AMD AMF",
            HwType::Videotoolbox => "Apple VideoToolbox",
            HwType::Rkmpp => "Rockchip RKMPP",
            HwType::V4l2m2m => "V4L2M2M",
        }
    }

    pub open spec fn spec_variant_name(self) -> Seq<char> {
        match self {
            HwType::Cuda => "Cuda"@,
            HwType::Vaapi => "Vaapi"@,
            HwType::Qsv => "Qsv"@,
            HwType::Amf => "Amf"@,
            HwType::Videotoolbox => "Videotoolbox"@,
            HwType::Rkmpp => "Rkmpp"@,
            HwType::V4l2m2m => "V4l2m2m"@,
        }
    }

    /// The variant's name.
    pub fn variant_name(self) -> (r: &'static str)
        ensures
            r@ == self.spec_variant_name(),
    {
        match self {
            HwType::Cuda => "Cuda",
            HwType::Vaapi => "Vaapi",
            HwType::Qsv => "Qsv",
            HwType::Amf => "Amf",
            HwType::Videotoolbox => "Videotoolbox",
            HwType::Rkmpp => "Rkmpp",
            HwType::V4l2m2m => "V4l2m2m",
        }
    }

    /// The codec name carries one of the marks of this backend.
    pub open spec fn spec_is_hw_encoder(self, codec: Seq<char>) -> bool {
        match self {
            HwType::Cuda => contains_text(codec, "nvenc"@) || contains_text(codec, "cuvid"@),
            HwType::Vaapi => contains_text(codec, "vaapi"@),
            HwType::Qsv => contains_text(codec, "qsv"@),
            HwType::Amf => contains_text(codec, "amf"@),
            HwType::Videotoolbox => contains_text(codec, "videotoolbox"@),
            HwType::Rkmpp => contains_text(codec, "rkmpp"@),
            HwType::V4l2m2m => contains_text(codec, "v4l2m2m"@),
        }
    }

    /// Whether a codec name belongs to a hardware codec of this device.
    pub fn is_hw_encoder(self, codec: &str) -> (r: bool)
        ensures
            r == self.spec_is_hw_encoder(codec@),
    {
        match self {
            HwType::Cuda => contains(codec, "nvenc") || contains(codec, "cuvid"),
            HwType::Vaapi => contains(codec, "vaapi"),
            HwType::Qsv => contains(codec, "qsv"),
            HwType::Amf => contains(codec, "amf"),
            HwType::Videotoolbox => contains(codec, "videotoolbox"),
            HwType::Rkmpp => contains(codec, "rkmpp"),
            HwType::V4l2m2m => contains(codec, "v4l2m2m"),
        }
    }

    /// The native (same-device) scale filter of this backend.
    pub fn scale_filter(self) -> (r: &'static str)
        ensures
            r@ == FilterBackend::Native.spec_scale_filter(Some(self)),
    {
        FilterBackend::Native.scale_filter(Some(self))
    }
}

impl FilterBackend {
    pub open spec fn spec_scale_filter(self, decode_hw: Option<HwType>) -> Seq<char> {
        match (self, decode_hw) {
            (FilterBackend::OpenCL, _) => "scale_opencl"@,
            (FilterBackend::Vulkan, _) => "scale_vulkan"@,
            (FilterBackend::Native, Some(HwType::Cuda)) => "scale_cuda"@,
            (FilterBackend::Native, Some(HwType::Vaapi)) => "scale_vaapi"@,
            (FilterBackend::Native, Some(HwType::Qsv)) => "scale_qsv"@,
            (FilterBackend::Native, Some(HwType::Videotoolbox)) => "scale_vt"@,
            (FilterBackend::Native, Some(HwType::Rkmpp)) => "scale_rkrga"@,
            _ => "scale"@,
        }
    }

    /// The scale filter.
    pub fn scale_filter(self, decode_hw: Option<HwType>) -> (r: &'static str)
        ensures
            r@ == self.spec_scale_filter(decode_hw),
    {
        match self {
            FilterBackend::Native => match decode_hw {
                Some(HwType::Cuda) => "scale_cuda",
                Some(HwType::Vaapi) => "scale_vaapi",
                Some(HwType::Qsv) => "scale_qsv",
                Some(HwType::Videotoolbox) => "scale_vt",
                Some(HwType::Rkmpp) => "scale_rkrga",
                Some(HwType::Amf) | Some(HwType::V4l2m2m) | None => "scale",
            },
            FilterBackend::OpenCL => "scale_opencl",
            FilterBackend::Vulkan => "scale_vulkan",
            FilterBackend::Software => "scale",
        }
    }

    pub open spec fn spec_tonemap_filter(self, decode_hw: Option<HwType>) -> Option<Seq<char>> {
        match (self, decode_hw) {
            (FilterBackend::OpenCL, _) => Some("tonemap_opencl"@),
            (FilterBackend::Vulkan, _) => Some("libplacebo"@),
            (FilterBackend::Native, Some(HwType::Cuda)) => Some("tonemap_cuda"@),
            (FilterBackend::Native, Some(HwType::Vaapi)) => Some("tonemap_vaapi"@),
            (FilterBackend::Native, Some(HwType::Videotoolbox)) => Some("tonemap_videotoolbox"@),
            (FilterBackend::Native, Some(HwType::Qsv)) => Some("vpp_qsv"@),
            _ => None,
        }
    }

    /// The tone mapping filter, where the backend has one.
    pub fn tonemap_filter(self, decode_hw: Option<HwType>) -> (r: Option<&'static str>)
        ensures
            same_name(r, self.spec_tonemap_filter(decode_hw)),
    {
        match self {
            FilterBackend::Native => match decode_hw {
                Some(HwType::Cuda) => Some("tonemap_cuda"),
                Some(HwType::Vaapi) => Some("tonemap_vaapi"),
                Some(HwType::Videotoolbox) => Some("tonemap_videotoolbox"),
                Some(HwType::Qsv) => Some("vpp_qsv"),
                _ => None,
            },
            FilterBackend::OpenCL => Some("tonemap_opencl"),
            FilterBackend::Vulkan => Some("libplacebo"),
            FilterBackend::Software => None,
        }
    }

    pub open spec fn spec_deinterlace_filter(self, decode_hw: Option<HwType>) -> Option<Seq<char>> {
        match (self, decode_hw) {
            (FilterBackend::OpenCL, _) => Some("yadif_opencl"@),
            (FilterBackend::Software, _) => Some("yadif"@),
            (FilterBackend::Native, Some(HwType::Cuda)) => Some("yadif_cuda"@),
            (FilterBackend::Native, Some(HwType::Vaapi)) => Some("deinterlace_vaapi"@),
            (FilterBackend::Native, Some(HwType::Qsv)) => Some("deinterlace_qsv"@),
            (FilterBackend::Native, Some(HwType::Videotoolbox)) => Some("yadif_videotoolbox"@),
            _ => None,
        }
    }

    /// The deinterlacing filter, where the backend has one.
    pub fn deinterlace_filter(self, decode_hw: Option<HwType>) -> (r: Option<&'static str>)
        ensures
            same_name(r, self.spec_deinterlace_filter(decode_hw)),
    {
        match self {
            FilterBackend::Native => match decode_hw {
                Some(HwType::Cuda) => Some("yadif_cuda"),
                Some(HwType::Vaapi) => Some("deinterlace_vaapi"),
                Some(HwType::Qsv) => Some("deinterlace_qsv"),
                Some(HwType::Videotoolbox) => Some("yadif_videotoolbox"),
                _ => None,
            },
            FilterBackend::OpenCL => Some("yadif_opencl"),
            FilterBackend::Vulkan => None,
            FilterBackend::Software => Some("yadif"),
        }
    }

    pub open spec fn spec_overlay_filter(self, decode_hw: Option<HwType>) -> Seq<char> {
        match (self, decode_hw) {
            (FilterBackend::OpenCL, _) => "overlay_opencl"@,
            (FilterBackend::Vulkan, _) => "overlay_vulkan"@,
            (FilterBackend::Native, Some(HwType::Cuda)) => "overlay_cuda"@,
            (FilterBackend::Native, Some(HwType::Vaapi)) => "overlay_vaapi"@,
            (FilterBackend::Native, Some(HwType::Qsv)) => "overlay_qsv"@,
            (FilterBackend::Native, Some(HwType::Videotoolbox)) => "overlay_videotoolbox"@,
            (FilterBackend::Native, Some(HwType::Rkmpp)) => "overlay_rkrga"@,
            _ => "overlay"@,
        }
    }

    /// The overlay filter.
    pub fn overlay_filter(self, decode_hw: Option<HwType>) -> (r: &'static str)
        ensures
            r@ == self.spec_overlay_filter(decode_hw),
    {
        match self {
            FilterBackend::Native => match decode_hw {
                Some(HwType::Cuda) => "overlay_cuda",
                Some(HwType::Vaapi) => "overlay_vaapi",
                Some(HwType::Qsv) => "overlay_qsv",
                Some(HwType::Videotoolbox) => "overlay_videotoolbox",
                Some(HwType::Rkmpp) => "overlay_rkrga",
                Some(HwType::Amf) | Some(HwType::V4l2m2m) | None => "overlay",
            },
            FilterBackend::OpenCL => "overlay_opencl",
            FilterBackend::Vulkan => "overlay_vulkan",
            FilterBackend::Software => "overlay",
        }
    }

    pub open spec fn spec_transpose_filter(self, decode_hw: Option<HwType>) -> Seq<char> {
        match (self, decode_hw) {
            (FilterBackend::OpenCL, _) => "transpose_opencl"@,
            (FilterBackend::Vulkan, _) => "transpose_vulkan"@,
            (FilterBackend::Native, Some(HwType::Cuda)) => "transpose_cuda"@,
            (FilterBackend::Native, Some(HwType::Vaapi)) => "transpose_vaapi"@,
            (FilterBackend::Native, Some(HwType::Videotoolbox)) => "transpose_vt"@,
            _ => "transpose"@,
        }
    }

    /// The transpose filter.
    pub fn transpose_filter(self, decode_hw: Option<HwType>) -> (r: &'static str)
        ensures
            r@ == self.spec_transpose_filter(decode_hw),
    {
        match self {
            FilterBackend::Native => match decode_hw {
                Some(HwType::Cuda) => "transpose_cuda",
                Some(HwType::Vaapi) => "transpose_vaapi",
                Some(HwType::Videotoolbox) => "transpose_vt",
                _ => "transpose",
            },
            FilterBackend::OpenCL => "transpose_opencl",
            FilterBackend::Vulkan => "transpose_vulkan",
            FilterBackend::Software => "transpose",
        }
    }

    pub open spec fn spec_device_type(self) -> Option<DeviceType> {
        match self {
            FilterBackend::OpenCL => Some(DeviceType::OpenCl),
            FilterBackend::Vulkan => Some(DeviceType::Vulkan),
            FilterBackend::Native | FilterBackend::Software => None,
        }
    }

    /// The device of its own that the backend filters on, where it has one.
    pub fn device_type(self) -> (r: Option<DeviceType>)
        ensures
            r == self.spec_device_type(),
    {
        match self {
            FilterBackend::OpenCL => Some(DeviceType::OpenCl),
            FilterBackend::Vulkan => Some(DeviceType::Vulkan),
            FilterBackend::Native | FilterBackend::Software => None,
        }
    }

    pub open spec fn spec_needs_hwmap(self) -> bool {
        self == FilterBackend::OpenCL || self == FilterBackend::Vulkan
    }

    /// Whether frames are mapped from the decode device to a filter device.
    pub fn needs_hwmap(self) -> (r: bool)
        ensures
            r == self.spec_needs_hwmap(),
            r == (self.spec_device_type() is Some),
    {
        matches!(self, FilterBackend::OpenCL | FilterBackend::Vulkan)
    }

    pub open spec fn spec_variant_name(self) -> Seq<char> {
        match self {
            FilterBackend::Native => "Native"@,
            FilterBackend::OpenCL => "OpenCL"@,
            FilterBackend::Vulkan => "Vulkan"@,
            FilterBackend::Software => "Software"@,
        }
    }

    /// The variant's name.
    pub fn variant_name(self) -> (r: &'static str)
        ensures
            r@ == self.spec_variant_name(),
    {
        match self {
            FilterBackend::Native => "Native",
            FilterBackend::OpenCL => "OpenCL",
            FilterBackend::Vulkan => "Vulkan",
            FilterBackend::Software => "Software",
        }
    }
}

/// An optional name holds the given characters.
pub open spec fn same_name(r: Option<&str>, name: Option<Seq<char>>) -> bool {
    match (r, name) {
        (Some(a), Some(b)) => a@ == b,
        (None, None) => true,
        _ => false,
    }
}

impl HwPipeline {
    pub open spec fn spec_is_unified(&self) -> bool {
        self.decode is Some && self.decode == self.encode && self.filter == FilterBackend::Native
    }

    /// True if decode and encode use the same device with its own filters (zero-copy path).
    pub fn is_unified(&self) -> (r: bool)
        ensures
            r == self.spec_is_unified(),
    {
        match (self.decode, self.encode) {
            (Some(d), Some(e)) => d == e && self.filter == FilterBackend::Native,
            _ => false,
        }
    }

    pub open spec fn spec_has_hw(&self) -> bool {
        self.decode is Some || self.encode is Some || self.filter == FilterBackend::OpenCL
            || self.filter == FilterBackend::Vulkan
    }

    /// True if any stage uses hardware. The native filter is on the decode device, so it adds
    /// nothing of its own.
    pub fn has_hw(&self) -> (r: bool)
        ensures
            r == self.spec_has_hw(),
    {
        self.decode.is_some() || self.encode.is_some() || self.filter == FilterBackend::OpenCL
            || self.filter == FilterBackend::Vulkan
    }

    /// The pixel format that the decoder outputs, where it is a hardware decoder.
    pub fn decode_pix_fmt(&self) -> (r: Option<PixelFormat>)
        ensures
            r == (match self.decode {
                Some(hw) => Some(hw.spec_pix_fmt()),
                None => None,
            }),
    {
        match self.decode {
            Some(hw) => Some(hw.pix_fmt()),
            None => None,
        }
    }

    /// The pixel format that the encoder expects, where it is a hardware encoder.
    pub fn encode_pix_fmt(&self) -> (r: Option<PixelFormat>)
        ensures
            r == (match self.encode {
                Some(hw) => Some(hw.spec_pix_fmt()),
                None => None,
            }),
    {
        match self.encode {
            Some(hw) => Some(hw.pix_fmt()),
            None => None,
        }
    }

    /// The scale filter of this pipeline.
    pub fn scale_filter(&self) -> (r: &'static str)
        ensures
            r@ == self.filter.spec_scale_filter(self.decode),
    {
        self.filter.scale_filter(self.decode)
    }

    /// Whether frames cross from the decode device to the filter device.
    pub fn needs_decode_to_filter_map(&self) -> (r: bool)
        ensures
            r == (self.filter.spec_needs_hwmap() && self.decode is Some),
    {
        match self.filter {
            FilterBackend::Native | FilterBackend::Software => false,
            FilterBackend::OpenCL | FilterBackend::Vulkan => self.decode.is_some(),
        }
    }

    /// Whether frames cross from the filter device to the encode device.
    pub fn needs_filter_to_encode_map(&self) -> (r: bool)
        ensures
            r == (self.filter.spec_needs_hwmap() && self.encode is Some),
    {
        match self.filter {
            FilterBackend::Native | FilterBackend::Software => false,
            FilterBackend::OpenCL | FilterBackend::Vulkan => self.encode.is_some(),
        }
    }

    pub open spec fn spec_describe(&self) -> Seq<char> {
        let dec = match self.decode {
            Some(d) => d.spec_variant_name(),
            None => "SW"@,
        };
        let enc = match self.encode {
            Some(e) => e.spec_variant_name() + "("@ + self.encoder_name@ + ")"@,
            None => self.encoder_name@,
        };
        dec + " → "@ + self.filter.spec_variant_name() + " → "@ + enc + " ["@
            + self.fallback.spec_label() + "]"@
    }

    /// One line that names the three stages and the fallback level.
    pub fn describe(&self) -> (r: String)
        ensures
            r@ == self.spec_describe(),
    {
        let mut out = String::new();
        match self.decode {
            Some(d) => out.append(d.variant_name()),
            None => out.append("SW"),
        }
        out.append(" → ");
        out.append(self.filter.variant_name());
        out.append(" → ");
        match self.encode {
            Some(e) => {
                out.append(e.variant_name());
                out.append("(");
                out.append(self.encoder_name.as_str());
                out.append(")");
            },
            None => out.append(self.encoder_name.as_str()),
        }
        out.append(" [");
        out.append(self.fallback.label());
        out.append("]");
        proof {
            assert(out@ =~= self.spec_describe());
        }
        out
    }
}

impl FallbackLevel {
    pub open spec fn spec_label(self) -> Seq<char> {
        match self {
            FallbackLevel::FullHw => "full-hw"@,
            FallbackLevel::CrossDevice => "cross-device"@,
            FallbackLevel::MixedSwDecode => "sw-decode"@,
            FallbackLevel::MixedHwDownload => "hw-download"@,
            FallbackLevel::Software => "software"@,
        }
    }

    /// A short name of the level.
    pub fn label(self) -> (r: &'static str)
        ensures
            r@ == self.spec_label(),
    {
        match self {
            FallbackLevel::FullHw => "full-hw",
            FallbackLevel::CrossDevice => "cross-device",
            FallbackLevel::MixedSwDecode => "sw-decode",
            FallbackLevel::MixedHwDownload => "hw-download",
            FallbackLevel::Software => "software",
        }
    }
}

/// Device contexts that are shared by all users of a backend: one per backend.
pub struct DevicePool<T> {
    entries: Vec<(HwType, T)>,
}

impl<T> View for DevicePool<T> {
    type V = Map<HwType, T>;

    closed spec fn view(&self) -> Map<HwType, T> {
        pool_map(self.entries@)
    }
}

/// The contexts by backend.
pub open spec fn pool_map<T>(entries: Seq<(HwType, T)>) -> Map<HwType, T>
    decreases entries.len(),
{
    if entries.len() == 0 {
        Map::empty()
    } else {
        pool_map(entries.drop_last()).insert(entries.last().0, entries.last().1)
    }
}

proof fn lemma_pool_map<T>(entries: Seq<(HwType, T)>, hw: HwType)
    requires
        forall|i: int, j: int|
            0 <= i < j < entries.len() ==> #[trigger] entries[i].0 != #[trigger] entries[j].0,
    ensures
        pool_map(entries).dom().contains(hw) <==> exists|i: int|
            0 <= i < entries.len() && #[trigger] entries[i].0 == hw,
        forall|i: int|
            0 <= i < entries.len() && #[trigger] entries[i].0 == hw ==> pool_map(entries)[hw]
                == entries[i].1,
    decreases entries.len(),
{
    if entries.len() > 0 {
        let before = entries.drop_last();
        assert forall|i: int, j: int|
            0 <= i < j < before.len() implies #[trigger] before[i].0 != #[trigger] before[j].0 by {
            assert(entries[i].0 != entries[j].0);
        }
        lemma_pool_map(before, hw);
        if pool_map(before).dom().contains(hw) {
            let i = choose|i: int| 0 <= i < before.len() && #[trigger] before[i].0 == hw;
            assert(entries[i].0 == hw);
        }
        assert forall|i: int| 0 <= i < entries.len() && #[trigger] entries[i].0 == hw implies pool_map(
            entries,
        )[hw] == entries[i].1 by {
            if i < before.len() {
                assert(before[i].0 == hw);
                assert(entries[i].0 != entries[entries.len() - 1].0);
            }
        }
        if exists|i: int| 0 <= i < entries.len() && #[trigger] entries[i].0 == hw {
            let i = choose|i: int| 0 <= i < entries.len() && #[trigger] entries[i].0 == hw;
            if i < before.len() {
                assert(before[i].0 == hw);
            }
        }
    }
}

impl<T> DevicePool<T> {
    /// No backend has two contexts.
    pub closed spec fn wf(&self) -> bool {
        forall|i: int, j: int|
            0 <= i < j < self.entries@.len() ==> #[trigger] self.entries@[i].0
                != #[trigger] self.entries@[j].0
    }

    /// The empty pool.
    pub fn new() -> (r: Self)
        ensures
            r.wf(),
            r@ == Map::<HwType, T>::empty(),
    {
        DevicePool { entries: Vec::new() }
    }

    /// The context of a backend, where there is one.
    pub fn get(&self, hw: HwType) -> (r: Option<&T>)
        requires
            self.wf(),
        ensures
            match r {
                Some(ctx) => self@.dom().contains(hw) && self@[hw] == *ctx,
                None => !self@.dom().contains(hw),
            },
    {
        let mut i: usize = 0;
        while i < self.entries.len()
            invariant
                self.wf(),
                i <= self.entries@.len(),
                forall|k: int| 0 <= k < i ==> #[trigger] self.entries@[k].0 != hw,
            decreases self.entries@.len() - i,
        {
            if self.entries[i].0 == hw {
                proof {
                    lemma_pool_map(self.entries@, hw);
                    assert(self.entries@[i as int].0 == hw);
                }
                return Some(&self.entries[i].1);
            }
            i = i + 1;
        }
        proof {
            lemma_pool_map(self.entries@, hw);
        }
        None
    }

    /// Keeps the context of a backend that has none yet.
    pub fn insert(&mut self, hw: HwType, ctx: T)
        requires
            old(self).wf(),
            !old(self)@.dom().contains(hw),
        ensures
            final(self).wf(),
            final(self)@ == old(self)@.insert(hw, ctx),
    {
        let ghost before = self.entries@;
        proof {
            lemma_pool_map(before, hw);
        }
        self.entries.push((hw, ctx));
        proof {
            assert(self.entries@.drop_last() =~= before);
        }
    }
}

/// What the automatic detection does next.
#[derive(Clone, Copy, Debug, PartialEq, Eq, Structural)]
pub enum DetectStep {
    /// Try to open this backend and report the outcome.
    Probe(HwType),
    /// This backend opened: use it.
    Found(HwType),
    /// No backend opened.
    Exhausted,
}

/// The backends in the order in which detection tries them.
pub open spec fn detection_order() -> Seq<HwType> {
    seq![
        HwType::Cuda,
        HwType::Vaapi,
        HwType::Qsv,
        HwType::Amf,
        HwType::Videotoolbox,
        HwType::Rkmpp,
        HwType::V4l2m2m,
    ]
}

/// One step of the automatic detection, given the outcomes of the probes made so far, in order:
/// the first backend that opened is taken; while none has, the next one is probed.
pub fn auto_detect(outcomes: &Vec<bool>) -> (r: DetectStep)
    requires
        outcomes@.len() <= 7,
    ensures
        match r {
            DetectStep::Found(hw) => exists|i: int|
                0 <= i < outcomes@.len() && #[trigger] outcomes@[i] && detection_order()[i] == hw
                    && forall|j: int| 0 <= j < i ==> !#[trigger] outcomes@[j],
            DetectStep::Probe(hw) => outcomes@.len() < 7 && detection_order()[outcomes@.len() as int]
                == hw && forall|j: int| 0 <= j < outcomes@.len() ==> !#[trigger] outcomes@[j],
            DetectStep::Exhausted => outcomes@.len() == 7 && forall|j: int|
                0 <= j < outcomes@.len() ==> !#[trigger] outcomes@[j],
        },
{
    let order = [
        HwType::Cuda,
        HwType::Vaapi,
        HwType::Qsv,
        HwType::Amf,
        HwType::Videotoolbox,
        HwType::Rkmpp,
        HwType::V4l2m2m,
    ];
    proof {
        assert(order@ =~= detection_order());
    }
    let mut i: usize = 0;
    while i < outcomes.len()
        invariant
            i <= outcomes@.len() <= 7,
            order@ == detection_order(),
            forall|j: int| 0 <= j < i ==> !#[trigger] outcomes@[j],
        decreases outcomes@.len() - i,
    {
        if outcomes[i] {
            return DetectStep::Found(order[i]);
        }
        i = i + 1;
    }
    if i < 7 {
        DetectStep::Probe(order[i])
    } else {
        DetectStep::Exhausted
    }
}

/// The level of a pipeline with these three stages.
pub open spec fn fallback_level(
    decode: Option<HwType>,
    filter: FilterBackend,
    encode: Option<HwType>,
) -> FallbackLevel {
    if encode is None {
        FallbackLevel::Software
    } else if decode is None {
        FallbackLevel::MixedSwDecode
    } else if filter == FilterBackend::Software {
        FallbackLevel::MixedHwDownload
    } else if filter == FilterBackend::Native && decode == encode {
        FallbackLevel::FullHw
    } else {
        FallbackLevel::CrossDevice
    }
}

/// The level of a pipeline with these three stages.
pub fn infer_fallback_level(
    decode: Option<HwType>,
    filter: FilterBackend,
    encode: Option<HwType>,
) -> (r: FallbackLevel)
    ensures
        r == fallback_level(decode, filter, encode),
{
    match (decode, encode) {
        (Some(d), Some(e)) => match filter {
            FilterBackend::Native => if d == e {
                FallbackLevel::FullHw
            } else {
                FallbackLevel::CrossDevice
            },
            FilterBackend::OpenCL | FilterBackend::Vulkan => FallbackLevel::CrossDevice,
            FilterBackend::Software => FallbackLevel::MixedHwDownload,
        },
        (None, Some(_)) => FallbackLevel::MixedSwDecode,
        (_, None) => FallbackLevel::Software,
    }
}

pub open spec fn filter_backend_named(s: Seq<char>) -> FilterBackend {
    if one_of(s, seq!["opencl"@, "ocl"@]) {
        FilterBackend::OpenCL
    } else if one_of(s, seq!["vulkan"@, "vk"@]) {
        FilterBackend::Vulkan
    } else if one_of(s, seq!["software"@, "sw"@, "cpu"@]) {
        FilterBackend::Software
    } else {
        FilterBackend::Native
    }
}

/// Whether `s` is one of up to three names.
fn named(s: &str, a: &str, b: &str, c: &str) -> (r: bool)
    ensures
        r == (s@ == a@ || s@ == b@ || s@ == c@),
{
    same(s, a) || same(s, b) || same(s, c)
}

proof fn lemma_one_of(s: Seq<char>, a: Seq<char>, b: Seq<char>, c: Seq<char>)
    ensures
        one_of(s, seq![a]) == (s == a),
        one_of(s, seq![a, b]) == (s == a || s == b),
        one_of(s, seq![a, b, c]) == (s == a || s == b || s == c),
{
    assert(seq![a][0] == a);
    assert(seq![a, b][0] == a);
    assert(seq![a, b][1] == b);
    assert(seq![a, b, c][0] == a);
    assert(seq![a, b, c][1] == b);
    assert(seq![a, b, c][2] == c);
}

/// The filter backend of a name; an unknown name means the native backend.
pub fn parse_filter_backend(s: &str) -> (r: FilterBackend)
    ensures
        r == filter_backend_named(s@),
{
    proof {
        lemma_one_of(s@, "opencl"@, "ocl"@, "ocl"@);
        lemma_one_of(s@, "vulkan"@, "vk"@, "vk"@);
        lemma_one_of(s@, "software"@, "sw"@, "cpu"@);
    }
    if named(s, "opencl", "ocl", "ocl") {
        FilterBackend::OpenCL
    } else if named(s, "vulkan", "vk", "vk") {
        FilterBackend::Vulkan
    } else if named(s, "software", "sw", "cpu") {
        FilterBackend::Software
    } else {
        FilterBackend::Native
    }
}

pub open spec fn hw_type_named(s: Seq<char>) -> Option<HwType> {
    if one_of(s, seq!["cuda"@, "nvenc"@, "nvidia"@]) {
        Some(HwType::Cuda)
    } else if one_of(s, seq!["vaapi"@]) {
        Some(HwType::Vaapi)
    } else if one_of(s, seq!["qsv"@, "quicksync"@]) {
        Some(HwType::Qsv)
    } else if one_of(s, seq!["amf"@, "amd"@]) {
        Some(HwType::Amf)
    } else if one_of(s, seq!["videotoolbox"@, "vt"@]) {
        Some(HwType::Videotoolbox)
    } else if one_of(s, seq!["rkmpp"@, "rockchip"@]) {
        Some(HwType::Rkmpp)
    } else if one_of(s, seq!["v4l2m2m"@, "v4l2"@]) {
        Some(HwType::V4l2m2m)
    } else {
        None
    }
}

/// The backend of a name.
pub fn parse_hw_type(s: &str) -> (r: Option<HwType>)
    ensures
        r == hw_type_named(s@),
{
    proof {
        lemma_one_of(s@, "cuda"@, "nvenc"@, "nvidia"@);
        lemma_one_of(s@, "vaapi"@, "vaapi"@, "vaapi"@);
        lemma_one_of(s@, "qsv"@, "quicksync"@, "quicksync"@);
        lemma_one_of(s@, "amf"@, "amd"@, "amd"@);
        lemma_one_of(s@, "videotoolbox"@, "vt"@, "vt"@);
        lemma_one_of(s@, "rkmpp"@, "rockchip"@, "rockchip"@);
        lemma_one_of(s@, "v4l2m2m"@, "v4l2"@, "v4l2"@);
    }
    if named(s, "cuda", "nvenc", "nvidia") {
        Some(HwType::Cuda)
    } else if same(s, "vaapi") {
        Some(HwType::Vaapi)
    } else if named(s, "qsv", "quicksync", "quicksync") {
        Some(HwType::Qsv)
    } else if named(s, "amf", "amd", "amd") {
        Some(HwType::Amf)
    } else if named(s, "videotoolbox", "vt", "vt") {
        Some(HwType::Videotoolbox)
    } else if named(s, "rkmpp", "rockchip", "rockchip") {
        Some(HwType::Rkmpp)
    } else if named(s, "v4l2m2m", "v4l2", "v4l2") {
        Some(HwType::V4l2m2m)
    } else {
        None
    }
}

/// The first backend, in this order, whose mark the codec name carries.
pub open spec fn hw_of_codec(codec: Seq<char>) -> Option<HwType> {
    if HwType::Cuda.spec_is_hw_encoder(codec) {
        Some(HwType::Cuda)
    } else if HwType::Vaapi.spec_is_hw_encoder(codec) {
        Some(HwType::Vaapi)
    } else if HwType::Qsv.spec_is_hw_encoder(codec) {
        Some(HwType::Qsv)
    } else if HwType::Amf.spec_is_hw_encoder(codec) {
        Some(HwType::Amf)
    } else if HwType::Videotoolbox.spec_is_hw_encoder(codec) {
        Some(HwType::Videotoolbox)
    } else if HwType::Rkmpp.spec_is_hw_encoder(codec) {
        Some(HwType::Rkmpp)
    } else if HwType::V4l2m2m.spec_is_hw_encoder(codec) {
        Some(HwType::V4l2m2m)
    } else {
        None
    }
}

/// The backend of an encoder name.
pub fn infer_hw_from_codec(codec: &str) -> (r: Option<HwType>)
    ensures
        r == hw_of_codec(codec@),
{
    if HwType::Cuda.is_hw_encoder(codec) {
        Some(HwType::Cuda)
    } else if HwType::Vaapi.is_hw_encoder(codec) {
        Some(HwType::Vaapi)
    } else if HwType::Qsv.is_hw_encoder(codec) {
        Some(HwType::Qsv)
    } else if HwType::Amf.is_hw_encoder(codec) {
        Some(HwType::Amf)
    } else if HwType::Videotoolbox.is_hw_encoder(codec) {
        Some(HwType::Videotoolbox)
    } else if HwType::Rkmpp.is_hw_encoder(codec) {
        Some(HwType::Rkmpp)
    } else if HwType::V4l2m2m.is_hw_encoder(codec) {
        Some(HwType::V4l2m2m)
    } else {
        None
    }
}

/// Whether the name belongs to some hardware encoder.
pub fn is_any_hw_encoder(codec: &str) -> (r: bool)
    ensures
        r == (hw_of_codec(codec@) is Some),
        r == exists|hw: HwType| #[trigger] hw.spec_is_hw_encoder(codec@),
{
    proof {
        law_inferred_backend_is_the_codecs(codec@);
    }
    infer_hw_from_codec(codec).is_some() || contains(codec, "v4l2m2m")
}

pub open spec fn software_codec(codec: Seq<char>) -> Seq<char> {
    if contains_text(codec, "hevc"@) || contains_text(codec, "h265"@) {
        "libx265"@
    } else if contains_text(codec, "av1"@) {
        "libsvtav1"@
    } else {
        "libx264"@
    }
}

/// The software encoder that stands in for `codec`.
pub fn software_fallback(codec: &str) -> (r: &'static str)
    ensures
        r@ == software_codec(codec@),
{
    if contains(codec, "hevc") || contains(codec, "h265") {
        "libx265"
    } else if contains(codec, "av1") {
        "libsvtav1"
    } else {
        "libx264"
    }
}

pub open spec fn encoder_codec_id(codec_name: Seq<char>) -> CodecId {
    if contains_text(codec_name, "hevc"@) || contains_text(codec_name, "h265"@) || codec_name
        == "libx265"@ {
        CodecId::Hevc
    } else if contains_text(codec_name, "av1"@) || codec_name == "libsvtav1"@ || codec_name
        == "libaom-av1"@ {
        CodecId::Av1
    } else {
        CodecId::H264
    }
}

/// The codec that an encoder of this name produces.
pub fn codec_id_for_encoder(codec_name: &str) -> (r: CodecId)
    ensures
        r == encoder_codec_id(codec_name@),
{
    if contains(codec_name, "hevc") || contains(codec_name, "h265") || same(codec_name, "libx265") {
        CodecId::Hevc
    } else if contains(codec_name, "av1") || same(codec_name, "libsvtav1") || same(
        codec_name,
        "libaom-av1",
    ) {
        CodecId::Av1
    } else {
        CodecId::H264
    }
}

pub open spec fn format_text(fmt: PixelFormat) -> Seq<char> {
    match fmt {
        PixelFormat::P010le => "p010le"@,
        PixelFormat::Yuv420p => "yuv420p"@,
        PixelFormat::Yuv420p10le => "yuv420p10le"@,
        _ => "nv12"@,
    }
}

/// The name of a format in filter arguments.
pub fn format_name(fmt: PixelFormat) -> (r: &'static str)
    ensures
        r@ == format_text(fmt),
{
    match fmt {
        PixelFormat::P010le => "p010le",
        PixelFormat::Yuv420p => "yuv420p",
        PixelFormat::Yuv420p10le => "yuv420p10le",
        _ => "nv12",
    }
}

/// The stages `decode`, `filter` and `encode` under this encoder name, with their level.
pub open spec fn is_pipeline(
    p: HwPipeline,
    decode: Option<HwType>,
    filter: FilterBackend,
    encode: Option<HwType>,
    encoder_name: Seq<char>,
) -> bool {
    &&& p.decode == decode
    &&& p.filter == filter
    &&& p.encode == encode
    &&& p.encoder_name@ == encoder_name
    &&& p.fallback == fallback_level(decode, filter, encode)
}

/// A pipeline from its parts.
pub fn build_pipeline(
    decode: Option<HwType>,
    filter: FilterBackend,
    encode: Option<HwType>,
    encoder_name: &str,
) -> (r: HwPipeline)
    ensures
        is_pipeline(r, decode, filter, encode, encoder_name@),
{
    HwPipeline {
        fallback: infer_fallback_level(decode, filter, encode),
        decode,
        filter,
        encode,
        encoder_name: encoder_name.to_owned(),
    }
}

/// A pipeline from an encoder name and optional backend names.
///
/// `decode_opt`: `None`, or an unknown name, means software decode. A caller that wants hardware
/// decode names the backend, because the hardware may not know the source codec.
/// `filter_opt`: `None` means the native backend.
pub fn resolve_pipeline(video_codec: &str, decode_opt: Option<&str>, filter_opt: Option<&str>) -> (r:
    HwPipeline)
    ensures
        is_pipeline(
            r,
            match decode_opt {
                Some(s) => hw_type_named(s@),
                None => None,
            },
            match filter_opt {
                Some(s) => filter_backend_named(s@),
                None => FilterBackend::Native,
            },
            hw_of_codec(video_codec@),
            video_codec@,
        ),
{
    let encode_hw = infer_hw_from_codec(video_codec);
    let decode_hw = match decode_opt {
        Some(s) => parse_hw_type(s),
        None => None,
    };
    let filter = match filter_opt {
        Some(f) => parse_filter_backend(f),
        None => FilterBackend::Native,
    };
    build_pipeline(decode_hw, filter, encode_hw, video_codec)
}

/// The best pipeline for an encoder name, given whether its backend opened when it was probed
/// (`opened`), and whether it opened when it was probed once more (`reopened`).
///
/// A backend that opens is used for every stage; one that opens only the second time is used for
/// encoding alone; otherwise the software encoder that stands in for the name takes over. It is
/// one of the same codec, but for the name `libx265`, whose stand-in is the H.264 encoder.
pub fn resolve_pipeline_with_fallback(video_codec: &str, opened: bool, reopened: bool) -> (r:
    HwPipeline)
    ensures
        match hw_of_codec(video_codec@) {
            Some(hw) if opened => is_pipeline(
                r,
                Some(hw),
                FilterBackend::Native,
                Some(hw),
                video_codec@,
            ),
            Some(hw) if reopened => is_pipeline(
                r,
                None,
                FilterBackend::Software,
                Some(hw),
                video_codec@,
            ),
            _ => is_pipeline(r, None, FilterBackend::Software, None, software_codec(video_codec@)),
        },
{
    match infer_hw_from_codec(video_codec) {
        Some(hw) => {
            if opened {
                return build_pipeline(Some(hw), FilterBackend::Native, Some(hw), video_codec);
            }
            if reopened {
                return build_pipeline(None, FilterBackend::Software, Some(hw), video_codec);
            }
        },
        None => {},
    }
    build_pipeline(None, FilterBackend::Software, None, software_fallback(video_codec))
}

/// The inferred backend is one whose mark the name carries, and one is inferred for every name
/// that carries a mark.
pub proof fn law_inferred_backend_is_the_codecs(codec: Seq<char>)
    ensures
        hw_of_codec(codec) matches Some(hw) ==> hw.spec_is_hw_encoder(codec),
        hw_of_codec(codec) is Some <==> exists|hw: HwType| #[trigger] hw.spec_is_hw_encoder(codec),
{
    if hw_of_codec(codec) is Some {
        let hw = hw_of_codec(codec)->0;
        assert(hw.spec_is_hw_encoder(codec));
    } else {
        assert forall|hw: HwType| !#[trigger] hw.spec_is_hw_encoder(codec) by {
            match hw {
                HwType::Cuda => {},
                HwType::Vaapi => {},
                HwType::Qsv => {},
                HwType::Amf => {},
                HwType::Videotoolbox => {},
                HwType::Rkmpp => {},
                HwType::V4l2m2m => {},
            }
        }
    }
}

/// A pipeline is at the full-hardware level exactly if it is unified, and at the software level
/// exactly if nothing encodes in hardware.
pub proof fn law_level_tells_the_stages(
    p: HwPipeline,
    decode: Option<HwType>,
    filter: FilterBackend,
    encode: Option<HwType>,
    encoder_name: Seq<char>,
)
    requires
        is_pipeline(p, decode, filter, encode, encoder_name),
    ensures
        p.fallback == FallbackLevel::FullHw <==> p.spec_is_unified(),
        p.fallback == FallbackLevel::Software <==> p.encode is None,
        p.fallback == FallbackLevel::MixedSwDecode <==> p.encode is Some && p.decode is None,
        p.fallback != FallbackLevel::Software ==> p.spec_has_hw(),
{
}

proof fn lemma_shorter_text_lacks(whole: Seq<char>, part: Seq<char>)
    requires
        whole.len() < part.len(),
    ensures
        !contains_text(whole, part),
{
}

/// The software encoder that stands in for a codec is no hardware encoder.
pub proof fn law_software_fallback_is_software(codec: Seq<char>)
    ensures
        hw_of_codec(software_codec(codec)) is None,
{
    reveal_strlit("libx264");
    reveal_strlit("libx265");
    reveal_strlit("libsvtav1");
    reveal_strlit("nvenc");
    reveal_strlit("cuvid");
    reveal_strlit("vaapi");
    reveal_strlit("qsv");
    reveal_strlit("amf");
    reveal_strlit("videotoolbox");
    reveal_strlit("rkmpp");
    reveal_strlit("v4l2m2m");
    let name = software_codec(codec);
    assert forall|at: int| !occurs_at(name, "nvenc"@, at) by {
        if occurs_at(name, "nvenc"@, at) {
            assert(name.subrange(at, at + 5)[0] == 'n');
        }
    }
    assert forall|at: int| !occurs_at(name, "cuvid"@, at) by {
        if occurs_at(name, "cuvid"@, at) {
            assert(name.subrange(at, at + 5)[0] == 'c');
        }
    }
    assert forall|at: int| !occurs_at(name, "vaapi"@, at) by {
        if occurs_at(name, "vaapi"@, at) {
            assert(name.subrange(at, at + 5)[0] == 'v');
            assert(name.subrange(at, at + 5)[1] == 'a');
        }
    }
    assert forall|at: int| !occurs_at(name, "qsv"@, at) by {
        if occurs_at(name, "qsv"@, at) {
            assert(name.subrange(at, at + 3)[0] == 'q');
        }
    }
    assert forall|at: int| !occurs_at(name, "amf"@, at) by {
        if occurs_at(name, "amf"@, at) {
            assert(name.subrange(at, at + 3)[1] == 'm');
        }
    }
    lemma_shorter_text_lacks(name, "videotoolbox"@);
    assert forall|at: int| !occurs_at(name, "rkmpp"@, at) by {
        if occurs_at(name, "rkmpp"@, at) {
            assert(name.subrange(at, at + 5)[0] == 'r');
        }
    }
    assert forall|at: int| !occurs_at(name, "v4l2m2m"@, at) by {
        if occurs_at(name, "v4l2m2m"@, at) {
            assert(name.subrange(at, at + 7)[5] == '2');
            assert(name.subrange(at, at + 7)[1] == '4');
        }
    }
}

/// The software encoder that stands in for a codec produces the same codec. The name `libx265`
/// is the exception: it counts as HEVC, and its stand-in is the H.264 encoder.
pub proof fn law_software_fallback_keeps_the_codec(codec: Seq<char>)
    requires
        codec != "libx265"@,
    ensures
        encoder_codec_id(software_codec(codec)) == encoder_codec_id(codec),
{
    reveal_strlit("libx264");
    reveal_strlit("libx265");
    reveal_strlit("libsvtav1");
    reveal_strlit("libaom-av1");
    reveal_strlit("hevc");
    reveal_strlit("h265");
    reveal_strlit("av1");
    assert("libsvtav1"@.subrange(6, 9) =~= "av1"@);
    assert(occurs_at("libsvtav1"@, "av1"@, 6));
    assert("libaom-av1"@.subrange(7, 10) =~= "av1"@);
    assert(occurs_at("libaom-av1"@, "av1"@, 7));
    let name = software_codec(codec);
    assert forall|at: int| name != "libx265"@ implies !occurs_at(name, "hevc"@, at) by {
        if occurs_at(name, "hevc"@, at) {
            assert(name.subrange(at, at + 4)[0] == 'h');
        }
    }
    assert forall|at: int| name != "libx265"@ implies !occurs_at(name, "h265"@, at) by {
        if occurs_at(name, "h265"@, at) {
            assert(name.subrange(at, at + 4)[0] == 'h');
        }
    }
    assert forall|at: int| !occurs_at("libx264"@, "av1"@, at) by {
        if occurs_at("libx264"@, "av1"@, at) {
            assert("libx264"@.subrange(at, at + 3)[0] == 'a');
        }
    }
    assert("libx264"@[6] != "libx265"@[6]);
    assert("libsvtav1"@.len() != "libx265"@.len());
    assert("libx264"@.len() != "libsvtav1"@.len());
    assert("libx264"@.len() != "libaom-av1"@.len());
}

/// The mark of a backend in a codec name makes the name one of that backend.
pub proof fn law_marks_name_their_backends(codec: Seq<char>)
    ensures
        HwType::Cuda.spec_is_hw_encoder(codec) <==> contains_text(codec, "nvenc"@) || contains_text(
            codec,
            "cuvid"@,
        ),
        HwType::Vaapi.spec_is_hw_encoder(codec) <==> contains_text(codec, "vaapi"@),
        HwType::Qsv.spec_is_hw_encoder(codec) <==> contains_text(codec, "qsv"@),
        HwType::Amf.spec_is_hw_encoder(codec) <==> contains_text(codec, "amf"@),
        HwType::Videotoolbox.spec_is_hw_encoder(codec) <==> contains_text(codec, "videotoolbox"@),
        HwType::Rkmpp.spec_is_hw_encoder(codec) <==> contains_text(codec, "rkmpp"@),
        HwType::V4l2m2m.spec_is_hw_encoder(codec) <==> contains_text(codec, "v4l2m2m"@),
{
}

/// A name that carries the mark of one backend alone is inferred to be of that backend, and a name
/// that carries none is of no backend.
pub proof fn law_single_mark_decides(codec: Seq<char>, hw: HwType)
    requires
        forall|other: HwType| other != hw ==> !#[trigger] other.spec_is_hw_encoder(codec),
    ensures
        hw.spec_is_hw_encoder(codec) ==> hw_of_codec(codec) == Some(hw),
        !hw.spec_is_hw_encoder(codec) ==> hw_of_codec(codec) is None,
{
    law_inferred_backend_is_the_codecs(codec);
    if hw.spec_is_hw_encoder(codec) {
        assert(hw_of_codec(codec) is Some);
        let found = hw_of_codec(codec)->0;
        assert(found.spec_is_hw_encoder(codec));
    } else if hw_of_codec(codec) is Some {
        let found = hw_of_codec(codec)->0;
        assert(found.spec_is_hw_encoder(codec));
    }
}

/// Ten-bit 4:2:0 sources keep ten bits on every device; only CUDA keeps full chroma; every other
/// source is laid out as NV12, on every device.
pub proof fn law_layouts_behind_devices(hw: HwType, src: PixelFormat)
    ensures
        hw.spec_sw_format(PixelFormat::Yuv420p10le) == PixelFormat::P010le,
        hw.spec_sw_format(PixelFormat::Yuv420p10be) == PixelFormat::P010le,
        hw.spec_sw_format(src) == PixelFormat::P010le ==> src == PixelFormat::Yuv420p10le || src
            == PixelFormat::Yuv420p10be,
        HwType::Cuda.spec_sw_format(PixelFormat::Yuv444p) == PixelFormat::Yuv444p,
        HwType::Cuda.spec_sw_format(PixelFormat::Yuv444p10le) == PixelFormat::Yuv444p16le,
        hw != HwType::Cuda ==> hw.spec_sw_format(src) == PixelFormat::P010le || hw.spec_sw_format(src)
            == PixelFormat::Nv12,
        src != PixelFormat::Yuv420p10le && src != PixelFormat::Yuv420p10be && src
            != PixelFormat::Yuv444p && src != PixelFormat::Yuv444p10le ==> hw.spec_sw_format(src)
            == PixelFormat::Nv12,
{
}

/// Each device has its own kind of frame and of device context; the two ARM backends share theirs,
/// and AMF works on Direct3D.
pub proof fn law_devices_and_their_frames(a: HwType, b: HwType)
    ensures
        a.spec_pix_fmt() == b.spec_pix_fmt() <==> a.spec_device_type() == b.spec_device_type(),
        a != b && a.spec_pix_fmt() == b.spec_pix_fmt() ==> (a == HwType::Rkmpp || a
            == HwType::V4l2m2m) && (b == HwType::Rkmpp || b == HwType::V4l2m2m),
        HwType::Rkmpp.spec_pix_fmt() == PixelFormat::DrmPrime,
        HwType::V4l2m2m.spec_pix_fmt() == PixelFormat::DrmPrime,
        HwType::Rkmpp.spec_device_type() == DeviceType::Drm,
        HwType::V4l2m2m.spec_device_type() == DeviceType::Drm,
        HwType::Cuda.spec_pix_fmt() == PixelFormat::Cuda,
        HwType::Cuda.spec_device_type() == DeviceType::Cuda,
        HwType::Vaapi.spec_pix_fmt() == PixelFormat::Vaapi,
        HwType::Vaapi.spec_device_type() == DeviceType::Vaapi,
        HwType::Qsv.spec_pix_fmt() == PixelFormat::Qsv,
        HwType::Qsv.spec_device_type() == DeviceType::Qsv,
        HwType::Amf.spec_pix_fmt() == PixelFormat::D3d11,
        HwType::Amf.spec_device_type() == DeviceType::D3d11va,
        HwType::Videotoolbox.spec_pix_fmt() == PixelFormat::Videotoolbox,
        HwType::Videotoolbox.spec_device_type() == DeviceType::Videotoolbox,
{
}

/// The filters of the native backend are those of the decode device, and plain ones where the
/// device has none; the other backends have their own, whatever decoded the frames.
pub proof fn law_filters_are_those_of_the_device(hw: Option<HwType>)
    ensures
        ({
            let n = FilterBackend::Native;
            &&& n.spec_scale_filter(Some(HwType::Cuda)) == "scale_cuda"@
            &&& n.spec_scale_filter(Some(HwType::Vaapi)) == "scale_vaapi"@
            &&& n.spec_scale_filter(Some(HwType::Qsv)) == "scale_qsv"@
            &&& n.spec_scale_filter(Some(HwType::Videotoolbox)) == "scale_vt"@
            &&& n.spec_scale_filter(Some(HwType::Rkmpp)) == "scale_rkrga"@
            &&& n.spec_scale_filter(Some(HwType::Amf)) == "scale"@
            &&& n.spec_scale_filter(Some(HwType::V4l2m2m)) == "scale"@
            &&& n.spec_scale_filter(None) == "scale"@
            &&& n.spec_tonemap_filter(Some(HwType::Cuda)) == Some("tonemap_cuda"@)
            &&& n.spec_tonemap_filter(Some(HwType::Vaapi)) == Some("tonemap_vaapi"@)
            &&& n.spec_tonemap_filter(Some(HwType::Videotoolbox)) == Some("tonemap_videotoolbox"@)
            &&& n.spec_tonemap_filter(Some(HwType::Qsv)) == Some("vpp_qsv"@)
            &&& n.spec_tonemap_filter(Some(HwType::Rkmpp)) is None
            &&& n.spec_tonemap_filter(Some(HwType::Amf)) is None
            &&& n.spec_tonemap_filter(Some(HwType::V4l2m2m)) is None
            &&& n.spec_tonemap_filter(None) is None
            &&& n.spec_deinterlace_filter(Some(HwType::Cuda)) == Some("yadif_cuda"@)
            &&& n.spec_deinterlace_filter(Some(HwType::Vaapi)) == Some("deinterlace_vaapi"@)
            &&& n.spec_deinterlace_filter(Some(HwType::Qsv)) == Some("deinterlace_qsv"@)
            &&& n.spec_deinterlace_filter(Some(HwType::Videotoolbox)) == Some(
                "yadif_videotoolbox"@,
            )
            &&& n.spec_deinterlace_filter(Some(HwType::Rkmpp)) is None
            &&& n.spec_deinterlace_filter(Some(HwType::Amf)) is None
            &&& n.spec_deinterlace_filter(Some(HwType::V4l2m2m)) is None
            &&& n.spec_deinterlace_filter(None) is None
            &&& n.spec_overlay_filter(Some(HwType::Cuda)) == "overlay_cuda"@
            &&& n.spec_overlay_filter(Some(HwType::Vaapi)) == "overlay_vaapi"@
            &&& n.spec_overlay_filter(Some(HwType::Qsv)) == "overlay_qsv"@
            &&& n.spec_overlay_filter(Some(HwType::Videotoolbox)) == "overlay_videotoolbox"@
            &&& n.spec_overlay_filter(Some(HwType::Rkmpp)) == "overlay_rkrga"@
            &&& n.spec_overlay_filter(Some(HwType::Amf)) == "overlay"@
            &&& n.spec_overlay_filter(Some(HwType::V4l2m2m)) == "overlay"@
            &&& n.spec_overlay_filter(None) == "overlay"@
            &&& n.spec_transpose_filter(Some(HwType::Cuda)) == "transpose_cuda"@
            &&& n.spec_transpose_filter(Some(HwType::Vaapi)) == "transpose_vaapi"@
            &&& n.spec_transpose_filter(Some(HwType::Videotoolbox)) == "transpose_vt"@
            &&& n.spec_transpose_filter(Some(HwType::Qsv)) == "transpose"@
            &&& n.spec_transpose_filter(Some(HwType::Rkmpp)) == "transpose"@
            &&& n.spec_transpose_filter(Some(HwType::Amf)) == "transpose"@
            &&& n.spec_transpose_filter(Some(HwType::V4l2m2m)) == "transpose"@
            &&& n.spec_transpose_filter(None) == "transpose"@
        }),
        FilterBackend::OpenCL.spec_scale_filter(hw) == "scale_opencl"@,
        FilterBackend::OpenCL.spec_tonemap_filter(hw) == Some("tonemap_opencl"@),
        FilterBackend::OpenCL.spec_deinterlace_filter(hw) == Some("yadif_opencl"@),
        FilterBackend::OpenCL.spec_overlay_filter(hw) == "overlay_opencl"@,
        FilterBackend::OpenCL.spec_transpose_filter(hw) == "transpose_opencl"@,
        FilterBackend::Vulkan.spec_scale_filter(hw) == "scale_vulkan"@,
        FilterBackend::Vulkan.spec_tonemap_filter(hw) == Some("libplacebo"@),
        FilterBackend::Vulkan.spec_deinterlace_filter(hw) is None,
        FilterBackend::Vulkan.spec_overlay_filter(hw) == "overlay_vulkan"@,
        FilterBackend::Vulkan.spec_transpose_filter(hw) == "transpose_vulkan"@,
        FilterBackend::Software.spec_scale_filter(hw) == "scale"@,
        FilterBackend::Software.spec_tonemap_filter(hw) is None,
        FilterBackend::Software.spec_deinterlace_filter(hw) == Some("yadif"@),
        FilterBackend::Software.spec_overlay_filter(hw) == "overlay"@,
        FilterBackend::Software.spec_transpose_filter(hw) == "transpose"@,
{
}

/// Frames are mapped to another device exactly for the two backends that filter on a device of
/// their own, and only from and to stages that are on hardware.
pub proof fn law_bridges_are_where_devices_differ(p: HwPipeline, to_filter: bool, to_encode: bool)
    requires
        call_ensures(HwPipeline::needs_decode_to_filter_map, (&p,), to_filter),
        call_ensures(HwPipeline::needs_filter_to_encode_map, (&p,), to_encode),
    ensures
        to_filter <==> (p.filter == FilterBackend::OpenCL || p.filter == FilterBackend::Vulkan)
            && p.decode is Some,
        to_encode <==> (p.filter == FilterBackend::OpenCL || p.filter == FilterBackend::Vulkan)
            && p.encode is Some,
        p.filter.spec_needs_hwmap() <==> p.filter == FilterBackend::OpenCL || p.filter
            == FilterBackend::Vulkan,
        FilterBackend::OpenCL.spec_device_type() == Some(DeviceType::OpenCl),
        FilterBackend::Vulkan.spec_device_type() == Some(DeviceType::Vulkan),
        FilterBackend::Native.spec_device_type() is None,
        FilterBackend::Software.spec_device_type() is None,
{
}

/// A pipeline is what was asked for, stage by stage, and its level follows from its stages.
pub proof fn law_pipeline_is_as_asked(
    p: HwPipeline,
    decode: Option<HwType>,
    filter: FilterBackend,
    encode: Option<HwType>,
    encoder_name: Seq<char>,
)
    requires
        is_pipeline(p, decode, filter, encode, encoder_name),
    ensures
        p.decode == decode,
        p.filter == filter,
        p.encode == encode,
        p.encoder_name@ == encoder_name,
        encode is None <==> p.fallback == FallbackLevel::Software,
        encode is Some && decode is None <==> p.fallback == FallbackLevel::MixedSwDecode,
        encode is Some && decode is Some && filter == FilterBackend::Software <==> p.fallback
            == FallbackLevel::MixedHwDownload,
        encode is Some && decode == encode && filter == FilterBackend::Native <==> p.fallback
            == FallbackLevel::FullHw,
        encode is Some && decode is Some && (filter == FilterBackend::OpenCL || filter
            == FilterBackend::Vulkan || (filter == FilterBackend::Native && decode != encode))
            <==> p.fallback == FallbackLevel::CrossDevice,
        p.spec_has_hw() <==> decode is Some || encode is Some || filter == FilterBackend::OpenCL
            || filter == FilterBackend::Vulkan,
        p.spec_is_unified() <==> decode is Some && decode == encode && filter
            == FilterBackend::Native,
{
}

/// A pipeline that is resolved from names has the backends of those names: software decode where
/// no decoder or an unknown one is named, native filters where no filter or an unknown one is
/// named, and the backend whose mark the encoder name carries.
pub proof fn law_names_are_resolved(
    video_codec: &str,
    decode_opt: Option<&str>,
    filter_opt: Option<&str>,
    p: HwPipeline,
)
    requires
        call_ensures(resolve_pipeline, (video_codec, decode_opt, filter_opt), p),
    ensures
        p.encoder_name@ == video_codec@,
        p.encode == hw_of_codec(video_codec@),
        decode_opt is None ==> p.decode is None,
        decode_opt is Some ==> p.decode == hw_type_named(decode_opt->0@),
        filter_opt is None ==> p.filter == FilterBackend::Native,
        filter_opt is Some ==> p.filter == filter_backend_named(filter_opt->0@),
{
}

/// A backend that opens at once is used for all stages; one that opens only at the second try
/// encodes alone; without it, or without a backend of the encoder's name, everything is software.
pub proof fn law_fallback_goes_by_what_opens(
    video_codec: &str,
    opened: bool,
    reopened: bool,
    p: HwPipeline,
)
    requires
        call_ensures(resolve_pipeline_with_fallback, (video_codec, opened, reopened), p),
    ensures
        hw_of_codec(video_codec@) is Some && opened ==> p.fallback == FallbackLevel::FullHw && p.encode
            == hw_of_codec(video_codec@) && p.encoder_name@ == video_codec@,
        hw_of_codec(video_codec@) is Some && !opened && reopened ==> p.decode is None && p.filter
            == FilterBackend::Software && p.encode == hw_of_codec(video_codec@)
            && p.encoder_name@ == video_codec@,
        hw_of_codec(video_codec@) is None || (!opened && !reopened) ==> p.fallback
            == FallbackLevel::Software && p.decode is None && p.encode is None && p.filter
            == FilterBackend::Software && p.encoder_name@ == software_codec(video_codec@),
{
}

/// Names of backends and their aliases; any other name is none.
pub proof fn law_aliases_of_backends(s: Seq<char>)
    ensures
        hw_type_named(s) == Some(HwType::Cuda) <==> s == "cuda"@ || s == "nvenc"@ || s == "nvidia"@,
        hw_type_named(s) == Some(HwType::Vaapi) <==> s == "vaapi"@,
        hw_type_named(s) == Some(HwType::Qsv) <==> s == "qsv"@ || s == "quicksync"@,
        hw_type_named(s) == Some(HwType::Amf) <==> s == "amf"@ || s == "amd"@,
        hw_type_named(s) == Some(HwType::Videotoolbox) <==> s == "videotoolbox"@ || s == "vt"@,
        hw_type_named(s) == Some(HwType::Rkmpp) <==> s == "rkmpp"@ || s == "rockchip"@,
        hw_type_named(s) == Some(HwType::V4l2m2m) <==> s == "v4l2m2m"@ || s == "v4l2"@,
        filter_backend_named(s) == FilterBackend::OpenCL <==> s == "opencl"@ || s == "ocl"@,
        filter_backend_named(s) == FilterBackend::Vulkan <==> s == "vulkan"@ || s == "vk"@,
        filter_backend_named(s) == FilterBackend::Software <==> s == "software"@ || s == "sw"@ || s
            == "cpu"@,
{
    lemma_one_of(s, "cuda"@, "nvenc"@, "nvidia"@);
    lemma_one_of(s, "vaapi"@, "vaapi"@, "vaapi"@);
    lemma_one_of(s, "qsv"@, "quicksync"@, "quicksync"@);
    lemma_one_of(s, "amf"@, "amd"@, "amd"@);
    lemma_one_of(s, "videotoolbox"@, "vt"@, "vt"@);
    lemma_one_of(s, "rkmpp"@, "rockchip"@, "rockchip"@);
    lemma_one_of(s, "v4l2m2m"@, "v4l2"@, "v4l2"@);
    lemma_one_of(s, "opencl"@, "ocl"@, "ocl"@);
    lemma_one_of(s, "vulkan"@, "vk"@, "vk"@);
    lemma_one_of(s, "software"@, "sw"@, "cpu"@);
    reveal_strlit("cuda");
    reveal_strlit("nvenc");
    reveal_strlit("nvidia");
    reveal_strlit("vaapi");
    reveal_strlit("qsv");
    reveal_strlit("quicksync");
    reveal_strlit("amf");
    reveal_strlit("amd");
    reveal_strlit("videotoolbox");
    reveal_strlit("vt");
    reveal_strlit("rkmpp");
    reveal_strlit("rockchip");
    reveal_strlit("v4l2m2m");
    reveal_strlit("v4l2");
    reveal_strlit("opencl");
    reveal_strlit("ocl");
    reveal_strlit("vulkan");
    reveal_strlit("vk");
    reveal_strlit("software");
    reveal_strlit("sw");
    reveal_strlit("cpu");
    let t = (s.len(), s[0], s[1]);
}

/// The codec of an encoder goes by its name: a mark of HEVC comes before one of AV1, and an
/// encoder with neither is one of H.264. Its software stand-in goes by the same marks.
pub proof fn law_codec_goes_by_the_name(name: Seq<char>)
    ensures
        contains_text(name, "hevc"@) || contains_text(name, "h265"@) ==> encoder_codec_id(name)
            == CodecId::Hevc && software_codec(name) == "libx265"@,
        !(contains_text(name, "hevc"@) || contains_text(name, "h265"@)) && contains_text(
            name,
            "av1"@,
        ) && name != "libx265"@ ==> encoder_codec_id(name) == CodecId::Av1 && software_codec(name)
            == "libsvtav1"@,
        !contains_text(name, "hevc"@) && !contains_text(name, "h265"@) && !contains_text(
            name,
            "av1"@,
        ) ==> software_codec(name) == "libx264"@,
        !contains_text(name, "hevc"@) && !contains_text(name, "h265"@) && !contains_text(
            name,
            "av1"@,
        ) && name != "libx265"@ && name != "libsvtav1"@ && name != "libaom-av1"@
            ==> encoder_codec_id(name) == CodecId::H264,
        encoder_codec_id("libx265"@) == CodecId::Hevc,
{
}

/// Formats that filters are told about go by their own names, and every other format by NV12.
pub proof fn law_formats_go_by_their_names(fmt: PixelFormat)
    ensures
        format_text(PixelFormat::P010le) == "p010le"@,
        format_text(PixelFormat::Yuv420p) == "yuv420p"@,
        format_text(PixelFormat::Yuv420p10le) == "yuv420p10le"@,
        fmt != PixelFormat::P010le && fmt != PixelFormat::Yuv420p && fmt != PixelFormat::Yuv420p10le
            ==> format_text(fmt) == "nv12"@,
{
}

/// Detection tries every backend once, CUDA first, and stops at the first that opens.
pub proof fn law_detection_tries_every_backend(hw: HwType, outcomes: Vec<bool>, step: DetectStep)
    requires
        outcomes@.len() <= 7,
        call_ensures(auto_detect, (&outcomes,), step),
    ensures
        detection_order().contains(hw),
        detection_order().no_duplicates(),
        detection_order()[0] == HwType::Cuda,
        step is Found <==> outcomes@.contains(true),
        step is Exhausted <==> outcomes@.len() == 7 && !outcomes@.contains(true),
{
    let d = detection_order();
    assert(d[0] == HwType::Cuda && d[1] == HwType::Vaapi && d[2] == HwType::Qsv && d[3]
        == HwType::Amf && d[4] == HwType::Videotoolbox && d[5] == HwType::Rkmpp && d[6]
        == HwType::V4l2m2m);
    if outcomes@.contains(true) {
        let i = choose|i: int| 0 <= i < outcomes@.len() && outcomes@[i] == true;
        assert(outcomes@[i]);
    }
}

/// Backends, filter backends and fallback levels are shown under their own names.
pub proof fn law_backends_are_shown_by_name(hw: HwType, filter: FilterBackend, level: FallbackLevel)
    ensures
        hw == HwType::Cuda ==> hw.spec_display_name() == "NVIDIA CUDA"@ && hw.spec_variant_name()
            == "Cuda"@,
        hw == HwType::Vaapi ==> hw.spec_display_name() == "VAAPI"@ && hw.spec_variant_name()
            == "Vaapi"@,
        hw == HwType::Qsv ==> hw.spec_display_name() == "Intel QSV"@ && hw.spec_variant_name()
            == "Qsv"@,
        hw == HwType::Amf ==> hw.spec_display_name() == "AMD AMF"@ && hw.spec_variant_name()
            == "Amf"@,
        hw == HwType::Videotoolbox ==> hw.spec_display_name() == "Apple VideoToolbox"@
            && hw.spec_variant_name() == "Videotoolbox"@,
        hw == HwType::Rkmpp ==> hw.spec_display_name() == "Rockchip RKMPP"@
            && hw.spec_variant_name() == "Rkmpp"@,
        hw == HwType::V4l2m2m ==> hw.spec_display_name() == "V4L2M2M"@ && hw.spec_variant_name()
            == "V4l2m2m"@,
        filter == FilterBackend::Native ==> filter.spec_variant_name() == "Native"@,
        filter == FilterBackend::OpenCL ==> filter.spec_variant_name() == "OpenCL"@,
        filter == FilterBackend::Vulkan ==> filter.spec_variant_name() == "Vulkan"@,
        filter == FilterBackend::Software ==> filter.spec_variant_name() == "Software"@,
        level == FallbackLevel::FullHw ==> level.spec_label() == "full-hw"@,
        level == FallbackLevel::CrossDevice ==> level.spec_label() == "cross-device"@,
        level == FallbackLevel::MixedSwDecode ==> level.spec_label() == "sw-decode"@,
        level == FallbackLevel::MixedHwDownload ==> level.spec_label() == "hw-download"@,
        level == FallbackLevel::Software ==> level.spec_label() == "software"@,
{
}

/// The line on a pipeline names decoder, filters and encoder in the order that frames take, then
/// the level; software stages are named as such, and a hardware encoder by its backend and name.
pub proof fn law_pipeline_is_described_in_order(p: HwPipeline, d: HwType, e: HwType)
    ensures
        p.decode == Some(d) && p.encode == Some(e) ==> p.spec_describe() == d.spec_variant_name()
            + " \u{2192} "@ + p.filter.spec_variant_name() + " \u{2192} "@ + (
        e.spec_variant_name() + "("@ + p.encoder_name@ + ")"@) + " ["@ + p.fallback.spec_label()
            + "]"@,
        p.decode is None && p.encode is None ==> p.spec_describe() == "SW"@ + " \u{2192} "@
            + p.filter.spec_variant_name() + " \u{2192} "@ + p.encoder_name@ + " ["@
            + p.fallback.spec_label() + "]"@,
        p.decode is None && p.encode == Some(e) ==> p.spec_describe() == "SW"@ + " \u{2192} "@
            + p.filter.spec_variant_name() + " \u{2192} "@ + (e.spec_variant_name() + "("@
            + p.encoder_name@ + ")"@) + " ["@ + p.fallback.spec_label() + "]"@,
{
}

/// A device that is put in the pool replaces that of its own backend and no other.
pub proof fn law_pool_keeps_one_device_per_backend<T>(
    entries: Seq<(HwType, T)>,
    hw: HwType,
    device: T,
    other: HwType,
)
    ensures
        !pool_map(Seq::<(HwType, T)>::empty()).dom().contains(other),
        pool_map(entries.push((hw, device))).dom().contains(hw),
        pool_map(entries.push((hw, device)))[hw] == device,
        other != hw ==> (pool_map(entries.push((hw, device))).dom().contains(other) <==> pool_map(
            entries,
        ).dom().contains(other)) && pool_map(entries.push((hw, device)))[other] == pool_map(
            entries,
        )[other],
{
    assert(entries.push((hw, device)).drop_last() =~= entries);
}

/// Every device but the two ARM backends takes ten bits; the frames of a pipeline are those of its
/// decode device before the filters and of its encode device behind them.
pub proof fn law_frames_of_a_pipeline(
    hw: HwType,
    p: HwPipeline,
    ten_bits: bool,
    decoded: Option<PixelFormat>,
    encoded: Option<PixelFormat>,
)
    requires
        call_ensures(HwType::accepts_p010, (hw,), ten_bits),
        call_ensures(HwPipeline::decode_pix_fmt, (&p,), decoded),
        call_ensures(HwPipeline::encode_pix_fmt, (&p,), encoded),
    ensures
        ten_bits <==> hw != HwType::Rkmpp && hw != HwType::V4l2m2m,
        p.decode == Some(hw) ==> decoded == Some(hw.spec_pix_fmt()),
        p.decode is None ==> decoded is None,
        p.encode == Some(hw) ==> encoded == Some(hw.spec_pix_fmt()),
        p.encode is None ==> encoded is None,
{
}

} // verus!
