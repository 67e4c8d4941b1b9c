use tokimo_ffmpeg::model::{CodecId, DeviceType, PixelFormat};
use tokimo_ffmpeg::transcode::hw::{
    auto_detect, build_pipeline, codec_id_for_encoder, format_name, infer_fallback_level,
    infer_hw_from_codec, is_any_hw_encoder, parse_filter_backend, parse_hw_type, resolve_pipeline,
    resolve_pipeline_with_fallback, software_fallback, DetectStep, DevicePool, FallbackLevel,
    FilterBackend, HwType,
};

const ALL: [HwType; 7] = [
    HwType::Cuda,
    HwType::Vaapi,
    HwType::Qsv,
    HwType::Amf,
    HwType::Videotoolbox,
    HwType::Rkmpp,
    HwType::V4l2m2m,
];

#[test]
fn device_tables() {
    assert_eq!(HwType::Amf.device_type(), DeviceType::D3d11va);
    assert_eq!(HwType::V4l2m2m.device_type(), DeviceType::Drm);
    assert_eq!(HwType::Cuda.pix_fmt(), PixelFormat::Cuda);
    assert_eq!(HwType::Rkmpp.pix_fmt(), PixelFormat::DrmPrime);
    assert_eq!(HwType::Videotoolbox.display_name(), "Apple VideoToolbox");
    assert!(HwType::Qsv.accepts_p010());
    assert!(!HwType::Rkmpp.accepts_p010());
    assert!(!HwType::V4l2m2m.accepts_p010());
}

#[test]
fn software_layouts() {
    assert_eq!(HwType::Cuda.sw_format(PixelFormat::Yuv444p10le), PixelFormat::Yuv444p16le);
    assert_eq!(HwType::Cuda.sw_format(PixelFormat::Yuv444p), PixelFormat::Yuv444p);
    assert_eq!(HwType::Vaapi.sw_format(PixelFormat::Yuv444p), PixelFormat::Nv12);
    assert_eq!(HwType::Vaapi.sw_format(PixelFormat::Yuv420p10be), PixelFormat::P010le);
    assert_eq!(HwType::Qsv.sw_format(PixelFormat::Other(3)), PixelFormat::Nv12);
}

#[test]
fn filter_tables() {
    let n = FilterBackend::Native;
    assert_eq!(n.scale_filter(Some(HwType::Videotoolbox)), "scale_vt");
    assert_eq!(HwType::Rkmpp.scale_filter(), "scale_rkrga");
    assert_eq!(n.scale_filter(None), "scale");
    assert_eq!(n.tonemap_filter(Some(HwType::Qsv)), Some("vpp_qsv"));
    assert_eq!(n.tonemap_filter(Some(HwType::Amf)), None);
    assert_eq!(FilterBackend::Vulkan.tonemap_filter(None), Some("libplacebo"));
    assert_eq!(FilterBackend::Vulkan.deinterlace_filter(None), None);
    assert_eq!(FilterBackend::Software.deinterlace_filter(None), Some("yadif"));
    assert_eq!(n.overlay_filter(Some(HwType::Cuda)), "overlay_cuda");
    assert_eq!(n.transpose_filter(Some(HwType::Qsv)), "transpose");
    assert_eq!(FilterBackend::OpenCL.transpose_filter(None), "transpose_opencl");
    assert_eq!(FilterBackend::OpenCL.device_type(), Some(DeviceType::OpenCl));
    assert!(!n.needs_hwmap());
    assert_eq!(format_name(PixelFormat::Yuv420p10le), "yuv420p10le");
    assert_eq!(format_name(PixelFormat::Cuda), "nv12");
}

#[test]
fn pipeline_from_parts() {
    let p = build_pipeline(Some(HwType::Cuda), FilterBackend::Native, Some(HwType::Cuda), "hevc_nvenc");
    assert_eq!(p.fallback, FallbackLevel::FullHw);
    assert!(p.is_unified());
    assert_eq!(p.describe(), "Cuda → Native → Cuda(hevc_nvenc) [full-hw]");
    assert_eq!(p.decode_pix_fmt(), Some(PixelFormat::Cuda));
    let p = build_pipeline(Some(HwType::Vaapi), FilterBackend::OpenCL, Some(HwType::Qsv), "hevc_qsv");
    assert_eq!(p.fallback, FallbackLevel::CrossDevice);
    assert!(p.needs_decode_to_filter_map() && p.needs_filter_to_encode_map());
    let p = build_pipeline(None, FilterBackend::Software, None, "libx264");
    assert_eq!(p.describe(), "SW → Software → libx264 [software]");
    assert!(!p.has_hw());
    assert_eq!(p.encode_pix_fmt(), None);
    assert!(!build_pipeline(None, FilterBackend::Native, None, "libx264").has_hw());
    assert!(build_pipeline(None, FilterBackend::OpenCL, None, "libx264").has_hw());
    assert!(build_pipeline(None, FilterBackend::Vulkan, None, "libx264").has_hw());
    assert!(build_pipeline(Some(HwType::Cuda), FilterBackend::Software, None, "libx264").has_hw());
    assert!(build_pipeline(None, FilterBackend::Software, Some(HwType::Amf), "h264_amf").has_hw());
}

#[test]
fn pipeline_from_names() {
    let p = resolve_pipeline("h264_nvenc", Some("nvidia"), None);
    assert_eq!(p.describe(), "Cuda → Native → Cuda(h264_nvenc) [full-hw]");
    let p = resolve_pipeline("h264_nvenc", None, None);
    assert_eq!(p.describe(), "SW → Native → Cuda(h264_nvenc) [sw-decode]");
    let p = resolve_pipeline("hevc_qsv", Some("vaapi"), Some("ocl"));
    assert_eq!(p.fallback, FallbackLevel::CrossDevice);
    let p = resolve_pipeline("hevc_qsv", Some("qsv"), Some("cpu"));
    assert_eq!(p.fallback.label(), "hw-download");
    let p = resolve_pipeline("libx264", Some("toaster"), Some("whatever"));
    assert_eq!(p.describe(), "SW → Native → libx264 [software]");
}

#[test]
fn pipeline_with_fallback() {
    let p = resolve_pipeline_with_fallback("hevc_vaapi", true, false);
    assert_eq!(p.describe(), "Vaapi → Native → Vaapi(hevc_vaapi) [full-hw]");
    let p = resolve_pipeline_with_fallback("hevc_vaapi", false, true);
    assert_eq!(p.describe(), "SW → Software → Vaapi(hevc_vaapi) [sw-decode]");
    let p = resolve_pipeline_with_fallback("hevc_vaapi", false, false);
    assert_eq!(p.describe(), "SW → Software → libx265 [software]");
    let p = resolve_pipeline_with_fallback("libx264", true, true);
    assert_eq!(p.describe(), "SW → Software → libx264 [software]");
}

#[test]
fn levels() {
    let (native, software, vulkan) = (FilterBackend::Native, FilterBackend::Software, FilterBackend::Vulkan);
    let c = Some(HwType::Cuda);
    let v = Some(HwType::Vaapi);
    assert_eq!(infer_fallback_level(c, native, v), FallbackLevel::CrossDevice);
    assert_eq!(infer_fallback_level(c, vulkan, c), FallbackLevel::CrossDevice);
    assert_eq!(infer_fallback_level(c, software, c), FallbackLevel::MixedHwDownload);
    assert_eq!(infer_fallback_level(None, native, c), FallbackLevel::MixedSwDecode);
    assert_eq!(infer_fallback_level(c, native, None), FallbackLevel::Software);
}

#[test]
fn names_of_backends() {
    assert_eq!(parse_hw_type("quicksync"), Some(HwType::Qsv));
    assert_eq!(parse_hw_type("v4l2"), Some(HwType::V4l2m2m));
    assert_eq!(parse_hw_type("CUDA"), None);
    assert_eq!(parse_filter_backend("vk"), FilterBackend::Vulkan);
    assert_eq!(parse_filter_backend("native"), FilterBackend::Native);
    assert_eq!(infer_hw_from_codec("h264_cuvid"), Some(HwType::Cuda));
    assert_eq!(infer_hw_from_codec("libx264"), None);
    assert!(is_any_hw_encoder("h264_v4l2m2m"));
    assert!(HwType::Rkmpp.is_hw_encoder("hevc_rkmpp"));
    for hw in ALL {
        assert!(!hw.is_hw_encoder("libsvtav1"));
    }
}

#[test]
fn software_stand_ins() {
    for codec in ["hevc_nvenc", "h265_v4l2m2m", "av1_qsv", "h264_amf", "libaom-av1"] {
        let stand_in = software_fallback(codec);
        assert!(!is_any_hw_encoder(stand_in));
        assert_eq!(codec_id_for_encoder(stand_in), codec_id_for_encoder(codec));
    }
    assert_eq!(software_fallback("av1_nvenc"), "libsvtav1");
    assert_eq!(codec_id_for_encoder("libx265"), CodecId::Hevc);
    assert_eq!(software_fallback("libx265"), "libx264");
}

#[test]
fn detection_goes_through_the_candidates() {
    let mut outcomes = vec![];
    for hw in ALL {
        assert_eq!(auto_detect(&outcomes), DetectStep::Probe(hw));
        outcomes.push(false);
    }
    assert_eq!(auto_detect(&outcomes), DetectStep::Exhausted);
    assert_eq!(auto_detect(&vec![false, false, true]), DetectStep::Found(HwType::Qsv));
}

#[test]
fn pool_keeps_one_context_per_backend() {
    let mut pool: DevicePool<u32> = DevicePool::new();
    assert_eq!(pool.get(HwType::Cuda), None);
    pool.insert(HwType::Cuda, 7);
    pool.insert(HwType::Qsv, 8);
    assert_eq!(pool.get(HwType::Cuda), Some(&7));
    assert_eq!(pool.get(HwType::Qsv), Some(&8));
    assert_eq!(pool.get(HwType::Amf), None);
}
