use tokimo_ffmpeg::model::{PixelFormat, Rational};
use tokimo_ffmpeg::transcode::filter::{
    assign_devices, audio_filter_spec, audio_format_spec, audio_source_args, build_filter_spec,
    hwdevice_name, rewrite_cpu_format_for_hw, sw_filter_spec, video_source_args, DeviceRole,
    FilterNode, HwFilterParams, VideoSource,
};
use tokimo_ffmpeg::transcode::hw::{FilterBackend, HwType};

#[test]
fn test_rewrite_bare_format() {
    assert_eq!(
        rewrite_cpu_format_for_hw("format=yuv420p", "scale_cuda"),
        "scale_cuda=format=yuv420p"
    );
}

#[test]
fn test_rewrite_deinterlace_plus_format() {
    assert_eq!(
        rewrite_cpu_format_for_hw("bwdif_cuda=0:-1:0,format=yuv420p", "scale_cuda"),
        "bwdif_cuda=0:-1:0,scale_cuda=format=yuv420p"
    );
}

#[test]
fn test_no_rewrite_tonemap_cuda() {
    // tonemap_cuda has format= as a parameter, not a standalone filter
    let chain = "setparams=color_primaries=bt2020:color_trc=smpte2084:colorspace=bt2020nc,tonemap_cuda=format=yuv420p:p=bt709:t=bt709:m=bt709:tonemap=hable:peak=100:desat=0";
    assert_eq!(rewrite_cpu_format_for_hw(chain, "scale_cuda"), chain);
}

#[test]
fn test_no_rewrite_hwdownload_chain() {
    let chain =
        "hwdownload,format=p010le,tonemapx=tonemap=hable:desat=0:peak=100:t=bt709:m=bt709:p=bt709:format=yuv420p";
    assert_eq!(rewrite_cpu_format_for_hw(chain, "scale_cuda"), chain);
}

#[test]
fn test_rewrite_vaapi() {
    assert_eq!(
        rewrite_cpu_format_for_hw("format=nv12", "scale_vaapi"),
        "scale_vaapi=format=nv12"
    );
}

#[test]
fn rewrite_trims_only_what_it_rewrites() {
    assert_eq!(
        rewrite_cpu_format_for_hw(" yadif , format=nv12 ,", "scale_qsv"),
        " yadif ,scale_qsv=format=nv12,"
    );
    assert_eq!(rewrite_cpu_format_for_hw("", "scale_qsv"), "");
    assert_eq!(rewrite_cpu_format_for_hw("a,b,,c", "scale_qsv"), "a,b,,c");
    assert_eq!(
        rewrite_cpu_format_for_hw("\u{3000}format=nv12\u{a0}", "s"),
        "s=format=nv12"
    );
}

fn params<'a>(
    backend: FilterBackend,
    hw: HwType,
    resolution: Option<(i32, i32)>,
    convert: bool,
    custom: Option<&'a str>,
) -> HwFilterParams<'a> {
    HwFilterParams {
        decode_hw: hw,
        filter_backend: backend,
        encode_hw: Some(hw),
        target_sw_fmt: PixelFormat::P010le,
        resolution,
        need_format_convert: convert,
        custom_filter: custom,
    }
}

#[test]
fn filter_spec_of_every_backend() {
    let spec = |b, r, c, f| build_filter_spec(&params(b, HwType::Vaapi, r, c, f));
    let size = Some((1280, 720));
    assert_eq!(spec(FilterBackend::Native, None, false, None), "null");
    assert_eq!(spec(FilterBackend::Native, None, true, None), "scale_vaapi=format=p010le");
    assert_eq!(
        spec(FilterBackend::Native, size, true, None),
        "scale_vaapi=w=1280:h=720:format=p010le"
    );
    assert_eq!(
        spec(FilterBackend::OpenCL, size, true, None),
        "hwmap=derive_device=opencl,scale_opencl=1280:720:format=p010le,hwmap=derive_device=vaapi,format=nv12"
    );
    assert_eq!(
        spec(FilterBackend::OpenCL, None, true, None),
        "hwmap=derive_device=opencl,scale_opencl=format=p010le,hwmap=derive_device=vaapi,format=nv12"
    );
    assert_eq!(
        spec(FilterBackend::Vulkan, size, true, None),
        "hwmap=derive_device=vulkan,libplacebo=w=1280:h=720:format=p010le,hwmap=derive_device=vaapi,format=nv12"
    );
    assert_eq!(
        spec(FilterBackend::Vulkan, None, true, None),
        "hwmap=derive_device=vulkan,libplacebo=format=p010le,hwmap=derive_device=vaapi,format=nv12"
    );
    assert_eq!(
        spec(FilterBackend::Software, size, true, None),
        "hwdownload,format=p010le,scale=1280:720"
    );
    assert_eq!(spec(FilterBackend::Software, None, true, None), "hwdownload,format=p010le");
}

#[test]
fn custom_filter_takes_priority() {
    let spec = |b| build_filter_spec(&params(b, HwType::Amf, None, true, Some("format=nv12,x")));
    assert_eq!(spec(FilterBackend::Native), "scale=format=nv12,x");
    assert_eq!(spec(FilterBackend::Software), "format=nv12,x");
    assert_eq!(
        spec(FilterBackend::OpenCL),
        "hwmap=derive_device=opencl,format=nv12,x,hwmap=derive_device=d3d11va,format=nv12"
    );
    assert_eq!(
        spec(FilterBackend::Vulkan),
        "hwmap=derive_device=vulkan,format=nv12,x,hwmap=derive_device=d3d11va,format=nv12"
    );
}

#[test]
fn device_names() {
    assert_eq!(hwdevice_name(HwType::Cuda), "cuda");
    assert_eq!(hwdevice_name(HwType::Qsv), "qsv");
    assert_eq!(hwdevice_name(HwType::Videotoolbox), "videotoolbox");
    assert_eq!(hwdevice_name(HwType::Rkmpp), "drm");
    assert_eq!(hwdevice_name(HwType::V4l2m2m), "drm");
}

#[test]
fn software_specs_and_sources() {
    assert_eq!(sw_filter_spec(Some("hflip"), Some((1, 2))), "hflip");
    assert_eq!(sw_filter_spec(None, Some((640, -2))), "scale=640:-2");
    assert_eq!(sw_filter_spec(None, None), "null");
    let src = VideoSource {
        width: 1920,
        height: 1080,
        pix_fmt: 117,
        time_base: Rational { num: 1, den: 90000 },
        sample_aspect_ratio: Rational { num: 0, den: 1 },
    };
    assert_eq!(
        video_source_args(&src),
        "video_size=1920x1080:pix_fmt=117:time_base=1/90000:pixel_aspect=1/1"
    );
    assert_eq!(
        audio_source_args(Rational { num: 1, den: 48000 }, 48000, "fltp", "stereo"),
        "time_base=1/48000:sample_rate=48000:sample_fmt=fltp:channel_layout=stereo"
    );
    assert_eq!(
        audio_format_spec("s16", "mono", 16000),
        "aformat=sample_fmts=s16:channel_layouts=mono:sample_rates=16000"
    );
    assert_eq!(
        audio_filter_spec("fltp", "5.1", 44100),
        "aformat=sample_fmts=fltp:channel_layouts=5.1:sample_rates=44100,asetnsamples=n=1024:p=1"
    );
}

#[test]
fn devices_of_filters() {
    let node = |uses_device, has_device| FilterNode { uses_device, has_device };
    let nodes = vec![node(true, false), node(true, true), node(false, false)];
    assert_eq!(assign_devices(&nodes, true), vec![Some(DeviceRole::Filter), None, None]);
    assert_eq!(assign_devices(&nodes, false), vec![Some(DeviceRole::Decode), None, None]);
}
