use tokimo_ffmpeg::collections::NameSet;
use tokimo_ffmpeg::common::capabilities::{
    amf_decode_supported, best_aac_encoder, best_encoder_for_audio_codec, cuvid_candidate,
    detect_capabilities, ffmpeg_version, ffmpeg_version_full, get_cuvid_decoder, has_decoder,
    has_encoder, has_filter, list_codecs, list_codecs_by_name, list_demuxers, list_filter_names,
    list_filters, list_hwaccels, list_muxers, list_protocols, probe_cuvid_hw_codecs,
    qsv_decode_supported, vaapi_decode_supported, videotoolbox_decode_supported, CodecType,
    HwCapabilities, RawCodec, RawName, CUVID_CANDIDATES,
};
use tokimo_ffmpeg::model::MediaType;

fn set(names: &[&str]) -> NameSet {
    let mut s = NameSet::new();
    for n in names {
        s.insert(n);
    }
    s
}

fn caps(hw: &[&str], enc: &[&str], dec: &[&str], flt: &[&str]) -> HwCapabilities {
    detect_capabilities(set(hw), set(enc), set(dec), set(flt))
}

#[test]
fn cuda_flags() {
    let flt = ["scale_cuda", "yadif_cuda", "tonemap_cuda", "overlay_cuda", "hwupload_cuda", "bwdif"];
    let c = caps(&["cuda"], &["h264_nvenc", "hevc_nvenc"], &["hevc_cuvid"], &flt);
    assert!(c.has_nvenc && c.has_nvenc_hevc && c.has_cuvid && c.has_cuda_full && c.has_bwdif);
    assert!(!c.has_bwdif_cuda && !c.has_vaapi && !c.has_libx265);
    assert!(!caps(&[], &[], &[], &flt).has_cuda_full);
    assert!(!caps(&["cuda"], &[], &[], &flt[1..]).has_cuda_full);
}

#[test]
fn full_flags_need_the_basic_flag() {
    let flt = [
        "scale_vaapi", "deinterlace_vaapi", "tonemap_vaapi", "transpose_vaapi", "hwupload_vaapi",
        "scale_qsv", "vpp_qsv",
    ];
    let c = caps(&["vaapi", "qsv"], &["h264_vaapi", "hevc_vaapi", "hevc_qsv"], &[], &flt);
    assert!(c.has_vaapi && c.has_vaapi_full && c.has_vaapi_hevc);
    assert!(!c.has_qsv && !c.has_qsv_full && !c.has_qsv_hevc);
    let c = caps(&["qsv"], &["h264_qsv", "hevc_qsv"], &[], &flt);
    assert!(c.has_qsv && c.has_qsv_full && c.has_qsv_hevc);
}

#[test]
fn videotoolbox_flags() {
    let enc = ["h264_videotoolbox", "hevc_videotoolbox"];
    let all = ["yadif_videotoolbox", "overlay_videotoolbox", "scale_vt", "tonemap_videotoolbox"];
    let c = caps(&["videotoolbox"], &enc, &[], &all);
    assert!(c.has_videotoolbox_full && c.has_videotoolbox_tonemap && c.has_videotoolbox_hevc);
    let c = caps(&["videotoolbox"], &enc, &[], &["yadif_videotoolbox", "scale_vt"]);
    assert!(c.has_videotoolbox && !c.has_videotoolbox_full && !c.has_videotoolbox_tonemap);
}

#[test]
fn amf_and_rkmpp_flags() {
    let c = caps(&[], &["h264_amf"], &[], &[]);
    assert!(c.has_amf && !c.has_amf_hevc);
    let c = caps(&[], &["hevc_amf"], &[], &[]);
    assert!(!c.has_amf && c.has_amf_hevc);
    let c = caps(&["rkmpp"], &["h264_rkmpp", "hevc_rkmpp"], &[], &[]);
    assert!(c.has_rkmpp && c.has_rkmpp_hevc);
    assert!(!caps(&[], &["h264_rkmpp", "hevc_rkmpp"], &[], &[]).has_rkmpp_hevc);
}

#[test]
fn software_flags_and_lookups() {
    let c = caps(&[], &["libx265"], &["h264"], &["tonemap", "tonemapx", "zscale", "tonemap_opencl"]);
    assert!(c.has_libx265 && c.has_tonemap && c.has_tonemapx && c.has_zscale && c.has_tonemap_opencl);
    assert!(has_filter(&c, "zscale") && !has_filter(&c, "scale"));
    assert!(has_encoder(&c, "libx265") && !has_encoder(&c, "h264"));
    assert!(has_decoder(&c, "h264") && !has_decoder(&c, "libx265"));
}

#[test]
fn versions() {
    assert_eq!(ffmpeg_version("7.1"), "7.1");
    assert_eq!(
        ffmpeg_version_full(0x3b2764, 0x3d1364, 0x3d0764, 0x0a0464, 0x080364, 0x050364),
        "libavutil 59.39.100 / libavcodec 61.19.100 / libavformat 61.7.100 / libavfilter 10.4.100 / libswscale 8.3.100 / libswresample 5.3.100"
    );
}

#[test]
fn registries() {
    let hw = list_hwaccels(&vec![Some("cuda".to_string()), None, Some("cuda".to_string())]);
    assert!(hw.contains("cuda") && hw.len() == 1);
    let raw = vec![
        RawCodec {
            name: "aac".to_string(),
            long_name: None,
            media_type: MediaType::Audio,
            is_encoder: true,
            is_decoder: false,
        },
        RawCodec {
            name: "aac".to_string(),
            long_name: Some("AAC".to_string()),
            media_type: MediaType::Attachment,
            is_encoder: false,
            is_decoder: true,
        },
    ];
    let codecs = list_codecs(&raw);
    assert_eq!(codecs[0].long_name, "");
    assert_eq!(codecs[0].codec_type, CodecType::Audio);
    assert_eq!(codecs[1].long_name, "AAC");
    assert_eq!(codecs[1].codec_type, CodecType::Unknown);
    let (enc, dec) = list_codecs_by_name(&codecs);
    assert!(enc.contains("aac") && dec.contains("aac") && enc.len() == 1);
    let names = vec![
        RawName { name: "mp4".to_string(), long_name: Some("MP4".to_string()) },
        RawName { name: "null".to_string(), long_name: None },
    ];
    let filters = list_filters(&names);
    assert_eq!((filters[0].description.as_str(), filters[1].description.as_str()), ("MP4", ""));
    assert!(list_filter_names(&filters).contains("null"));
    assert_eq!(list_muxers(&names)[0].long_name, "MP4");
    assert_eq!(list_demuxers(&names)[1].name, "null");
}

#[test]
fn protocols_are_listed_once() {
    let v = |n: &[&str]| n.iter().map(|s| s.to_string()).collect::<Vec<_>>();
    assert_eq!(
        list_protocols(&v(&["file", "pipe"]), &v(&["http", "file", "http"])),
        v(&["file", "pipe", "http"])
    );
}

#[test]
fn audio_encoders() {
    let c = caps(&[], &["aac", "libfdk_aac", "mp3", "opus", "libvorbis", "vorbis", "flac"], &[], &[]);
    assert_eq!(best_aac_encoder(&c), "libfdk_aac");
    assert_eq!(best_encoder_for_audio_codec(&c, "aac"), Some("libfdk_aac"));
    assert_eq!(best_encoder_for_audio_codec(&c, "mp3"), Some("mp3"));
    assert_eq!(best_encoder_for_audio_codec(&c, "opus"), Some("opus"));
    assert_eq!(best_encoder_for_audio_codec(&c, "vorbis"), Some("libvorbis"));
    assert_eq!(best_encoder_for_audio_codec(&c, "flac"), Some("flac"));
    assert_eq!(best_encoder_for_audio_codec(&c, "ac3"), None);
    assert_eq!(best_encoder_for_audio_codec(&c, "eac3"), None);
    assert_eq!(best_encoder_for_audio_codec(&c, "alac"), None);
    assert_eq!(best_encoder_for_audio_codec(&c, "wma"), None);
    let none = caps(&[], &[], &[], &[]);
    assert_eq!(best_aac_encoder(&none), "aac");
    assert_eq!(best_encoder_for_audio_codec(&none, "aac"), None);
}

#[test]
fn cuvid_decoders() {
    let mut c = caps(&[], &[], &["hevc_cuvid", "av1_cuvid"], &[]);
    assert_eq!(get_cuvid_decoder("hevc", &c), Some("hevc_cuvid"));
    assert_eq!(get_cuvid_decoder("av1", &c), Some("av1_cuvid"));
    assert_eq!(get_cuvid_decoder("h264", &c), None);
    assert_eq!(get_cuvid_decoder("theora", &c), None);
    let mut opened = vec![false; CUVID_CANDIDATES];
    opened[1] = true;
    opened[4] = true;
    assert_eq!(cuvid_candidate(4), ("mpeg2_cuvid", "mpeg2video"));
    c.cuvid_hw_codecs = probe_cuvid_hw_codecs(&opened);
    assert!(c.cuvid_hw_codecs.contains("mpeg2video"));
    assert_eq!(get_cuvid_decoder("hevc", &c), Some("hevc_cuvid"));
    assert_eq!(get_cuvid_decoder("av1", &c), None);
    assert_eq!(probe_cuvid_hw_codecs(&vec![]).len(), 0);
    let without = caps(&[], &[], &["av1_cuvid"], &[]);
    assert_eq!(get_cuvid_decoder("av1", &without), None);
}

#[test]
fn decode_support() {
    assert!(vaapi_decode_supported("vc1") && qsv_decode_supported("mpeg2video"));
    assert!(!vaapi_decode_supported("mpeg4") && !qsv_decode_supported("H264"));
    assert!(videotoolbox_decode_supported("vp8") && !videotoolbox_decode_supported("vc1"));
    assert!(amf_decode_supported("vc1") && !amf_decode_supported("vp8"));
}
