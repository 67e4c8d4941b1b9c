use tokimo_ffmpeg::model::{CodecId, PixelFormat, Rational, NO_PTS};
use tokimo_ffmpeg::transcode::encode::{
    apply_video_encoder_options, flush_needed, needs_rescale, parse_bitrate, parse_resolution,
    pull_step, Bitrate, PullOutcome, PullStep,
};
use tokimo_ffmpeg::transcode::hw::{FilterBackend, HwType};
use tokimo_ffmpeg::transcode::pass::demux::{
    audio_thread_stream, download_format, end_base, end_thresholds, frame_action, frame_pts,
    needs_download, pause_step, seek_thresholds, shutdown_steps, video_queue_sizes,
    video_thread_stream, Demuxer, EndBase, FrameAction, LoopStep, PacketAction, PacketInfo,
    ShutdownStep,
};
use tokimo_ffmpeg::transcode::pass::encode::{
    audio_plan, init_sw_encoders, init_sw_filters, outputs_are_in_order, sw_video_plan,
    tonemaps_to_bt709, FilterKind, StreamPlan,
};
use tokimo_ffmpeg::transcode::pass::flush::flush_and_finalize;
use tokimo_ffmpeg::transcode::pass::gpu::{
    gpu_filter_params, init_gpu_pipelines, placeholder_codec_id, GpuSource,
};
use tokimo_ffmpeg::transcode::pass::output::configure_output;
use tokimo_ffmpeg::transcode::pass::targets::{
    determine_targets, DecoderOutput, Encoders, StreamSource,
};
use tokimo_ffmpeg::transcode::scheduler::{dts_to_us, MuxScheduler, SCHEDULE_TOLERANCE_US};
use tokimo_ffmpeg::transcode::types::{
    HlsOptions, HlsSegmentType, PassConfig, StreamMapping, TranscodeOptions,
};
use tokimo_ffmpeg::transcode::vfs_io::{
    input_name, IoState, ReadPlan, AVSEEK_SIZE, READAHEAD_BYTES_DEFAULT, READAHEAD_HLS,
};

fn q(num: i32, den: i32) -> Rational {
    Rational { num, den }
}

#[test]
fn resolutions() {
    assert_eq!(parse_resolution("1920x1080").unwrap(), (1920, 1080));
    assert_eq!(parse_resolution("+5x1").unwrap(), (5, 1));
    let err = |s| parse_resolution(s).unwrap_err().message().to_string();
    assert_eq!(err("1920"), "Invalid resolution format '1920', expected WxH (e.g. 1920x1080)");
    assert_eq!(err("1x2x3"), "Invalid resolution format '1x2x3', expected WxH (e.g. 1920x1080)");
    assert_eq!(err("ax2"), "Invalid width: invalid digit found in string");
    assert_eq!(err("x2"), "Invalid width: cannot parse integer from empty string");
    assert_eq!(err("2x99999999999"), "Invalid height: number too large to fit in target type");
    assert_eq!(err("2x-99999999999"), "Invalid height: number too small to fit in target type");
    assert_eq!(err("0x5"), "Resolution dimensions must be positive");
    assert_eq!(err("5x-5"), "Resolution dimensions must be positive");
}

#[test]
fn bitrates() {
    let exact = |s| match parse_bitrate(s) {
        Ok(Bitrate::Exact(v)) => Some(v),
        _ => None,
    };
    assert_eq!(exact("8000k"), Some(8_000_000));
    assert_eq!(exact(" 8000K "), Some(8_000_000));
    assert_eq!(exact("5M"), Some(5_000_000));
    assert_eq!(exact("-5m"), Some(-5_000_000));
    assert_eq!(exact("128000"), Some(128_000));
    assert_eq!(exact("9007199254740k"), Some(9_007_199_254_740_000));
    assert_eq!(exact("1.5M"), Some(1_500_000));
    assert_eq!(exact("2.5m"), Some(2_500_000));
    assert_eq!(exact("-0.25k"), Some(-250));
    assert_eq!(exact(".5K"), Some(500));
    assert_eq!(exact("+7.k"), Some(7000));
    assert_eq!(exact("0.0009765625k"), Some(0));
    assert_eq!(exact("4294967295.5M"), Some(4_294_967_295_500_000));
    let scaled = |s| match parse_bitrate(s) {
        Ok(Bitrate::Scaled { number, factor }) => Some((number, factor)),
        _ => None,
    };
    assert_eq!(scaled("1.001k"), Some(("1.001".to_string(), 1000)));
    assert_eq!(scaled("InfinityM"), Some(("Infinity".to_string(), 1_000_000)));
    assert_eq!(scaled("1e3k"), Some(("1e3".to_string(), 1000)));
    assert_eq!(scaled("9007199254741k"), Some(("9007199254741".to_string(), 1000)));
    assert_eq!(
        parse_bitrate("fast").unwrap_err().message(),
        "Invalid bitrate: invalid digit found in string"
    );
    assert_eq!(
        parse_bitrate(" M ").unwrap_err().message(),
        "Invalid bitrate: cannot parse float from empty string"
    );
    assert!(parse_bitrate("1.5").is_err() && parse_bitrate("abc").is_err());
    assert_eq!(
        parse_bitrate("").unwrap_err().message(),
        "Invalid bitrate: cannot parse integer from empty string"
    );
}

#[test]
fn exact_bitrates_agree_with_floating_point() {
    let numbers = [
        "8000", "7", "9007199254740", "1.5", "2.25", "-3.75", "0.5", ".125", "12.", "0", "-0", "-0.0",
        "1024.0009765625", "0.000030517578125", "123456.5", "1.50000", "0007.5",
    ];
    for number in numbers {
        let float = (number.parse::<f64>().unwrap() * 1000.0) as i64;
        let text = format!("{number}k");
        assert!(matches!(parse_bitrate(&text), Ok(Bitrate::Exact(v)) if v == float), "{}", number);
    }
}

#[test]
fn numbers_with_a_unit_are_floating_point_literals() {
    let numbers = [
        "", "+", "-", ".", "1", "1.", ".1", "1.1", "1..1", "1.1.1", "1e5", "1E+5", "1e-5", "1e", "e5", "1e+",
        "1.e1", ".e1", ".5e1", "inf", "INF", "-inf", "infinity", "+InFiNiTy", "nan", "NaN", "-nan", "infi",
        "1_000", " 1", "1 ", "0x10", "--1", "+-1", "1e5.5", "x", "1f", "Kk", "2.5e",
    ];
    for number in numbers {
        let text = format!("_{number}k");
        assert!(parse_bitrate(&text).is_err());
        let text = format!("{number}k");
        if number.starts_with(' ') {
            continue;
        }
        match (number.parse::<f64>(), parse_bitrate(&text)) {
            (Ok(_), Ok(_)) => {}
            (Err(std), Err(own)) => assert_eq!(own.message(), format!("Invalid bitrate: {std}")),
            _ => panic!("{number}"),
        }
    }
}

#[test]
fn encoder_steps_and_options() {
    assert_eq!(pull_step(PullOutcome::Ready), PullStep::Use);
    assert_eq!(pull_step(PullOutcome::Drained), PullStep::Stop);
    assert_eq!(pull_step(PullOutcome::Flushed), PullStep::Stop);
    assert_eq!(pull_step(PullOutcome::Failed), PullStep::Fail);
    assert!(needs_rescale(5, q(1, 25), q(1, 90000)));
    assert!(!needs_rescale(NO_PTS, q(1, 25), q(1, 90000)));
    assert!(!needs_rescale(5, q(1, 25), q(1, 25)));
    assert!(flush_needed(0x22) && !flush_needed(0x02));
    let o = apply_video_encoder_options(Some(5), Some(0x1_0000_0001), None, Some(3), Some("main"));
    assert_eq!((o.rc_max_rate, o.rc_buffer_size), (Some(5), Some(1)));
    assert_eq!((o.gop, o.keyint_min, o.profile.as_deref()), (None, Some(3), Some("main")));
    let o = apply_video_encoder_options(None, Some(0x8000_0000), Some(1), None, None);
    assert_eq!((o.rc_max_rate, o.rc_buffer_size, o.gop), (None, Some(i32::MIN), Some(1)));
}

#[test]
fn times_in_microseconds() {
    assert_eq!(dts_to_us(90000, q(1, 90000)), 1_000_000);
    assert_eq!(dts_to_us(-1, q(1, 3)), -333_333);
    assert_eq!(dts_to_us(1, q(-1, 3)), -333_333);
    assert_eq!(dts_to_us(1, q(-1, -3)), 333_333);
    assert_eq!(dts_to_us(NO_PTS, q(1, 3)), NO_PTS);
    assert_eq!(dts_to_us(1, q(1, 0)), NO_PTS);
    for (dts, num, den) in [(i64::MAX, i32::MAX, 7), (i64::MAX, 1, -1), (i64::MIN + 1, i32::MIN, 3)] {
        let wide = (i128::from(dts) * i128::from(num) * 1_000_000) / i128::from(den);
        assert_eq!(dts_to_us(dts, q(num, den)), wide as i64);
    }
}

#[test]
fn fast_streams_wait() {
    let mut m = MuxScheduler::new(3);
    assert!(m.throttle(0, 5_000_000));
    m.report_dts(0, 0);
    m.report_dts(1, 0);
    assert!(m.throttle(0, 5_000_000));
    m.report_dts(2, 50_000);
    assert_eq!(m.trailing_dts(0), Some(0));
    assert!(m.throttle(0, SCHEDULE_TOLERANCE_US));
    assert!(!m.throttle(0, SCHEDULE_TOLERANCE_US + 1));
    assert!(m.throttle(0, NO_PTS));
    m.report_dts(1, NO_PTS);
    assert!(!m.throttle(0, SCHEDULE_TOLERANCE_US + 1));
    m.mark_finished(1);
    assert_eq!(m.trailing_dts(0), Some(50_000));
    assert!(m.throttle(0, 150_000) && !m.throttle(0, 150_001));
    m.mark_finished(2);
    assert_eq!(m.trailing_dts(0), None);
    assert!(m.throttle(0, i64::MAX));
}

#[test]
fn progress_of_others_keeps_permission() {
    let mut m = MuxScheduler::new(2);
    m.report_dts(1, 0);
    assert!(m.throttle(0, 90_000));
    m.report_dts(1, 40_000);
    assert!(m.throttle(0, 90_000));
}

#[test]
fn slowest_stream_goes_on() {
    let mut m = MuxScheduler::new(2);
    m.report_dts(0, -5);
    m.report_dts(1, i64::MAX);
    assert!(m.throttle(0, -5 + SCHEDULE_TOLERANCE_US));
    assert!(!m.throttle(1, i64::MAX));
    m.report_dts(0, i64::MIN + 1);
    assert!(!m.throttle(1, i64::MAX));
}

fn file() -> Vec<u8> {
    (0..100u8).collect()
}

fn serve(offset: u64, len: u64) -> Option<(Vec<u8>, u64)> {
    let data = file();
    let from = offset as usize;
    let to = (from + len as usize).min(data.len());
    Some((data[from..to].to_vec(), 7))
}

#[test]
fn reads_give_the_file() {
    let mut io = IoState::new(100, Some(30));
    let mut all = vec![];
    while let Some(part) = io.read(serve, 7) {
        assert!(!part.is_empty() && part.len() <= 7);
        all.extend(part);
    }
    assert_eq!(all, file());
    let total = io.total_stats();
    assert_eq!((total.fetches, total.bytes, total.time_us), (4, 100, 28));
    assert_eq!(io.seek(0, 0), 0);
    assert_eq!((io.pass_stats().fetches, io.total_stats().fetches), (0, 4));
}

#[test]
fn reads_follow_seeks() {
    let mut io = IoState::new(100, Some(30));
    assert_eq!(io.read(serve, 5).unwrap(), vec![0, 1, 2, 3, 4]);
    assert_eq!(io.seek(10, 1), 15);
    assert_eq!(io.plan_read(), ReadPlan::Buffered);
    assert_eq!(io.read(serve, 2).unwrap(), vec![15, 16]);
    assert_eq!(io.seek(-3, 2), 97);
    assert_eq!(io.plan_read(), ReadPlan::Fetch { offset: 97, len: 3 });
    assert_eq!(io.read(serve, 50).unwrap(), vec![97, 98, 99]);
    assert_eq!(io.plan_read(), ReadPlan::Eof);
    assert!(io.read(serve, 1).is_none());
    assert_eq!(io.seek(-5, 0), 0);
    assert_eq!(io.seek(5, AVSEEK_SIZE), 100);
    assert_eq!(io.position(), 0);
    assert_eq!(io.seek(5, 3), -1);
    assert_eq!(io.seek(5, 0x20000), 5);
    assert!(io.can_seek(i64::MAX - 5, 1) && !io.can_seek(i64::MAX, 1));
    assert!(io.can_seek(i64::MAX, 0) && !io.can_seek(i64::MAX, 2) && io.can_seek(i64::MAX, AVSEEK_SIZE));
}

#[test]
fn failed_reads_end_the_input() {
    let mut io = IoState::new(100, None);
    assert_eq!(io.plan_read(), ReadPlan::Fetch { offset: 0, len: 100 });
    assert!(io.read(|_, _| None, 5).is_none());
    assert!(io.read(|_, _| Some((vec![], 1)), 5).is_none());
    assert_eq!(io.total_stats().fetches, 0);
    let big = IoState::new(u64::MAX, None);
    assert_eq!(big.plan_read(), ReadPlan::Fetch { offset: 0, len: READAHEAD_BYTES_DEFAULT });
    let mut huge = IoState::new(u64::MAX, Some(READAHEAD_HLS));
    assert_eq!(huge.seek(0, AVSEEK_SIZE), -1);
    assert_eq!(READAHEAD_HLS, 32 * 1024 * 1024);
}

#[test]
fn input_names() {
    assert_eq!(input_name(Some("a.mp4")), "a.mp4");
    assert_eq!(input_name(Some("a\0.mp4")), "input.mkv");
    assert_eq!(input_name(None), "input.mkv");
}

fn opts() -> TranscodeOptions {
    TranscodeOptions {
        audio_codec: "aac".to_string(),
        preset: "p1".to_string(),
        crf: None,
        gop: None,
        keyint_min: None,
        video_profile: None,
        video_filter: None,
        audio_channels: None,
        hls: None,
        maxrate: None,
        bufsize: None,
        audio_bitrate: None,
    }
}

fn cfg(codec: &str, decode: Option<HwType>, encode: Option<HwType>) -> PassConfig {
    PassConfig {
        video_codec_name: Some(codec.to_string()),
        decode_hw: decode,
        encode_hw: encode,
        resolution: None,
        target_bitrate: None,
        format_start_time: 0,
    }
}

fn source(fmt: PixelFormat) -> StreamSource {
    StreamSource {
        source_fmt: fmt,
        decoder: Some(DecoderOutput {
            pix_fmt: PixelFormat::Yuv420p,
            width: 3840,
            height: 2160,
            sample_fmt: 8,
            sample_rate: 48000,
            channels: 6,
        }),
    }
}

const VIDEO: StreamMapping = StreamMapping::Video { out_idx: 0, gpu_pipeline: false };
const GPU: StreamMapping = StreamMapping::Video { out_idx: 0, gpu_pipeline: true };
const AUDIO: StreamMapping = StreamMapping::Audio { out_idx: 1 };
const COPY: StreamMapping = StreamMapping::Copy { out_idx: 2 };

fn found() -> Encoders {
    Encoders { video: Some(None), audio: Some(None) }
}

#[test]
fn targets_on_the_device() {
    let ten = source(PixelFormat::Yuv420p10le);
    let run = |codec: &str, d, e, m| {
        determine_targets(&vec![m], &vec![ten], &cfg(codec, d, e), &opts(), found()).unwrap()
    };
    let cuda = Some(HwType::Cuda);
    let t = run("hevc_nvenc", cuda, cuda, GPU);
    let v = t.video[0].as_ref().unwrap();
    assert!(v.gpu_pipeline);
    assert_eq!((v.pix_fmt, v.sw_pix_fmt), (PixelFormat::Cuda, PixelFormat::P010le));
    assert_eq!((v.width, v.height), (3840, 2160));
    let t = run("h264_nvenc", cuda, cuda, GPU);
    assert_eq!(t.video[0].as_ref().unwrap().sw_pix_fmt, PixelFormat::Nv12);
    let t = run("hevc_rkmpp", Some(HwType::Rkmpp), Some(HwType::Rkmpp), GPU);
    assert_eq!(t.video[0].as_ref().unwrap().sw_pix_fmt, PixelFormat::Nv12);
    let t = run("hevc_nvenc", None, cuda, VIDEO);
    let v = t.video[0].as_ref().unwrap();
    assert!(!v.gpu_pipeline);
    assert_eq!((v.pix_fmt, v.sw_pix_fmt), (PixelFormat::Nv12, PixelFormat::Nv12));
    let t = run("libx264", cuda, cuda, GPU);
    let v = t.video[0].as_ref().unwrap();
    assert!(!v.gpu_pipeline);
    assert_eq!(v.pix_fmt, PixelFormat::Yuv420p);
}

#[test]
fn targets_in_main_memory() {
    let mut c = cfg("libx264", None, None);
    c.resolution = Some((1280, 720));
    let mut o = opts();
    o.audio_channels = Some(2);
    let enc = Encoders { video: Some(Some(PixelFormat::Nv12)), audio: Some(Some(3)) };
    let src = source(PixelFormat::Yuv420p);
    let map = vec![VIDEO, AUDIO, COPY, StreamMapping::Ignore];
    let t = determine_targets(&map, &vec![src, src, src, src], &c, &o, enc).unwrap();
    let v = t.video[0].as_ref().unwrap();
    assert_eq!((v.codec_name.as_str(), v.pix_fmt, v.width, v.height), ("libx264", PixelFormat::Nv12, 1280, 720));
    let a = t.audio[1].as_ref().unwrap();
    assert_eq!((a.codec_name.as_str(), a.sample_fmt, a.sample_rate, a.channels), ("aac", 3, 48000, 2));
    assert!(t.video[1].is_none() && t.audio[0].is_none() && t.video[2].is_none() && t.audio[3].is_none());
    let t = determine_targets(&vec![AUDIO], &vec![src], &c, &opts(), found()).unwrap();
    let a = t.audio[0].as_ref().unwrap();
    assert_eq!((a.sample_fmt, a.channels), (8, 6));
}

#[test]
fn targets_that_cannot_be_had() {
    let src = source(PixelFormat::Yuv420p);
    let none = StreamSource { source_fmt: PixelFormat::Yuv420p, decoder: None };
    let fail = |m, s, c: &PassConfig, e| {
        determine_targets(&vec![COPY, m], &vec![none, s], c, &opts(), e).unwrap_err().message().to_string()
    };
    let c = cfg("libx264", None, None);
    let mut unnamed = cfg("", None, None);
    unnamed.video_codec_name = None;
    let missing = Encoders { video: None, audio: None };
    assert_eq!(fail(VIDEO, src, &unnamed, found()), "video_codec_name not set");
    assert_eq!(fail(VIDEO, src, &c, missing), "Encoder 'libx264' not found");
    assert_eq!(fail(VIDEO, none, &c, found()), "decode context missing for video stream");
    assert_eq!(fail(AUDIO, src, &c, missing), "Audio encoder 'aac' not found");
    assert_eq!(fail(AUDIO, none, &c, found()), "decode context missing for audio stream");
}

#[test]
fn video_encoder_plans() {
    let pair = |a: &str, b: &str| (a.to_string(), b.to_string());
    let c = cfg("libx264", None, None);
    let p = sw_video_plan("libx264", &c, &opts(), None, true);
    assert_eq!(p.options, vec![pair("preset", "p1"), pair("crf", "23")]);
    assert_eq!((p.gop_size, p.thread_count, p.bit_rate), (250, 0, None));
    assert!(!p.attach_device && !p.tag_bt709 && p.global_header);
    let mut rated = cfg("libx265", None, None);
    rated.target_bitrate = Some(1000);
    let p = sw_video_plan("libx265", &rated, &opts(), None, false);
    assert_eq!((p.options, p.bit_rate), (vec![pair("preset", "p1")], Some(1000)));
    let mut o = opts();
    o.crf = Some(18);
    o.gop = Some(48);
    o.video_filter = Some("tonemap=hable,format=yuv420p:p=bt709".to_string());
    o.maxrate = Some(9);
    let p = sw_video_plan("h264_nvenc", &c, &o, Some(HwType::Cuda), false);
    assert_eq!(p.options, vec![pair("preset", "p1")]);
    assert_eq!((p.gop_size, p.thread_count, p.common.rc_max_rate, p.common.gop), (48, 1, Some(9), Some(48)));
    assert!(p.attach_device && p.tag_bt709);
    let p = sw_video_plan("libvpx", &c, &o, Some(HwType::Cuda), false);
    assert!(p.options.is_empty() && !p.attach_device);
    let p = sw_video_plan("libx264", &c, &o, None, false);
    assert_eq!(p.options[1], pair("crf", "18"));
    assert!(!tonemaps_to_bt709(&Some("tonemap=hable".to_string())) && !tonemaps_to_bt709(&None));
}

#[test]
fn audio_encoder_plans() {
    let mut o = opts();
    assert_eq!(audio_plan(&o, 0, true).bit_rate, Some(128_000));
    assert_eq!(audio_plan(&o, 64_000, true).bit_rate, None);
    o.audio_bitrate = Some(96_000);
    let p = audio_plan(&o, 64_000, true);
    assert_eq!((p.bit_rate, p.strict_std_compliance, p.thread_count, p.global_header), (Some(96_000), -2, 1, true));
}

#[test]
fn plans_of_all_streams() {
    let c = cfg("hevc_nvenc", Some(HwType::Cuda), Some(HwType::Cuda));
    let src = source(PixelFormat::Yuv420p);
    let map = vec![GPU, AUDIO, COPY, StreamMapping::Ignore];
    let t = determine_targets(&map, &vec![src, src, src, src], &c, &opts(), found()).unwrap();
    let kinds = init_sw_filters(&map, &t, &vec![true, true, false, false]).unwrap();
    assert_eq!(kinds, vec![FilterKind::Absent, FilterKind::Audio, FilterKind::Absent, FilterKind::Absent]);
    let plans = init_sw_encoders(&map, &t, &c, &opts(), None, &vec![0; 4], false).unwrap();
    assert!(matches!(plans[0], StreamPlan::Placeholder { codec_id: CodecId::Hevc, width: 3840, height: 2160 }));
    assert!(matches!(&plans[1], StreamPlan::Audio(a) if a.bit_rate == Some(128_000)));
    assert!(matches!(plans[2], StreamPlan::Copy) && matches!(plans[3], StreamPlan::Skip));
    assert!(outputs_are_in_order(&map));
    assert!(!outputs_are_in_order(&vec![AUDIO, VIDEO]));
    let err = |m: StreamMapping| {
        let none = determine_targets(&vec![COPY], &vec![src], &c, &opts(), found()).unwrap();
        let e = init_sw_encoders(&vec![m], &none, &c, &opts(), None, &vec![0], false).unwrap_err();
        e.message().to_string()
    };
    assert_eq!(err(GPU), "video targets missing for GPU stream");
    assert_eq!(err(VIDEO), "video targets missing");
    assert_eq!(err(AUDIO), "audio targets missing");
    let sw = determine_targets(&vec![VIDEO], &vec![src], &c, &opts(), found()).unwrap();
    assert_eq!(init_sw_filters(&vec![VIDEO], &sw, &vec![true]).unwrap(), vec![FilterKind::Video]);
    let ferr = |m, t, d| init_sw_filters(&vec![m], t, &vec![d]).unwrap_err().message().to_string();
    assert_eq!(ferr(VIDEO, &sw, false), "decode context missing for video");
    assert_eq!(ferr(AUDIO, &sw, true), "audio targets missing");
    let au = determine_targets(&vec![AUDIO], &vec![src], &c, &opts(), found()).unwrap();
    assert_eq!(ferr(AUDIO, &au, false), "decode context missing for audio");
    assert_eq!(ferr(VIDEO, &au, true), "video targets missing");
    let plans = init_sw_encoders(&vec![VIDEO], &sw, &c, &opts(), None, &vec![0], false).unwrap();
    assert!(matches!(&plans[0], StreamPlan::Video(p) if p.thread_count == 1));
}

#[test]
fn pipelines_on_the_device() {
    let c = cfg("hevc_nvenc", Some(HwType::Cuda), Some(HwType::Cuda));
    let src = source(PixelFormat::Yuv420p10le);
    let map = vec![GPU, AUDIO];
    let t = determine_targets(&map, &vec![src, src], &c, &opts(), found()).unwrap();
    let s = GpuSource { source_fmt: PixelFormat::Yuv420p10le, dec_size: Some((3840, 2160)) };
    let mut o = opts();
    o.video_filter = Some("bwdif_cuda".to_string());
    let cuda = Some(HwType::Cuda);
    let plans = init_gpu_pipelines(&map, &t.video, &vec![s, s], &c, &o, cuda, None, true, true);
    let p = plans[0].as_ref().unwrap();
    assert_eq!((p.out_idx, p.src_sw_fmt), (0, PixelFormat::P010le));
    assert_eq!((p.decode_pool.format, p.decode_pool.width, p.decode_pool.initial_pool_size), (PixelFormat::Cuda, 3840, 25));
    assert_eq!((p.encode_pool.sw_format, p.encode_hw), (PixelFormat::P010le, HwType::Cuda));
    assert!(!p.need_format_convert && p.tag_bt709 && p.global_header);
    assert_eq!((p.gop_size, p.thread_count, p.preset.as_str()), (250, 1, "p1"));
    assert!(plans[1].is_none());
    let params = gpu_filter_params(p, PixelFormat::P010le, None, FilterBackend::Native, Some("x"));
    assert_eq!((params.decode_hw, params.encode_hw, params.custom_filter), (HwType::Cuda, cuda, Some("x")));
    assert!(init_gpu_pipelines(&map, &t.video, &vec![s, s], &c, &o, None, cuda, true, true)[0].is_none());
    let gone = GpuSource { source_fmt: PixelFormat::Yuv420p, dec_size: None };
    assert!(init_gpu_pipelines(&map, &t.video, &vec![gone, s], &c, &o, cuda, cuda, true, true)[0].is_none());
    let eight = GpuSource { source_fmt: PixelFormat::Yuv420p, dec_size: Some((2, 2)) };
    let p = init_gpu_pipelines(&map, &t.video, &vec![eight, s], &c, &opts(), cuda, cuda, true, false);
    assert!(p[0].as_ref().unwrap().need_format_convert && !p[0].as_ref().unwrap().tag_bt709);
    assert_eq!(placeholder_codec_id("av1_nvenc"), CodecId::Av1);
}

#[test]
fn output_settings() {
    let pair = |a: &str, b: &str| (a.to_string(), b.to_string());
    let plan = configure_output(&opts(), 0);
    assert_eq!(plan.mux_options, vec![pair("max_muxing_queue_size", "128")]);
    assert_eq!((plan.max_delay, plan.output_ts_offset), (5_000_000, None));
    let mut o = opts();
    o.hls = Some(HlsOptions {
        segment_duration: "6".to_string(),
        start_number: "3".to_string(),
        playlist_type: "vod".to_string(),
        segment_pattern: "s%d.m4s".to_string(),
        segment_type: HlsSegmentType::Fmp4,
        init_filename: "init.mp4".to_string(),
    });
    let plan = configure_output(&o, 600_000_000);
    assert_eq!(plan.output_ts_offset, Some(-600_000_000));
    assert_eq!(
        plan.mux_options,
        vec![
            pair("max_muxing_queue_size", "2048"),
            pair("hls_time", "6"),
            pair("hls_list_size", "0"),
            pair("hls_playlist_type", "vod"),
            pair("hls_segment_filename", "s%d.m4s"),
            pair("start_number", "3"),
            pair("hls_segment_type", "fmp4"),
            pair("hls_fmp4_init_filename", "init.mp4"),
            pair("hls_segment_options", "movflags=+frag_discont"),
        ]
    );
    o.hls.as_mut().unwrap().segment_type = HlsSegmentType::Mpegts;
    let plan = configure_output(&o, -5);
    assert_eq!(plan.output_ts_offset, None);
    assert_eq!(plan.mux_options[6..], [pair("hls_segment_type", "mpegts")]);
}

#[test]
fn thresholds() {
    assert_eq!(end_base(false, true), EndBase::Unlimited);
    assert_eq!(end_base(true, false), EndBase::Duration);
    assert_eq!(end_base(true, true), EndBase::SeekAndDuration);
    let tbs = vec![q(1, 90000), q(1, 0)];
    let conv = vec![5, 6];
    assert_eq!(end_thresholds(EndBase::Duration, &tbs, &conv), vec![5, i64::MAX]);
    assert_eq!(end_thresholds(EndBase::Unlimited, &tbs, &conv), vec![i64::MAX, i64::MAX]);
    assert_eq!(seek_thresholds(true, false, true, &tbs, &conv), vec![5, 0]);
    assert_eq!(seek_thresholds(true, true, true, &tbs, &conv), vec![0, 0]);
    assert_eq!(seek_thresholds(false, false, true, &tbs, &conv), vec![0, 0]);
    assert_eq!(seek_thresholds(true, false, false, &tbs, &conv), vec![0, 0]);
}

#[test]
fn threads_take_the_first_streams() {
    let map = vec![COPY, VIDEO, AUDIO, VIDEO, AUDIO];
    assert_eq!(audio_thread_stream(&map), Some(2));
    assert_eq!(audio_thread_stream(&vec![VIDEO]), None);
    assert_eq!(video_thread_stream(&map, &vec![true, false, true, true, true]), Some(3));
    assert_eq!(video_thread_stream(&map, &vec![false; 5]), None);
    assert_eq!(video_queue_sizes(true), (4, 2));
    assert_eq!(video_queue_sizes(false), (16, 8));
    assert_eq!(download_format(false, Some(HwType::Cuda)), Some(PixelFormat::Cuda));
    assert_eq!(download_format(true, Some(HwType::Cuda)), None);
    assert_eq!(download_format(false, None), None);
}

fn pkt(stream_index: i32, pts: i64, is_key: bool) -> PacketInfo {
    PacketInfo { stream_index, pts, is_key }
}

#[test]
fn packets_are_dispatched() {
    let second = StreamMapping::Audio { out_idx: 3 };
    let map = vec![VIDEO, AUDIO, COPY, second, StreamMapping::Ignore, VIDEO];
    let mut d = Demuxer::new(
        map,
        &vec![true, false, false, false, false, true],
        vec![1000; 6],
        vec![0, 50, 0, 0, 0, 0],
        vec![false, false, false, true, false, true],
        Some(0),
        false,
    );
    assert_eq!(d.dispatch(pkt(0, 1, false)), PacketAction::SendVideo);
    assert_eq!(d.dispatch(pkt(1, 49, false)), PacketAction::Skip);
    assert_eq!(d.dispatch(pkt(1, 50, false)), PacketAction::SendAudio);
    assert_eq!(d.dispatch(pkt(1, NO_PTS, false)), PacketAction::SendAudio);
    assert_eq!(d.dispatch(pkt(2, 1, false)), PacketAction::Copy { out_idx: 2 });
    assert_eq!(d.dispatch(pkt(3, 1, false)), PacketAction::Inline { out_idx: 3 });
    assert_eq!(d.dispatch(pkt(4, 1, false)), PacketAction::Nothing);
    assert_eq!(d.dispatch(pkt(5, 1, false)), PacketAction::Inline { out_idx: 0 });
    assert_eq!(d.dispatch(pkt(6, 5000, false)), PacketAction::Skip);
    assert_eq!(d.dispatch(pkt(-1, 5000, false)), PacketAction::Skip);
    assert_eq!(d.dispatch(pkt(4, 999, false)), PacketAction::Nothing);
    assert_eq!(d.dispatch(pkt(4, 1000, false)), PacketAction::Stop);
    assert!(Demuxer::drains_after(PacketAction::Nothing));
    assert!(!Demuxer::drains_after(PacketAction::Skip) && !Demuxer::drains_after(PacketAction::Stop));
}

#[test]
fn copies_start_at_a_key_frame() {
    let video_copy = StreamMapping::Copy { out_idx: 0 };
    let audio_copy = StreamMapping::Copy { out_idx: 1 };
    let make = |seek| {
        Demuxer::new(
            vec![audio_copy, video_copy],
            &vec![false, true],
            vec![i64::MAX; 2],
            vec![0; 2],
            vec![false; 2],
            None,
            seek,
        )
    };
    let mut d = make(true);
    assert_eq!(d.dispatch(pkt(0, 10, true)), PacketAction::Skip);
    assert_eq!(d.dispatch(pkt(1, 10, false)), PacketAction::Skip);
    assert_eq!(d.dispatch(pkt(1, 20, true)), PacketAction::Copy { out_idx: 0 });
    assert_eq!(d.dispatch(pkt(0, 19, true)), PacketAction::Skip);
    assert_eq!(d.dispatch(pkt(0, 20, true)), PacketAction::Copy { out_idx: 1 });
    assert_eq!(d.dispatch(pkt(0, NO_PTS, true)), PacketAction::Copy { out_idx: 1 });
    assert_eq!(d.dispatch(pkt(1, 15, false)), PacketAction::Copy { out_idx: 0 });
    let mut d = make(false);
    assert_eq!(d.dispatch(pkt(0, 10, false)), PacketAction::Copy { out_idx: 1 });
    let mut d = make(true);
    assert_eq!(d.dispatch(pkt(1, NO_PTS, true)), PacketAction::Copy { out_idx: 0 });
    assert_eq!(d.dispatch(pkt(0, 1, true)), PacketAction::Copy { out_idx: 1 });
}

#[test]
fn frames_in_the_loop() {
    let cuda = Some(HwType::Cuda);
    let y = PixelFormat::Yuv420p;
    assert_eq!(frame_action(10, 9, y, None, false), FrameAction::Drop);
    assert_eq!(frame_action(10, 10, y, None, false), FrameAction::Keep);
    assert_eq!(frame_action(10, NO_PTS, y, None, false), FrameAction::Keep);
    assert_eq!(frame_action(0, -9, PixelFormat::Cuda, cuda, false), FrameAction::Download);
    assert_eq!(frame_action(0, 9, PixelFormat::Cuda, cuda, true), FrameAction::Keep);
    assert!(!needs_download(PixelFormat::Cuda, None, false));
    assert_eq!(frame_pts(5, NO_PTS), 5);
    assert_eq!(frame_pts(5, 6), 6);
}

#[test]
fn loop_control_and_end() {
    assert_eq!(pause_step(true, false), LoopStep::Wait);
    assert_eq!(pause_step(true, true), LoopStep::Read);
    assert_eq!(pause_step(false, false), LoopStep::Read);
    assert_eq!(
        shutdown_steps(true),
        vec![ShutdownStep::FinishAllStreams, ShutdownStep::DropOutputs, ShutdownStep::CloseInputs]
    );
    assert_eq!(
        shutdown_steps(false),
        vec![
            ShutdownStep::CloseVideoInput,
            ShutdownStep::DrainVideo,
            ShutdownStep::CloseAudioInput,
            ShutdownStep::DrainAudio,
        ]
    );
    let map = vec![VIDEO, AUDIO, COPY, StreamMapping::Audio { out_idx: 3 }];
    let plan = flush_and_finalize(&map, &vec![false, true, true, true], false);
    let streams: Vec<(usize, usize)> = plan.streams.iter().map(|s| (s.in_stream, s.out_idx)).collect();
    assert_eq!(streams, vec![(1, 1), (3, 3)]);
    assert!(plan.write_trailer);
    let plan = flush_and_finalize(&map, &vec![true; 4], true);
    assert!(plan.streams.is_empty() && !plan.write_trailer);
}
