use tokimo_ffmpeg::media::names::{
    chroma_location_name, color_primaries_name, color_range_name, color_space_name,
    color_transfer_name, compute_dar, decode_disposition, field_order_name, format_duration,
    fourcc_to_string, gcd, hex_string, media_type_name, name_or_unknown, rational_to_string,
    unsigned_bits, DurationParts,
};
use tokimo_ffmpeg::media::probe::{
    extract_chapters, extract_coded_side_data, first_video_stream, format_does_fit, get_bit_depth, probe_format_ctx,
    probe_options, size_text, stream_info, wants_packet, CodecDescriptor, DecoderProbe,
    ProbedPacket, RawChapter, RawFormat, RawSideData, RawStream,
};
use tokimo_ffmpeg::media::report::{file_size, print_info, size_in_gigabytes, ReportTexts};
use tokimo_ffmpeg::media::tag_text::RawTag;
use tokimo_ffmpeg::model::{MediaType, Rational, NO_PTS};

fn q(num: i32, den: i32) -> Rational {
    Rational { num, den }
}

fn tag(k: &str, v: &str) -> RawTag {
    RawTag { key: k.as_bytes().to_vec(), value: v.as_bytes().to_vec() }
}

fn stream(media_type: MediaType) -> RawStream {
    RawStream {
        media_type,
        codec_id: 27,
        descriptor: Some(CodecDescriptor {
            name: "h264".to_string(),
            long_name: Some("H.264".to_string()),
        }),
        codec_tag: 0x31637661,
        profile: 100,
        profile_name: Some("High".to_string()),
        decoder: DecoderProbe::Missing,
        format: 0,
        format_name: Some("yuv420p".to_string()),
        component_depth: Some(8),
        width: 1920,
        height: 1080,
        level: 41,
        color_range: 1,
        color_space: 1,
        color_primaries: 9,
        color_transfer: 16,
        sample_aspect_ratio: q(1, 1),
        field_order: 1,
        chroma_location: 1,
        video_delay: 2,
        sample_rate: 48000,
        channels: 2,
        channel_layout: Some("stereo".to_string()),
        bits_per_raw_sample: 24,
        id: 257,
        r_frame_rate: q(24000, 1001),
        avg_frame_rate: q(0, 0),
        time_base: q(1, 90000),
        start_time: 900,
        start_seconds: "0.010000".to_string(),
        duration: 90000,
        duration_seconds: "1.000000".to_string(),
        bit_rate: 5000000,
        nb_frames: 24,
        extradata_size: 42,
        disposition: 1,
        tags: vec![tag("language", "eng")],
        side_data: vec![],
    }
}

fn format(streams: Vec<RawStream>) -> RawFormat {
    RawFormat {
        format_name: "matroska,webm".to_string(),
        format_long_name: "Matroska / WebM".to_string(),
        start_time: 0,
        start_seconds: "0.000000".to_string(),
        duration: 60_500_000,
        duration_seconds: "60.500000".to_string(),
        bit_rate: 4_000_123,
        nb_programs: 0,
        probe_score: 100,
        tags: vec![tag("title", "A film")],
        streams,
        chapters: vec![
            None,
            Some(RawChapter {
                id: 3,
                time_base: q(1, 1000),
                start: 0,
                start_seconds: "0.000000".to_string(),
                end: 30000,
                end_seconds: "30.000000".to_string(),
                tags: vec![tag("title", "One")],
            }),
            Some(RawChapter {
                id: 4,
                time_base: q(1, 0),
                start: 30000,
                start_seconds: "30.000000".to_string(),
                end: 60500,
                end_seconds: "60.500000".to_string(),
                tags: vec![],
            }),
        ],
    }
}

fn packet(stream_index: i32, types: &[u32]) -> ProbedPacket {
    ProbedPacket { stream_index, side_data_types: types.to_vec() }
}

#[test]
fn number_names() {
    assert_eq!(color_space_name(9).as_deref(), Some("bt2020nc"));
    assert_eq!(color_space_name(11), None);
    assert_eq!(color_range_name(2).as_deref(), Some("pc"));
    assert_eq!(color_range_name(0), None);
    assert_eq!(color_primaries_name(12).as_deref(), Some("smpte431"));
    assert_eq!(color_primaries_name(10), None);
    assert_eq!(color_transfer_name(18).as_deref(), Some("arib-std-b67"));
    assert_eq!(color_transfer_name(17), None);
    assert_eq!(field_order_name(5).as_deref(), Some("bt"));
    assert_eq!(field_order_name(0), None);
    assert_eq!(chroma_location_name(3).as_deref(), Some("topleft"));
    assert_eq!(chroma_location_name(7), None);
    assert_eq!(media_type_name(MediaType::Attachment), "attachment");
    assert_eq!(media_type_name(MediaType::Other), "unknown");
    assert_eq!(get_bit_depth(Some(10)), 10);
    assert_eq!(get_bit_depth(None), 8);
}

#[test]
fn dispositions() {
    let d = decode_disposition(0x400 | 0x20_0000);
    assert_eq!(d.len(), 19);
    assert_eq!(d.get("attached_pic"), Some(&1));
    assert_eq!(d.get("multilayer"), Some(&1));
    assert_eq!(d.get("default"), Some(&0));
    assert_eq!(d.get("nothing"), None);
    assert_eq!((d.key(0), d.key(18)), ("attached_pic", "visual_impaired"));
}

#[test]
fn ratios() {
    assert_eq!(gcd(1920, 1080), 120);
    assert_eq!(gcd(0, 7), 7);
    assert_eq!(gcd(7, 0), 7);
    assert_eq!(compute_dar(1920, 1080, q(1, 1)).as_deref(), Some("16:9"));
    assert_eq!(compute_dar(720, 576, q(64, 45)).as_deref(), Some("16:9"));
    assert_eq!(compute_dar(100, 50, q(0, -3)).as_deref(), Some("2:1"));
    assert_eq!(compute_dar(0, 50, q(1, 1)), None);
    assert_eq!(compute_dar(2147483647, 1, q(2147483647, 1)).as_deref(), Some("4611686014132420609:1"));
    assert_eq!(rational_to_string(q(24000, 1001)), "24000/1001");
    assert_eq!(rational_to_string(q(5, 0)), "0/0");
}

#[test]
fn durations_and_tags_of_numbers() {
    let d = |total_secs, millis| format_duration(Some(DurationParts { total_secs, millis }));
    assert_eq!(d(3725, 7), "01:02:05.007");
    assert_eq!(d(360000, 999), "100:00:00.999");
    assert_eq!(format_duration(None), "N/A");
    assert_eq!(fourcc_to_string(0x31637661), "avc1");
    assert_eq!(fourcc_to_string(0), "[0][0][0][0]");
    assert_eq!(fourcc_to_string(0x7f20ff41), "A[255][32][127]");
    assert_eq!(hex_string(0x1b, 4), "0x001b");
    assert_eq!(hex_string(0x31637661, 4), "0x31637661");
    assert_eq!(hex_string(unsigned_bits(-1), 0), "0xffffffff");
    assert_eq!(name_or_unknown(&None, -1), "unknown(-1)");
    assert_eq!(name_or_unknown(&Some("x".to_string()), 1), "x");
}

#[test]
fn video_stream() {
    let mut raw = stream(MediaType::Video);
    raw.decoder = DecoderProbe::Open {
        refs: 4,
        coded_width: 1920,
        coded_height: 1088,
        view_ids_available: None,
        view_pos_available: Some("left".to_string()),
    };
    let s = stream_info(&raw, 5, 9);
    assert_eq!(s.index, 5);
    assert_eq!(s.codec_name, "h264");
    assert_eq!(s.profile.as_deref(), Some("High"));
    assert_eq!((s.codec_type.as_str(), s.codec_tag_string.as_str(), s.codec_tag.as_str()), ("video", "avc1", "0x31637661"));
    assert_eq!(s.id.as_deref(), Some("0x101"));
    assert_eq!((s.r_frame_rate.as_str(), s.avg_frame_rate.as_str()), ("24000/1001", "0/0"));
    assert_eq!((s.start_pts, s.start_time.as_deref()), (Some(900), Some("0.010000")));
    assert_eq!((s.duration_ts, s.duration.as_deref()), (Some(90000), Some("1.000000")));
    assert_eq!((s.bit_rate.as_deref(), s.nb_frames.as_deref()), (Some("5000000"), Some("24")));
    assert_eq!(s.extradata_size, Some(42));
    assert_eq!(s.disposition.get("default"), Some(&1));
    assert_eq!(s.tags.get("language").map(|t| t.as_str()), Some("eng"));
    assert!(s.side_data_list.is_none() && s.audio.is_none() && !s.has_hdr10_plus);
    let v = s.video.unwrap();
    assert_eq!((v.width, v.height, v.coded_width, v.coded_height), (1920, 1080, 1920, 1088));
    assert_eq!((v.pixel_format.as_str(), v.level, v.bit_depth), ("yuv420p", 41, 8));
    assert_eq!(v.color_transfer.as_deref(), Some("smpte2084"));
    assert_eq!(v.color_primaries.as_deref(), Some("bt2020"));
    assert_eq!(v.display_aspect_ratio.as_deref(), Some("16:9"));
    assert_eq!(v.sample_aspect_ratio, "1:1");
    assert_eq!((v.has_b_frames, v.refs), (2, 4));
    assert_eq!((v.view_ids_available, v.view_pos_available.as_deref()), (None, Some("left")));
}

#[test]
fn audio_stream_and_missing_values() {
    let mut raw = stream(MediaType::Audio);
    raw.descriptor = None;
    raw.codec_id = 0x15002;
    raw.profile = -99;
    raw.format_name = None;
    raw.format = 77;
    raw.channel_layout = Some(String::new());
    raw.id = 0;
    raw.start_time = NO_PTS;
    raw.duration = 0;
    raw.bit_rate = 0;
    raw.nb_frames = -1;
    raw.extradata_size = 0;
    let s = stream_info(&raw, 0, 9);
    assert_eq!((s.codec_name.as_str(), s.codec_long_name.as_str()), ("unknown(0x15002)", "Unknown codec"));
    assert_eq!((s.profile, s.id, s.start_pts, s.start_time), (None, None, None, None));
    assert_eq!((s.duration_ts, s.duration, s.bit_rate, s.nb_frames), (None, None, None, None));
    assert_eq!(s.extradata_size, None);
    assert!(s.video.is_none());
    let a = s.audio.unwrap();
    assert_eq!((a.sample_format.as_str(), a.sample_rate.as_str()), ("unknown(77)", "48000"));
    assert_eq!((a.channels, a.channel_layout, a.bits_per_sample), (2, None, 24));
    let mut closed = stream(MediaType::Video);
    closed.decoder = DecoderProbe::Closed { refs: 3 };
    closed.sample_aspect_ratio = q(0, 1);
    closed.component_depth = None;
    let v = stream_info(&closed, 0, 9).video.unwrap();
    assert_eq!((v.refs, v.coded_height, v.bit_depth), (3, 1080, 8));
    assert_eq!(v.sample_aspect_ratio, "1:1");
    let v = stream_info(&stream(MediaType::Video), 0, 9).video.unwrap();
    assert_eq!(v.refs, 1);
}

#[test]
fn side_data() {
    let dovi = |n: usize| RawSideData {
        kind: 24,
        kind_name: Some("DOVI configuration record".to_string()),
        is_dovi: true,
        data: (1..=n as u8).collect(),
    };
    let other = RawSideData { kind: 99, kind_name: None, is_dovi: false, data: vec![0; 20] };
    let list = extract_coded_side_data(&vec![dovi(9), dovi(8), other], 9);
    assert_eq!(list[0].side_data_type, "DOVI configuration record");
    assert_eq!((list[0].dv_version_major, list[0].dv_version_minor), (Some(1), Some(2)));
    assert_eq!((list[0].dv_profile, list[0].dv_level), (Some(3), Some(4)));
    assert_eq!((list[0].rpu_present_flag, list[0].el_present_flag), (Some(5), Some(6)));
    assert_eq!((list[0].bl_present_flag, list[0].bl_signal_compatibility_id), (Some(7), Some(8)));
    assert_eq!(list[1].dv_profile, None);
    assert_eq!((list[2].side_data_type.as_str(), list[2].dv_profile), ("unknown(99)", None));
}

#[test]
fn whole_file() {
    let raw = format(vec![stream(MediaType::Audio), stream(MediaType::Video), stream(MediaType::Video)]);
    assert!(format_does_fit(&raw));
    let hdr = vec![packet(0, &[31]), packet(1, &[4, 31])];
    let info = probe_format_ctx(&raw, "film.mkv", "12345", 9, &hdr);
    assert_eq!((info.format.filename.as_str(), info.format.size.as_str()), ("film.mkv", "12345"));
    assert_eq!((info.format.nb_streams, info.format.probe_score), (3, 100));
    assert_eq!((info.format.duration.as_str(), info.format.bit_rate.as_str()), ("60.500000", "4000123"));
    assert_eq!(info.streams.iter().map(|s| s.index).collect::<Vec<_>>(), vec![0, 1, 2]);
    let flags: Vec<bool> = info.streams.iter().map(|s| s.has_hdr10_plus).collect();
    assert_eq!(flags, vec![false, true, false]);
    assert_eq!(info.chapters.len(), 2);
    assert_eq!((info.chapters[0].id, info.chapters[0].time_base.as_str()), (3, "1/1000"));
    assert_eq!((info.chapters[1].end, info.chapters[1].time_base.as_str()), (60500, "1/0"));
    assert_eq!(extract_chapters(&raw.chapters).len(), 2);
}

#[test]
fn file_without_times() {
    let mut raw = format(vec![]);
    raw.start_time = NO_PTS;
    raw.start_seconds = "x".to_string();
    raw.duration = -1;
    raw.duration_seconds = "y".to_string();
    let info = probe_format_ctx(&raw, "", "0", 9, &vec![]);
    assert_eq!((info.format.start_time.as_str(), info.format.duration.as_str()), ("0.000000", "0.000000"));
}

#[test]
fn search_for_dynamic_metadata_ends() {
    let streams = vec![stream(MediaType::Audio), stream(MediaType::Video)];
    assert_eq!(first_video_stream(&streams), Some(1));
    let mut packets = vec![];
    for _ in 0..32 {
        assert!(wants_packet(&streams, &packets));
        packets.push(packet(1, &[]));
    }
    assert!(!wants_packet(&streams, &packets));
    packets.push(packet(1, &[31]));
    let raw = format(vec![stream(MediaType::Audio), stream(MediaType::Video)]);
    assert!(!probe_format_ctx(&raw, "", "0", 9, &packets).streams[1].has_hdr10_plus);
    assert!(!wants_packet(&streams, &vec![packet(1, &[31])]));
    assert!(wants_packet(&streams, &vec![packet(0, &[31]), packet(-1, &[31])]));
    assert!(!wants_packet(&vec![stream(MediaType::Audio)], &vec![]));
}

#[test]
fn sizes_and_options() {
    assert_eq!(size_text("/a/b.mkv", Some(77)), "77");
    assert_eq!(size_text("/a/b.mkv", None), "0");
    assert_eq!(size_text("http://a/b.mkv", Some(77)), "0");
    let options = probe_options();
    assert_eq!(options[0], ("probesize".to_string(), "50000000".to_string()));
    assert_eq!(options[1], ("analyzeduration".to_string(), "50000000".to_string()));
    assert_eq!(file_size("12"), 12);
    assert_eq!(file_size("-12"), 0);
    assert!(size_in_gigabytes(1 << 30) && !size_in_gigabytes((1 << 30) - 1));
}

#[test]
fn report_of_a_file() {
    let mut raw = format(vec![stream(MediaType::Video), stream(MediaType::Audio)]);
    raw.streams[1].profile = -1;
    raw.streams[1].tags = vec![];
    let info = probe_format_ctx(&raw, "film.mkv", "2147483648", 9, &vec![]);
    let texts = ReportTexts {
        duration: Some(DurationParts { total_secs: 60, millis: 500 }),
        size_number: "2.00".to_string(),
        stream_durations: vec![Some(DurationParts { total_secs: 1, millis: 0 }), None],
    };
    let expected = "Input: film.mkv\n  Format:     matroska,webm (Matroska / WebM)\n  Duration:   00:01:00.500\n  Bitrate:    4000 kb/s\n  Size:       2.00 GB\n  Streams:    2\n  Metadata:\n    title: A film\n\n  Stream #0 (video): h264 - H.264 (High)\n    Resolution:    1920x1080\n    Pixel format:  yuv420p (8-bit)\n    Aspect ratio:  16:9\n    Color space:   bt709\n    Color range:   tv\n    Color prims:   bt2020\n    Color TRC:     smpte2084\n    Bitrate:       5000 kb/s\n    Duration:      00:00:01.000\n    Tags:\n      language: eng\n  Stream #1 (audio): h264 - H.264\n    Sample rate:   48000 Hz\n    Channels:      2 (stereo)\n    Sample format: yuv420p\n    Bit depth:     24\n    Bitrate:       5000 kb/s\n\n  Chapters:\n    #3: 0.000000 → 30.000000 [One]\n    #4: 30.000000 → 60.500000 [(no title)]\n";
    assert_eq!(print_info(&info, &texts), expected);
}

#[test]
fn report_without_anything() {
    let mut raw = format(vec![]);
    raw.chapters = vec![];
    raw.tags = vec![];
    raw.bit_rate = 0;
    let info = probe_format_ctx(&raw, "x", "1048576", 9, &vec![]);
    let texts = ReportTexts { duration: None, size_number: "1.00".to_string(), stream_durations: vec![] };
    assert_eq!(
        print_info(&info, &texts),
        "Input: x\n  Format:     matroska,webm (Matroska / WebM)\n  Size:       1.00 MB\n  Streams:    0\n\n"
    );
}
