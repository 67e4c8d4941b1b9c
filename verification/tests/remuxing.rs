use tokimo_ffmpeg::media::remux::{
    extract_audio, merge_step, mux_options, packet_time_base, plan_merge, plan_remux, remux_step,
    route_packet, subtitle_action, subtitle_codec, MergeStep, PacketTime, RouteKind, SourceStream,
    StreamRoute, SubtitleAction,
};
use tokimo_ffmpeg::model::{CodecId, MediaType, Rational, NO_PTS};

fn s(media_type: MediaType, attached_pic: bool) -> SourceStream {
    SourceStream { media_type, attached_pic }
}

fn route(input: usize, in_stream: usize, out_stream: usize, kind: RouteKind) -> StreamRoute {
    StreamRoute { input, in_stream, out_stream, kind }
}

fn main_streams() -> Vec<SourceStream> {
    vec![
        s(MediaType::Video, false),
        s(MediaType::Audio, false),
        s(MediaType::Video, true),
        s(MediaType::Subtitle, false),
    ]
}

#[test]
fn everything_is_copied() {
    let routes = plan_remux(&main_streams(), &None, &None, false, None);
    let expected: Vec<StreamRoute> = (0..4).map(|i| route(0, i, i, RouteKind::Copy)).collect();
    assert_eq!(routes, expected);
}

#[test]
fn cover_and_subtitle_are_embedded() {
    let sub = Some(vec![MediaType::Data, MediaType::Subtitle, MediaType::Subtitle]);
    let cover = Some(vec![MediaType::Video]);
    let routes = plan_remux(&main_streams(), &sub, &cover, false, Some("ass"));
    assert_eq!(
        routes,
        vec![
            route(0, 0, 0, RouteKind::Copy),
            route(0, 1, 1, RouteKind::Copy),
            route(0, 3, 2, RouteKind::Copy),
            route(1, 1, 3, RouteKind::Subtitle(CodecId::Ass)),
            route(2, 0, 4, RouteKind::Cover),
        ]
    );
    let routes = plan_remux(&main_streams(), &None, &cover, true, None);
    assert_eq!(
        routes,
        vec![
            route(0, 1, 0, RouteKind::Copy),
            route(0, 3, 1, RouteKind::Copy),
            route(1, 0, 2, RouteKind::Cover),
        ]
    );
    let routes = plan_remux(&vec![], &Some(vec![]), &cover, false, None);
    assert_eq!(routes, vec![route(2, 0, 0, RouteKind::Cover)]);
}

#[test]
fn subtitle_codecs() {
    assert_eq!(subtitle_codec(Some("ssa")), CodecId::Ass);
    assert_eq!(subtitle_codec(Some("srt")), CodecId::MovText);
    assert_eq!(subtitle_codec(None), CodecId::MovText);
}

#[test]
fn merge_plan() {
    let routes = plan_merge(
        &vec![MediaType::Audio, MediaType::Video],
        &vec![MediaType::Audio, MediaType::Video, MediaType::Audio],
    )
    .unwrap();
    assert_eq!(
        routes,
        vec![
            route(0, 1, 0, RouteKind::Copy),
            route(1, 0, 1, RouteKind::Copy),
            route(1, 2, 2, RouteKind::Copy),
        ]
    );
    let e = plan_merge(&vec![MediaType::Audio], &vec![MediaType::Video]).unwrap_err();
    assert_eq!(e.message(), "No video or audio streams found in inputs");
}

#[test]
fn packets_are_routed() {
    let q = |num, den| Rational { num, den };
    let routes = vec![route(0, 1, 0, RouteKind::Copy), route(1, 0, 1, RouteKind::Copy)];
    let in_tbs = vec![q(1, 25), q(1, 30)];
    let out_tbs = vec![q(1, 12800)];
    let p = route_packet(&routes, 0, 1, &in_tbs, &out_tbs).unwrap();
    assert_eq!((p.out_stream, p.in_tb, p.out_tb), (0, q(1, 30), q(1, 12800)));
    let p = route_packet(&routes, 1, 0, &vec![], &out_tbs).unwrap();
    assert_eq!((p.out_stream, p.in_tb, p.out_tb), (1, q(1, 1), q(1, 1)));
    assert!(route_packet(&routes, 0, 0, &in_tbs, &out_tbs).is_none());
    assert!(route_packet(&routes, 0, -1, &in_tbs, &out_tbs).is_none());
    assert_eq!(packet_time_base(&in_tbs, 0), q(1, 25));
    assert_eq!(packet_time_base(&in_tbs, 2), q(1, 1));
    assert_eq!(packet_time_base(&in_tbs, -1), q(1, 1));
}

fn t(dts: i64, pts: i64, num: i32, den: i32) -> Option<PacketTime> {
    Some(PacketTime { dts, pts, time_base: Rational { num, den } })
}

#[test]
fn earlier_packet_first() {
    assert_eq!(merge_step(None, None), MergeStep::Done);
    assert_eq!(merge_step(t(9, 9, 1, 1), None), MergeStep::WriteVideo);
    assert_eq!(merge_step(None, t(9, 9, 1, 1)), MergeStep::WriteAudio);
    assert_eq!(merge_step(t(1, 0, 1, 3), t(16000, 0, 1, 48000)), MergeStep::WriteVideo);
    assert_eq!(merge_step(t(1, 0, 1, 3), t(15999, 0, 1, 48000)), MergeStep::WriteAudio);
    assert_eq!(merge_step(t(NO_PTS, 5, 1, 10), t(4, 0, 1, 10)), MergeStep::WriteAudio);
    assert_eq!(merge_step(t(NO_PTS, NO_PTS, 1, 10), t(0, 0, 1, 10)), MergeStep::WriteVideo);
    assert_eq!(merge_step(t(NO_PTS, NO_PTS, 1, 10), t(-1, 0, 1, 10)), MergeStep::WriteAudio);
    assert_eq!(merge_step(t(1, 0, 1, -2), t(-1, 0, 1, 3)), MergeStep::WriteVideo);
    assert_eq!(merge_step(t(1, 0, 1, 0), t(i64::MAX, 0, 1, 1)), MergeStep::WriteAudio);
    assert_eq!(merge_step(t(0, 0, 1, 0), t(0, 0, 1, 1)), MergeStep::WriteAudio);
}

#[test]
fn merge_is_in_order() {
    let video: Vec<i64> = vec![0, 40, 80, 120];
    let audio: Vec<i64> = vec![0, 21, 43, 64, 85, 107];
    let (mut v, mut a, mut order) = (0, 0, vec![]);
    loop {
        let next_v = video.get(v).and_then(|d| t(*d, *d, 1, 1000));
        let next_a = audio.get(a).and_then(|d| t(*d, *d, 1, 1000));
        match merge_step(next_v, next_a) {
            MergeStep::Done => break,
            MergeStep::WriteVideo => {
                order.push(video[v]);
                v += 1;
            }
            MergeStep::WriteAudio => {
                order.push(audio[a]);
                a += 1;
            }
        }
    }
    assert_eq!(order, vec![0, 0, 21, 40, 43, 64, 80, 85, 107, 120]);
}

#[test]
fn earliest_input_first() {
    assert_eq!(remux_step(&vec![]), None);
    assert_eq!(remux_step(&vec![None, None]), None);
    assert_eq!(remux_step(&vec![None, t(5, 5, 1, 1), None]), Some(1));
    assert_eq!(remux_step(&vec![t(3, 3, 1, 1), t(3000, 0, 1, 1000), t(2, 0, 1, 1)]), Some(2));
    assert_eq!(remux_step(&vec![t(3, 3, 1, 1), t(3000, 0, 1, 1000)]), Some(0));
    assert_eq!(remux_step(&vec![t(3, 3, 1, 1), t(2999, 0, 1, 1000)]), Some(1));
}

#[test]
fn every_routed_packet_is_written_once() {
    let main = vec![s(MediaType::Video, false), s(MediaType::Data, false)];
    let routes = plan_remux(
        &main,
        &Some(vec![MediaType::Subtitle]),
        &Some(vec![MediaType::Audio, MediaType::Video]),
        false,
        Some("srt"),
    );
    let queues: Vec<Vec<(i32, i64)>> = vec![
        vec![(0, 0), (1, 10), (0, 40), (0, 80)],
        vec![(0, 5), (0, 60)],
        vec![(0, 0), (1, 0)],
    ];
    let mut next = vec![0; 3];
    let mut written = vec![];
    loop {
        let heads = (0..3)
            .map(|i| queues[i].get(next[i]).and_then(|(_, dts)| t(*dts, *dts, 1, 1000)))
            .collect();
        let Some(i) = remux_step(&heads) else { break };
        let (stream, dts) = queues[i][next[i]];
        next[i] += 1;
        if let Some(r) = route_packet(&routes, i, stream, &vec![], &vec![]) {
            written.push((r.out_stream, dts));
        }
    }
    assert_eq!(written, vec![(0, 0), (3, 0), (2, 5), (1, 10), (0, 40), (2, 60), (0, 80)]);
}

#[test]
fn subtitles_are_transcoded_where_codecs_differ() {
    assert_eq!(subtitle_action(CodecId::Ass, CodecId::Ass), SubtitleAction::Copy);
    assert_eq!(subtitle_action(CodecId::Other(94225), CodecId::MovText), SubtitleAction::Transcode);
}

#[test]
fn options_of_a_remux() {
    assert!(mux_options(false).is_empty());
    assert_eq!(mux_options(true), vec![("movflags".to_string(), "+faststart".to_string())]);
    let meta = vec![("title".to_string(), "x".to_string())];
    let o = extract_audio("in.mkv", "out.m4a", &meta);
    assert_eq!((o.input.as_str(), o.output.as_str()), ("in.mkv", "out.m4a"));
    assert!(o.strip_video && !o.movflags_faststart && o.cover_file.is_none());
    assert!(o.subtitle_file.is_none() && o.subtitle_language.is_none() && o.chapters_file.is_none());
    assert_eq!(o.metadata, meta);
}
