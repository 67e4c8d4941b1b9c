//! Copying streams from one container to another: which streams go where, and in what order.

use crate::error::Error;
use crate::model::{CodecId, MediaType, Rational, NO_PTS};
use crate::text::same;
use vstd::prelude::*;

verus! {

/// Options for remuxing a media file.
#[derive(Debug)]
pub struct RemuxOptions {
    pub input: String,
    pub output: String,
    /// Subtitle file to embed.
    pub subtitle_file: Option<String>,
    /// Subtitle language code (`eng`).
    pub subtitle_language: Option<String>,
    /// Chapter metadata file.
    pub chapters_file: Option<String>,
    /// Cover image to embed as attached picture.
    pub cover_file: Option<String>,
    /// Metadata key-value pairs to embed.
    pub metadata: Vec<(String, String)>,
    /// Strip video tracks (audio-only extraction).
    pub strip_video: bool,
    /// Put the index at the front for progressive download.
    pub movflags_faststart: bool,
}

/// A stream of the main input.
#[derive(Clone, Copy, Debug, PartialEq, Eq, Structural)]
pub struct SourceStream {
    pub media_type: MediaType,
    /// It is an attached picture.
    pub attached_pic: bool,
}

/// What an output stream is made from.
#[derive(Clone, Copy, Debug, PartialEq, Eq, Structural)]
pub enum RouteKind {
    /// A copy; the muxer picks the codec tag.
    Copy,
    /// An embedded subtitle of this codec.
    Subtitle(CodecId),
    /// An attached cover picture.
    Cover,
}

/// Where a stream of an input goes.
#[derive(Clone, Copy, Debug, PartialEq, Eq, Structural)]
pub struct StreamRoute {
    pub input: usize,
    pub in_stream: usize,
    pub out_stream: usize,
    pub kind: RouteKind,
}

/// The stream of the main input is kept: video is dropped where it is stripped, and an attached
/// picture where a cover replaces it.
pub open spec fn is_kept(s: SourceStream, strip_video: bool, has_cover: bool) -> bool {
    !(s.media_type == MediaType::Video && (strip_video || (s.attached_pic && has_cover)))
}

/// The numbers of the kept streams among the first `n`.
pub open spec fn kept_streams(
    main: Seq<SourceStream>,
    strip_video: bool,
    has_cover: bool,
    n: nat,
) -> Seq<int>
    decreases n,
{
    if n == 0 {
        Seq::empty()
    } else {
        let before = kept_streams(main, strip_video, has_cover, (n - 1) as nat);
        if is_kept(main[n - 1], strip_video, has_cover) {
            before.push(n - 1)
        } else {
            before
        }
    }
}

/// The numbers of the streams of a type among the first `n`.
pub open spec fn streams_of_type(streams: Seq<MediaType>, t: MediaType, n: nat) -> Seq<int>
    decreases n,
{
    if n == 0 {
        Seq::empty()
    } else {
        let before = streams_of_type(streams, t, (n - 1) as nat);
        if streams[n - 1] == t {
            before.push(n - 1)
        } else {
            before
        }
    }
}

/// Routes of the streams `picked` of an input, to the output streams from `from` on.
pub open spec fn are_routes(
    routes: Seq<StreamRoute>,
    input: int,
    picked: Seq<int>,
    from: int,
    kind: RouteKind,
) -> bool {
    &&& routes.len() == picked.len()
    &&& forall|k: int|
        0 <= k < picked.len() ==> {
            &&& (#[trigger] routes[k]).input == input
            &&& routes[k].in_stream == picked[k]
            &&& routes[k].out_stream == from + k
            &&& routes[k].kind == kind
        }
}

/// `i` is the place of the first stream of a type.
pub open spec fn is_first_of_type(streams: Seq<MediaType>, t: MediaType, i: int) -> bool {
    &&& 0 <= i < streams.len()
    &&& streams[i] == t
    &&& forall|j: int| 0 <= j < i ==> #[trigger] streams[j] != t
}

/// The routes of one optional extra input: its first stream of the type, where it has one.
pub open spec fn is_extra_route(
    routes: Seq<StreamRoute>,
    streams: Option<Vec<MediaType>>,
    t: MediaType,
    input: int,
    out_stream: int,
    kind: RouteKind,
) -> bool {
    match streams {
        None => routes.len() == 0,
        Some(s) => {
            ||| routes.len() == 0 && forall|i: int| 0 <= i < s@.len() ==> #[trigger] s@[i] != t
            ||| routes.len() == 1 && routes[0].input == input && is_first_of_type(
                s@,
                t,
                routes[0].in_stream as int,
            ) && routes[0].out_stream == out_stream && routes[0].kind == kind
        },
    }
}

pub open spec fn subtitle_codec_of(ext: Option<&str>) -> CodecId {
    match ext {
        Some(e) => if e@ == "ass"@ || e@ == "ssa"@ {
            CodecId::Ass
        } else {
            CodecId::MovText
        },
        None => CodecId::MovText,
    }
}

/// The codec of an embedded subtitle, by the extension of its file.
pub fn subtitle_codec(ext: Option<&str>) -> (r: CodecId)
    ensures
        r == subtitle_codec_of(ext),
{
    match ext {
        Some(e) => if same(e, "ass") || same(e, "ssa") {
            CodecId::Ass
        } else {
            CodecId::MovText
        },
        None => CodecId::MovText,
    }
}

fn find_type(streams: &Vec<MediaType>, t: MediaType) -> (r: Option<usize>)
    ensures
        match r {
            Some(i) => is_first_of_type(streams@, t, i as int),
            None => forall|i: int| 0 <= i < streams@.len() ==> #[trigger] streams@[i] != t,
        },
{
    let mut i: usize = 0;
    while i < streams.len()
        invariant
            i <= streams@.len(),
            forall|j: int| 0 <= j < i ==> #[trigger] streams@[j] != t,
        decreases streams@.len() - i,
    {
        if streams[i] == t {
            return Some(i);
        }
        i = i + 1;
    }
    None
}

/// The number of the cover's input: behind the subtitle's, where there is one.
pub open spec fn cover_input(has_subtitle: bool) -> int {
    if has_subtitle {
        2
    } else {
        1
    }
}

/// `routes` are those of a remux: the kept streams of the main input, then the subtitle, then the
/// cover.
pub open spec fn is_remux_plan(
    routes: Seq<StreamRoute>,
    main: Seq<SourceStream>,
    subtitle: Option<Vec<MediaType>>,
    cover: Option<Vec<MediaType>>,
    strip_video: bool,
    subtitle_codec: CodecId,
) -> bool {
    let kept = kept_streams(main, strip_video, cover is Some, main.len());
    exists|n: int|
        kept.len() <= n <= routes.len() && {
            &&& are_routes(routes.take(kept.len() as int), 0, kept, 0, RouteKind::Copy)
            &&& is_extra_route(
                #[trigger] routes.subrange(kept.len() as int, n),
                subtitle,
                MediaType::Subtitle,
                1,
                kept.len() as int,
                RouteKind::Subtitle(subtitle_codec),
            )
            &&& is_extra_route(
                routes.subrange(n, routes.len() as int),
                cover,
                MediaType::Video,
                cover_input(subtitle is Some),
                n,
                RouteKind::Cover,
            )
        }
}

proof fn lemma_kept_count(main: Seq<SourceStream>, strip_video: bool, has_cover: bool, n: nat)
    requires
        n <= main.len(),
    ensures
        kept_streams(main, strip_video, has_cover, n).len() <= n,
        forall|k: int|
            0 <= k < kept_streams(main, strip_video, has_cover, n).len() ==> 0
                <= #[trigger] kept_streams(main, strip_video, has_cover, n)[k] < n && is_kept(
                main[kept_streams(main, strip_video, has_cover, n)[k]],
                strip_video,
                has_cover,
            ),
        forall|i: int|
            0 <= i < n && is_kept(#[trigger] main[i], strip_video, has_cover) ==> kept_streams(
                main,
                strip_video,
                has_cover,
                n,
            ).contains(i),
    decreases n,
{
    if n > 0 {
        let m = (n - 1) as nat;
        lemma_kept_count(main, strip_video, has_cover, m);
        let before = kept_streams(main, strip_video, has_cover, m);
        let after = kept_streams(main, strip_video, has_cover, n);
        assert forall|i: int|
            0 <= i < n && is_kept(
                #[trigger] main[i],
                strip_video,
                has_cover,
            ) implies after.contains(i) by {
            if i < m {
                assert(before.contains(i));
                let k = choose|k: int| 0 <= k < before.len() && before[k] == i;
                assert(after[k] == i);
            } else {
                assert(after[before.len() as int] == i);
            }
        }
    }
}

/// The routes of a remux. `subtitle` and `cover` are the streams of the extra inputs, where there
/// are any; `subtitle_ext` is the extension of the subtitle file.
pub fn plan_remux(
    main: &Vec<SourceStream>,
    subtitle: &Option<Vec<MediaType>>,
    cover: &Option<Vec<MediaType>>,
    strip_video: bool,
    subtitle_ext: Option<&str>,
) -> (r: Vec<StreamRoute>)
    ensures
        is_remux_plan(
            r@,
            main@,
            *subtitle,
            *cover,
            strip_video,
            subtitle_codec_of(subtitle_ext),
        ),
{
    let has_cover = cover.is_some();
    let mut routes: Vec<StreamRoute> = Vec::new();
    let mut i: usize = 0;
    while i < main.len()
        invariant
            i <= main@.len(),
            routes@.len() <= i,
            are_routes(
                routes@,
                0,
                kept_streams(main@, strip_video, has_cover, i as nat),
                0,
                RouteKind::Copy,
            ),
        decreases main@.len() - i,
    {
        let s = main[i];
        let dropped = s.media_type == MediaType::Video && (strip_video || (s.attached_pic
            && has_cover));
        if !dropped {
            let out_stream: usize = routes.len();
            routes.push(StreamRoute { input: 0, in_stream: i, out_stream, kind: RouteKind::Copy });
        }
        i = i + 1;
    }
    let ghost kept = kept_streams(main@, strip_video, has_cover, main@.len());
    let ghost base = routes@;
    match subtitle {
        Some(streams) => {
            match find_type(streams, MediaType::Subtitle) {
                Some(k) => {
                    let out_stream: usize = routes.len();
                    routes.push(
                        StreamRoute {
                            input: 1,
                            in_stream: k,
                            out_stream,
                            kind: RouteKind::Subtitle(subtitle_codec(subtitle_ext)),
                        },
                    );
                },
                None => {},
            }
        },
        None => {},
    }
    let ghost n = routes@.len() as int;
    let ghost with_subtitle = routes@;
    let input: usize = if subtitle.is_some() {
        2
    } else {
        1
    };
    match cover {
        Some(streams) => {
            match find_type(streams, MediaType::Video) {
                Some(k) => {
                    let out_stream: usize = routes.len();
                    routes.push(
                        StreamRoute { input, in_stream: k, out_stream, kind: RouteKind::Cover },
                    );
                },
                None => {},
            }
        },
        None => {},
    }
    proof {
        assert(routes@.take(kept.len() as int) =~= base);
        let sub = routes@.subrange(kept.len() as int, n);
        let cov = routes@.subrange(n, routes@.len() as int);
        assert(sub =~= with_subtitle.subrange(kept.len() as int, n));
        assert(is_extra_route(
            sub,
            *subtitle,
            MediaType::Subtitle,
            1,
            kept.len() as int,
            RouteKind::Subtitle(subtitle_codec_of(subtitle_ext)),
        ));
        assert(is_extra_route(
            cov,
            *cover,
            MediaType::Video,
            cover_input(*subtitle is Some),
            n,
            RouteKind::Cover,
        ));
    }
    routes
}

/// The output streams of a remux are numbered in the order of their routes.
pub proof fn law_remux_numbers_outputs_in_order(
    routes: Seq<StreamRoute>,
    main: Seq<SourceStream>,
    subtitle: Option<Vec<MediaType>>,
    cover: Option<Vec<MediaType>>,
    strip_video: bool,
    subtitle_codec: CodecId,
    k: int,
)
    requires
        is_remux_plan(routes, main, subtitle, cover, strip_video, subtitle_codec),
        0 <= k < routes.len(),
    ensures
        routes[k].out_stream == k,
{
    let kept = kept_streams(main, strip_video, cover is Some, main.len());
    let n = choose|n: int|
        kept.len() <= n <= routes.len() && {
            &&& are_routes(routes.take(kept.len() as int), 0, kept, 0, RouteKind::Copy)
            &&& is_extra_route(
                #[trigger] routes.subrange(kept.len() as int, n),
                subtitle,
                MediaType::Subtitle,
                1,
                kept.len() as int,
                RouteKind::Subtitle(subtitle_codec),
            )
            &&& is_extra_route(
                routes.subrange(n, routes.len() as int),
                cover,
                MediaType::Video,
                cover_input(subtitle is Some),
                n,
                RouteKind::Cover,
            )
        };
    let sub = routes.subrange(kept.len() as int, n);
    let cov = routes.subrange(n, routes.len() as int);
    if k < kept.len() {
        assert(routes.take(kept.len() as int)[k] == routes[k]);
    } else if k < n {
        assert(sub[k - kept.len()] == routes[k]);
    } else {
        assert(cov[k - n] == routes[k]);
    }
}

/// A remux keeps every stream of the main input that is no video, and with stripped video it
/// keeps no other.
pub proof fn law_remux_keeps_what_is_not_video(
    main: Seq<SourceStream>,
    strip_video: bool,
    has_cover: bool,
    i: int,
)
    requires
        0 <= i < main.len(),
    ensures
        main[i].media_type != MediaType::Video ==> kept_streams(
            main,
            strip_video,
            has_cover,
            main.len(),
        ).contains(i),
        strip_video && main[i].media_type == MediaType::Video ==> !kept_streams(
            main,
            strip_video,
            has_cover,
            main.len(),
        ).contains(i),
{
    lemma_kept_count(main, strip_video, has_cover, main.len());
    let kept = kept_streams(main, strip_video, has_cover, main.len());
    if main[i].media_type != MediaType::Video {
        assert(is_kept(main[i], strip_video, has_cover));
    } else if strip_video && kept.contains(i) {
        let k = choose|k: int| 0 <= k < kept.len() && kept[k] == i;
        assert(is_kept(main[kept[k]], strip_video, has_cover));
    }
}

/// `routes` are those of a merge: the video streams of the first input, then the audio streams of
/// the second.
pub open spec fn is_merge_plan(
    routes: Seq<StreamRoute>,
    video: Seq<MediaType>,
    audio: Seq<MediaType>,
) -> bool {
    let v = streams_of_type(video, MediaType::Video, video.len());
    let a = streams_of_type(audio, MediaType::Audio, audio.len());
    &&& routes.len() == v.len() + a.len()
    &&& are_routes(routes.take(v.len() as int), 0, v, 0, RouteKind::Copy)
    &&& are_routes(
        routes.subrange(v.len() as int, routes.len() as int),
        1,
        a,
        v.len() as int,
        RouteKind::Copy,
    )
}

/// The routes of a merge of a video and an audio file. It is an error that there is nothing to
/// copy.
pub fn plan_merge(video: &Vec<MediaType>, audio: &Vec<MediaType>) -> (r: Result<
    Vec<StreamRoute>,
    Error,
>)
    ensures
        match r {
            Ok(routes) => routes@.len() > 0 && is_merge_plan(routes@, video@, audio@),
            Err(e) => {
                &&& e.text() == "No video or audio streams found in inputs"@
                &&& is_merge_plan(Seq::empty(), video@, audio@)
            },
        },
{
    let mut routes: Vec<StreamRoute> = Vec::new();
    let mut i: usize = 0;
    while i < video.len()
        invariant
            i <= video@.len(),
            are_routes(
                routes@,
                0,
                streams_of_type(video@, MediaType::Video, i as nat),
                0,
                RouteKind::Copy,
            ),
        decreases video@.len() - i,
    {
        if video[i] == MediaType::Video {
            let out_stream: usize = routes.len();
            routes.push(StreamRoute { input: 0, in_stream: i, out_stream, kind: RouteKind::Copy });
        }
        i = i + 1;
    }
    let ghost v = streams_of_type(video@, MediaType::Video, video@.len());
    let ghost base = routes@;
    let mut k: usize = 0;
    proof {
        assert(routes@.take(v.len() as int) =~= base);
    }
    while k < audio.len()
        invariant
            k <= audio@.len(),
            routes@.len() >= v.len(),
            routes@.take(v.len() as int) == base,
            are_routes(
                routes@.subrange(v.len() as int, routes@.len() as int),
                1,
                streams_of_type(audio@, MediaType::Audio, k as nat),
                v.len() as int,
                RouteKind::Copy,
            ),
        decreases audio@.len() - k,
    {
        let ghost before = routes@;
        if audio[k] == MediaType::Audio {
            let out_stream: usize = routes.len();
            let route = StreamRoute { input: 1, in_stream: k, out_stream, kind: RouteKind::Copy };
            routes.push(route);
            proof {
                assert(routes@.take(v.len() as int) =~= before.take(v.len() as int));
                assert(routes@.subrange(v.len() as int, routes@.len() as int) =~= before.subrange(
                    v.len() as int,
                    before.len() as int,
                ).push(route));
            }
        }
        k = k + 1;
    }
    if routes.len() == 0 {
        proof {
            assert(routes@ =~= Seq::<StreamRoute>::empty());
        }
        return Err(Error::other("No video or audio streams found in inputs"));
    }
    Ok(routes)
}

/// `k` is the place of the first route of a stream of an input.
pub open spec fn is_route_of(
    routes: Seq<StreamRoute>,
    input: int,
    in_stream: int,
    k: int,
) -> bool {
    &&& 0 <= k < routes.len()
    &&& routes[k].input == input && routes[k].in_stream == in_stream
    &&& forall|j: int|
        0 <= j < k ==> !((#[trigger] routes[j]).input == input && routes[j].in_stream == in_stream)
}

/// How a packet is written.
#[derive(Clone, Copy, Debug, PartialEq, Eq, Structural)]
pub struct PacketRoute {
    pub out_stream: usize,
    /// Its timestamps are converted from this time base ...
    pub in_tb: Rational,
    /// ... to this one.
    pub out_tb: Rational,
}

/// The time base at a place of a list, or the default.
pub open spec fn time_base_at(tbs: Seq<Rational>, i: int, default: Rational) -> Rational {
    if 0 <= i < tbs.len() {
        tbs[i]
    } else {
        default
    }
}

fn pick_time_base(tbs: &Vec<Rational>, i: usize, default: Rational) -> (r: Rational)
    ensures
        r == time_base_at(tbs@, i as int, default),
{
    if i < tbs.len() {
        tbs[i]
    } else {
        default
    }
}

/// The time base of a packet's stream; 1/1 where the stream is not listed.
pub fn packet_time_base(tbs: &Vec<Rational>, stream_index: i32) -> (r: Rational)
    ensures
        r == time_base_at(tbs@, stream_index as int, (Rational { num: 1, den: 1 })),
{
    if stream_index < 0 {
        return Rational { num: 1, den: 1 };
    }
    pick_time_base(tbs, stream_index as usize, Rational { num: 1, den: 1 })
}

/// How a packet of an input is written; `None` where its stream is not copied. A time base that
/// is not listed is 1/1 on the input side and that of the input on the output side.
pub fn route_packet(
    routes: &Vec<StreamRoute>,
    input: usize,
    stream_index: i32,
    in_tbs: &Vec<Rational>,
    out_tbs: &Vec<Rational>,
) -> (r: Option<PacketRoute>)
    ensures
        match r {
            Some(p) => exists|k: int| #[trigger]
                is_route_of(routes@, input as int, stream_index as int, k) && p.out_stream
                    == routes@[k].out_stream && p.in_tb == time_base_at(
                    in_tbs@,
                    stream_index as int,
                    (Rational { num: 1, den: 1 }),
                ) && p.out_tb == time_base_at(out_tbs@, p.out_stream as int, p.in_tb),
            None => forall|k: int|
                0 <= k < routes@.len() ==> !((#[trigger] routes@[k]).input == input
                    && routes@[k].in_stream == stream_index),
        },
{
    if stream_index < 0 {
        return None;
    }
    let in_stream: usize = stream_index as usize;
    let mut k: usize = 0;
    while k < routes.len()
        invariant
            k <= routes@.len(),
            stream_index >= 0,
            in_stream == stream_index,
            forall|j: int|
                0 <= j < k ==> !((#[trigger] routes@[j]).input == input && routes@[j].in_stream
                    == stream_index),
        decreases routes@.len() - k,
    {
        if routes[k].input == input && routes[k].in_stream == in_stream {
            proof {
                assert(is_route_of(routes@, input as int, stream_index as int, k as int));
            }
            let out_stream: usize = routes[k].out_stream;
            let in_tb = pick_time_base(in_tbs, in_stream, Rational { num: 1, den: 1 });
            let out_tb = pick_time_base(out_tbs, out_stream, in_tb);
            return Some(PacketRoute { out_stream, in_tb, out_tb });
        }
        k = k + 1;
    }
    None
}

/// The timestamps of a packet and the time base that they count in.
#[derive(Clone, Copy, Debug, PartialEq, Eq, Structural)]
pub struct PacketTime {
    pub dts: i64,
    pub pts: i64,
    pub time_base: Rational,
}

impl PacketTime {
    /// The timestamp that orders the packet: the DTS, or the PTS where there is no DTS, or zero
    /// where there is neither.
    pub open spec fn timestamp(self) -> int {
        if self.dts != NO_PTS {
            self.dts as int
        } else if self.pts != NO_PTS {
            self.pts as int
        } else {
            0
        }
    }

    /// The packet has a timestamp.
    pub open spec fn is_timed(self) -> bool {
        self.dts != NO_PTS || self.pts != NO_PTS
    }

    /// The numerator of its time in seconds.
    pub open spec fn num(self) -> int {
        self.timestamp() * self.time_base.num
    }

    /// The denominator of its time in seconds.
    pub open spec fn den(self) -> int {
        if self.is_timed() {
            self.time_base.den as int
        } else {
            1
        }
    }
}

/// Where a time lies that is written with a zero denominator: -1 before all times, 1 behind all
/// times, 2 nowhere. A time with another denominator is at 0.
pub open spec fn extreme(t: PacketTime) -> int {
    if t.den() != 0 {
        0
    } else if t.num() < 0 {
        -1
    } else if t.num() > 0 {
        1
    } else {
        2
    }
}

/// `a` is not later than `b`, as exact fractions of a second.
pub open spec fn not_later(a: PacketTime, b: PacketTime) -> bool {
    if extreme(a) == 2 || extreme(b) == 2 {
        false
    } else if extreme(a) != 0 || extreme(b) != 0 {
        extreme(a) <= extreme(b)
    } else if (a.den() < 0) == (b.den() < 0) {
        a.num() * b.den() <= b.num() * a.den()
    } else {
        a.num() * b.den() >= b.num() * a.den()
    }
}

fn fraction(t: PacketTime) -> (r: (i128, i128))
    ensures
        r.0 == t.num(),
        r.1 == t.den(),
        -0x4000_0000_0000_0000_0000_0000 <= r.0 <= 0x4000_0000_0000_0000_0000_0000,
        -0x8000_0000 <= r.1 <= 0x7fff_ffff,
{
    let ts: i64 = if t.dts != NO_PTS {
        t.dts
    } else if t.pts != NO_PTS {
        t.pts
    } else {
        0
    };
    proof {
        assert(-0x4000_0000_0000_0000_0000_0000 <= ts * t.time_base.num
            <= 0x4000_0000_0000_0000_0000_0000) by (nonlinear_arith)
            requires
                -0x8000_0000_0000_0000 <= ts <= 0x7fff_ffff_ffff_ffff,
                -0x8000_0000 <= t.time_base.num <= 0x7fff_ffff,
        ;
    }
    let den: i128 = if t.dts != NO_PTS || t.pts != NO_PTS {
        t.time_base.den as i128
    } else {
        1
    };
    ((ts as i128) * (t.time_base.num as i128), den)
}

fn extreme_of(num: i128, den: i128) -> (r: i8)
    ensures
        r == (if den != 0 {
            0int
        } else if num < 0 {
            -1
        } else if num > 0 {
            1
        } else {
            2
        }),
{
    if den != 0 {
        0
    } else if num < 0 {
        -1
    } else if num > 0 {
        1
    } else {
        2
    }
}

fn is_not_later(a: PacketTime, b: PacketTime) -> (r: bool)
    ensures
        r == not_later(a, b),
{
    let (an, ad) = fraction(a);
    let (bn, bd) = fraction(b);
    let ea: i8 = extreme_of(an, ad);
    let eb: i8 = extreme_of(bn, bd);
    if ea == 2 || eb == 2 {
        return false;
    }
    if ea != 0 || eb != 0 {
        return ea <= eb;
    }
    proof {
        assert(-0x2000_0000_0000_0000_0000_0000_0000_0000 <= an * bd
            <= 0x2000_0000_0000_0000_0000_0000_0000_0000) by (nonlinear_arith)
            requires
                -0x4000_0000_0000_0000_0000_0000 <= an <= 0x4000_0000_0000_0000_0000_0000,
                -0x8000_0000 <= bd <= 0x7fff_ffff,
        ;
        assert(-0x2000_0000_0000_0000_0000_0000_0000_0000 <= bn * ad
            <= 0x2000_0000_0000_0000_0000_0000_0000_0000) by (nonlinear_arith)
            requires
                -0x4000_0000_0000_0000_0000_0000 <= bn <= 0x4000_0000_0000_0000_0000_0000,
                -0x8000_0000 <= ad <= 0x7fff_ffff,
        ;
    }
    let left: i128 = an * bd;
    let right: i128 = bn * ad;
    if (ad < 0) == (bd < 0) {
        left <= right
    } else {
        left >= right
    }
}

/// What a merge does next.
#[derive(Clone, Copy, Debug, PartialEq, Eq, Structural)]
pub enum MergeStep {
    WriteVideo,
    WriteAudio,
    /// Both inputs have ended: write the trailer.
    Done,
}

/// The next step of a merge, given the next packet of each input.
pub open spec fn merge_choice(
    video: Option<PacketTime>,
    audio: Option<PacketTime>,
) -> MergeStep {
    match (video, audio) {
        (None, None) => MergeStep::Done,
        (Some(_), None) => MergeStep::WriteVideo,
        (None, Some(_)) => MergeStep::WriteAudio,
        (Some(v), Some(a)) => if not_later(v, a) {
            MergeStep::WriteVideo
        } else {
            MergeStep::WriteAudio
        },
    }
}

/// The next step of a merge, given the next packet of each input: the earlier packet is written
/// first, and video before audio of the same time.
pub fn merge_step(video: Option<PacketTime>, audio: Option<PacketTime>) -> (r: MergeStep)
    ensures
        r == merge_choice(video, audio),
{
    match (video, audio) {
        (None, None) => MergeStep::Done,
        (Some(_), None) => MergeStep::WriteVideo,
        (None, Some(_)) => MergeStep::WriteAudio,
        (Some(v), Some(a)) => if is_not_later(v, a) {
            MergeStep::WriteVideo
        } else {
            MergeStep::WriteAudio
        },
    }
}

/// The input whose head is the earliest among the first `n` inputs; the first of them where times
/// are the same. There is none where no input has a packet left.
pub open spec fn earliest(heads: Seq<Option<PacketTime>>, n: nat) -> Option<int>
    decreases n,
{
    if n == 0 {
        None
    } else {
        match (earliest(heads, (n - 1) as nat), heads[n - 1]) {
            (best, None) => best,
            (None, Some(_)) => Some(n - 1),
            (Some(b), Some(h)) => if not_later(heads[b]->0, h) {
                Some(b)
            } else {
                Some(n - 1)
            },
        }
    }
}

proof fn lemma_earliest(heads: Seq<Option<PacketTime>>, n: nat)
    requires
        n <= heads.len(),
    ensures
        match earliest(heads, n) {
            Some(i) => 0 <= i < n && heads[i] is Some,
            None => forall|i: int| 0 <= i < n ==> #[trigger] heads[i] is None,
        },
    decreases n,
{
    if n > 0 {
        lemma_earliest(heads, (n - 1) as nat);
    }
}

/// The input whose next packet is written, given the next packet of each input: the one with the
/// earliest packet. `None` exactly where every input has ended.
pub fn remux_step(heads: &Vec<Option<PacketTime>>) -> (r: Option<usize>)
    ensures
        (match r {
            Some(i) => Some(i as int),
            None => None,
        }) == earliest(heads@, heads@.len()),
        r is None <==> forall|i: int| 0 <= i < heads@.len() ==> #[trigger] heads@[i] is None,
        r matches Some(i) ==> i < heads@.len() && heads@[i as int] is Some,
{
    let mut best: Option<usize> = None;
    let mut i: usize = 0;
    while i < heads.len()
        invariant
            i <= heads@.len(),
            (match best {
                Some(k) => Some(k as int),
                None => None,
            }) == earliest(heads@, i as nat),
            best matches Some(k) ==> k < i && heads@[k as int] is Some,
        decreases heads@.len() - i,
    {
        match heads[i] {
            Some(h) => {
                best = match best {
                    None => Some(i),
                    Some(k) => match heads[k] {
                        Some(b) => if is_not_later(b, h) {
                            Some(k)
                        } else {
                            Some(i)
                        },
                        None => Some(i),
                    },
                };
            },
            None => {},
        }
        i = i + 1;
    }
    proof {
        lemma_earliest(heads@, heads@.len());
    }
    best
}

/// A packet of an input.
#[derive(Clone, Copy, Debug, PartialEq, Eq, Structural)]
pub struct QueuedPacket {
    pub stream_index: i32,
    pub time: PacketTime,
}

/// The times of the packets of an input.
pub open spec fn times(q: Seq<QueuedPacket>) -> Seq<PacketTime> {
    q.map_values(|p: QueuedPacket| p.time)
}

/// The times of packets that come each with the number of its input.
pub open spec fn times_of(out: Seq<(int, QueuedPacket)>) -> Seq<PacketTime> {
    out.map_values(|w: (int, QueuedPacket)| w.1.time)
}

/// The time of the next packet of an input.
pub open spec fn head(q: Seq<QueuedPacket>) -> Option<PacketTime> {
    if q.len() == 0 {
        None
    } else {
        Some(q[0].time)
    }
}

/// The times of the next packets of all inputs.
pub open spec fn heads_of(queues: Seq<Seq<QueuedPacket>>) -> Seq<Option<PacketTime>> {
    queues.map_values(|q: Seq<QueuedPacket>| head(q))
}

/// The number of packets of all inputs.
pub open spec fn packet_count(queues: Seq<Seq<QueuedPacket>>) -> nat
    decreases queues.len(),
{
    if queues.len() == 0 {
        0
    } else {
        packet_count(queues.drop_last()) + queues.last().len()
    }
}

proof fn lemma_one_packet_less(queues: Seq<Seq<QueuedPacket>>, i: int)
    requires
        0 <= i < queues.len(),
        queues[i].len() > 0,
    ensures
        packet_count(queues.update(i, queues[i].drop_first())) + 1 == packet_count(queues),
    decreases queues.len(),
{
    let after = queues.update(i, queues[i].drop_first());
    if i == queues.len() - 1 {
        assert(after.drop_last() =~= queues.drop_last());
    } else {
        assert(after.drop_last() =~= queues.drop_last().update(i, queues[i].drop_first()));
        lemma_one_packet_less(queues.drop_last(), i);
    }
}

/// The packets of all inputs in the order in which `remux_step` takes them, each with the number
/// of its input.
pub open spec fn drained(queues: Seq<Seq<QueuedPacket>>) -> Seq<(int, QueuedPacket)>
    decreases packet_count(queues),
    via drained_shrinks
{
    match earliest(heads_of(queues), queues.len()) {
        Some(i) => seq![(i, queues[i][0])] + drained(queues.update(i, queues[i].drop_first())),
        None => Seq::empty(),
    }
}

#[via_fn]
proof fn drained_shrinks(queues: Seq<Seq<QueuedPacket>>) {
    lemma_earliest(heads_of(queues), queues.len());
    match earliest(heads_of(queues), queues.len()) {
        Some(i) => {
            assert(heads_of(queues)[i] == head(queues[i]));
            lemma_one_packet_less(queues, i);
        },
        None => {},
    }
}

/// The packets of input `i` among packets that come each with the number of its input, in order.
pub open spec fn of_input(out: Seq<(int, QueuedPacket)>, i: int) -> Seq<QueuedPacket>
    decreases out.len(),
{
    if out.len() == 0 {
        Seq::empty()
    } else if out[0].0 == i {
        seq![out[0].1] + of_input(out.drop_first(), i)
    } else {
        of_input(out.drop_first(), i)
    }
}

/// Every packet of every input is taken once, and the packets of an input in their own order.
pub proof fn law_every_packet_is_taken_once(queues: Seq<Seq<QueuedPacket>>, i: int)
    requires
        0 <= i < queues.len(),
    ensures
        of_input(drained(queues), i) == queues[i],
        drained(queues).len() == packet_count(queues),
    decreases packet_count(queues),
{
    lemma_earliest(heads_of(queues), queues.len());
    match earliest(heads_of(queues), queues.len()) {
        Some(j) => {
            assert(heads_of(queues)[j] == head(queues[j]));
            lemma_one_packet_less(queues, j);
            let rest = queues.update(j, queues[j].drop_first());
            law_every_packet_is_taken_once(rest, i);
            let out = drained(queues);
            assert(out == seq![(j, queues[j][0])] + drained(rest));
            assert(out.drop_first() =~= drained(rest));
            if i == j {
                assert(of_input(out, i) =~= seq![queues[i][0]] + queues[i].drop_first());
                assert(queues[i] =~= seq![queues[i][0]] + queues[i].drop_first());
            }
        },
        None => {
            assert forall|k: int| 0 <= k < queues.len() implies (#[trigger] queues[k]).len() == 0 by {
                assert(heads_of(queues)[k] == head(queues[k]));
            }
            lemma_no_packets(queues);
            assert(of_input(drained(queues), i) =~= queues[i]);
        },
    }
}

proof fn lemma_no_packets(queues: Seq<Seq<QueuedPacket>>)
    requires
        forall|k: int| 0 <= k < queues.len() ==> (#[trigger] queues[k]).len() == 0,
    ensures
        packet_count(queues) == 0,
    decreases queues.len(),
{
    if queues.len() > 0 {
        assert forall|k: int| 0 <= k < queues.drop_last().len() implies (
        #[trigger] queues.drop_last()[k]).len() == 0 by {
            assert(queues[k].len() == 0);
        }
        lemma_no_packets(queues.drop_last());
        assert(queues[queues.len() - 1].len() == 0);
    }
}

/// A stream of an input has a route.
pub open spec fn is_routed(routes: Seq<StreamRoute>, input: int, stream_index: int) -> bool {
    exists|k: int|
        0 <= k < routes.len() && (#[trigger] routes[k]).input == input && routes[k].in_stream
            == stream_index
}

/// Of packets that come each with the number of its input, those whose stream has a route.
pub open spec fn routed_only(out: Seq<(int, QueuedPacket)>, routes: Seq<StreamRoute>) -> Seq<
    (int, QueuedPacket),
>
    decreases out.len(),
{
    if out.len() == 0 {
        Seq::empty()
    } else if is_routed(routes, out[0].0, out[0].1.stream_index as int) {
        seq![out[0]] + routed_only(out.drop_first(), routes)
    } else {
        routed_only(out.drop_first(), routes)
    }
}

/// Of the packets of input `i`, those whose stream has a route.
pub open spec fn routed_packets(q: Seq<QueuedPacket>, routes: Seq<StreamRoute>, i: int) -> Seq<
    QueuedPacket,
>
    decreases q.len(),
{
    if q.len() == 0 {
        Seq::empty()
    } else if is_routed(routes, i, q[0].stream_index as int) {
        seq![q[0]] + routed_packets(q.drop_first(), routes, i)
    } else {
        routed_packets(q.drop_first(), routes, i)
    }
}

/// The packets that a remux writes, in order: those of all inputs as `remux_step` takes them, as
/// far as `route_packet` has a route for them.
pub open spec fn written(queues: Seq<Seq<QueuedPacket>>, routes: Seq<StreamRoute>) -> Seq<
    (int, QueuedPacket),
> {
    routed_only(drained(queues), routes)
}

proof fn lemma_routed_of_input(out: Seq<(int, QueuedPacket)>, routes: Seq<StreamRoute>, i: int)
    ensures
        of_input(routed_only(out, routes), i) == routed_packets(of_input(out, i), routes, i),
    decreases out.len(),
{
    if out.len() > 0 {
        let rest = out.drop_first();
        lemma_routed_of_input(rest, routes, i);
        let kept = seq![out[0]] + routed_only(rest, routes);
        assert(kept.drop_first() =~= routed_only(rest, routes));
        let own = seq![out[0].1] + of_input(rest, i);
        assert(own.drop_first() =~= of_input(rest, i));
    }
}

/// A remux writes every packet of every routed stream once, in its own order, and no other packet.
pub proof fn law_routed_packets_are_written_once(
    queues: Seq<Seq<QueuedPacket>>,
    routes: Seq<StreamRoute>,
    i: int,
)
    requires
        0 <= i < queues.len(),
    ensures
        of_input(written(queues, routes), i) == routed_packets(queues[i], routes, i),
{
    law_every_packet_is_taken_once(queues, i);
    lemma_routed_of_input(drained(queues), routes, i);
}

/// The first subtitle stream of the subtitle file and the first picture of the cover file have
/// routes of their own, so their packets are written to the output streams that were added for
/// them.
pub proof fn law_subtitle_and_cover_are_embedded(
    routes: Seq<StreamRoute>,
    main: Seq<SourceStream>,
    subtitle: Option<Vec<MediaType>>,
    cover: Option<Vec<MediaType>>,
    strip_video: bool,
    subtitle_codec: CodecId,
    f: int,
)
    requires
        is_remux_plan(routes, main, subtitle, cover, strip_video, subtitle_codec),
    ensures
        subtitle matches Some(s) ==> is_first_of_type(s@, MediaType::Subtitle, f) ==> exists|k: int|
            #[trigger]
            is_route_of(routes, 1, f, k) && routes[k].kind == RouteKind::Subtitle(subtitle_codec)
                && routes[k].out_stream == k && is_routed(routes, 1, f),
        cover matches Some(c) ==> is_first_of_type(c@, MediaType::Video, f) ==> exists|k: int|
            #[trigger]
            is_route_of(routes, cover_input(subtitle is Some), f, k) && routes[k].kind
                == RouteKind::Cover && routes[k].out_stream == k && is_routed(
                routes,
                cover_input(subtitle is Some),
                f,
            ),
{
    let kept = kept_streams(main, strip_video, cover is Some, main.len());
    let n = choose|n: int|
        kept.len() <= n <= routes.len() && {
            &&& are_routes(routes.take(kept.len() as int), 0, kept, 0, RouteKind::Copy)
            &&& is_extra_route(
                #[trigger] routes.subrange(kept.len() as int, n),
                subtitle,
                MediaType::Subtitle,
                1,
                kept.len() as int,
                RouteKind::Subtitle(subtitle_codec),
            )
            &&& is_extra_route(
                routes.subrange(n, routes.len() as int),
                cover,
                MediaType::Video,
                cover_input(subtitle is Some),
                n,
                RouteKind::Cover,
            )
        };
    let sub = routes.subrange(kept.len() as int, n);
    let cov = routes.subrange(n, routes.len() as int);
    assert forall|j: int| 0 <= j < kept.len() implies (#[trigger] routes[j]).input == 0 by {
        assert(routes.take(kept.len() as int)[j] == routes[j]);
    }
    if subtitle is Some && is_first_of_type(subtitle->0@, MediaType::Subtitle, f) {
        let k = kept.len() as int;
        assert(sub.len() == 1);
        assert(sub[0] == routes[k]);
        lemma_first_is_unique(subtitle->0@, MediaType::Subtitle, f, routes[k].in_stream as int);
        assert(is_route_of(routes, 1, f, k));
    }
    if cover is Some && is_first_of_type(cover->0@, MediaType::Video, f) {
        assert(cov.len() == 1);
        assert(cov[0] == routes[n]);
        lemma_first_is_unique(cover->0@, MediaType::Video, f, routes[n].in_stream as int);
        assert forall|j: int| 0 <= j < n implies (#[trigger] routes[j]).input != cover_input(
            subtitle is Some,
        ) by {
            if j >= kept.len() {
                assert(sub[j - kept.len()] == routes[j]);
            }
        }
        assert(is_route_of(routes, cover_input(subtitle is Some), f, n));
    }
}

proof fn lemma_first_is_unique(streams: Seq<MediaType>, t: MediaType, i: int, j: int)
    requires
        is_first_of_type(streams, t, i),
        is_first_of_type(streams, t, j),
    ensures
        i == j,
{
    if i < j {
        assert(streams[i] != t);
    } else if j < i {
        assert(streams[j] != t);
    }
}

/// Every time base has a positive denominator.
pub open spec fn have_time(s: Seq<PacketTime>) -> bool {
    forall|i: int| 0 <= i < s.len() ==> (#[trigger] s[i]).time_base.den > 0
}

/// No packet is later than one behind it.
pub open spec fn in_order(s: Seq<PacketTime>) -> bool {
    forall|i: int, j: int| 0 <= i <= j < s.len() ==> not_later(#[trigger] s[i], #[trigger] s[j])
}

/// The packets of every input are in order, and their time bases have positive denominators.
pub open spec fn inputs_in_order(queues: Seq<Seq<QueuedPacket>>) -> bool {
    forall|i: int|
        0 <= i < queues.len() ==> have_time(times(#[trigger] queues[i])) && in_order(
            times(queues[i]),
        )
}

proof fn lemma_not_later_transitive(a: PacketTime, b: PacketTime, c: PacketTime)
    requires
        a.time_base.den > 0,
        b.time_base.den > 0,
        c.time_base.den > 0,
        not_later(a, b),
        not_later(b, c),
    ensures
        not_later(a, c),
{
    let (an, ad) = (a.num(), a.den());
    let (bn, bd) = (b.num(), b.den());
    let (cn, cd) = (c.num(), c.den());
    assert(an * cd <= cn * ad) by (nonlinear_arith)
        requires
            ad > 0,
            bd > 0,
            cd > 0,
            an * bd <= bn * ad,
            bn * cd <= cn * bd,
    ;
}

proof fn lemma_not_later_total(a: PacketTime, b: PacketTime)
    requires
        a.time_base.den > 0,
        b.time_base.den > 0,
    ensures
        not_later(a, b) || not_later(b, a),
        not_later(a, a),
{
}

proof fn lemma_earliest_is_first(heads: Seq<Option<PacketTime>>, n: nat, j: int)
    requires
        n <= heads.len(),
        forall|i: int| 0 <= i < n ==> (#[trigger] heads[i] matches Some(h) ==> h.time_base.den > 0),
        0 <= j < n,
        heads[j] is Some,
    ensures
        earliest(heads, n) is Some,
        not_later(heads[earliest(heads, n)->0]->0, heads[j]->0),
    decreases n,
{
    let m = (n - 1) as nat;
    lemma_earliest(heads, m);
    assert(heads[j] matches Some(h) ==> h.time_base.den > 0);
    assert(heads[n - 1] matches Some(h) ==> h.time_base.den > 0);
    match (earliest(heads, m), heads[n - 1]) {
        (Some(b), Some(h)) => {
            assert(heads[b] matches Some(x) ==> x.time_base.den > 0);
            lemma_not_later_total(heads[b]->0, h);
            lemma_not_later_total(h, h);
            if j < m {
                lemma_earliest_is_first(heads, m, j);
                if !not_later(heads[b]->0, h) {
                    lemma_not_later_transitive(h, heads[b]->0, heads[j]->0);
                }
            }
        },
        (Some(b), None) => {
            lemma_earliest_is_first(heads, m, j);
        },
        (None, _) => {
            lemma_not_later_total(heads[j]->0, heads[j]->0);
        },
    }
}

proof fn lemma_drained_after(first: PacketTime, queues: Seq<Seq<QueuedPacket>>)
    requires
        first.time_base.den > 0,
        inputs_in_order(queues),
        forall|i: int|
            0 <= i < queues.len() && (#[trigger] queues[i]).len() > 0 ==> not_later(
                first,
                queues[i][0].time,
            ),
    ensures
        have_time(times_of(drained(queues))),
        in_order(times_of(drained(queues))),
        forall|i: int|
            0 <= i < drained(queues).len() ==> not_later(
                first,
                #[trigger] times_of(drained(queues))[i],
            ),
    decreases packet_count(queues),
{
    let heads = heads_of(queues);
    lemma_earliest(heads, queues.len());
    match earliest(heads, queues.len()) {
        Some(j) => {
            assert(heads[j] == head(queues[j]));
            lemma_one_packet_less(queues, j);
            let p = queues[j][0];
            let rest = queues.update(j, queues[j].drop_first());
            assert(have_time(times(queues[j])) && in_order(times(queues[j])));
            assert(times(queues[j])[0] == p.time);
            assert forall|i: int| 0 <= i < heads.len() implies (#[trigger] heads[i] matches Some(
                h,
            ) ==> h.time_base.den > 0) by {
                assert(have_time(times(queues[i])));
                if queues[i].len() > 0 {
                    assert(times(queues[i])[0] == queues[i][0].time);
                }
            }
            assert forall|i: int| 0 <= i < rest.len() implies have_time(times(#[trigger] rest[i]))
                && in_order(times(rest[i])) by {
                assert(have_time(times(queues[i])) && in_order(times(queues[i])));
                if i == j {
                    let t = times(queues[j]);
                    let u = times(rest[j]);
                    assert(u =~= t.drop_first());
                    assert forall|x: int, y: int| 0 <= x <= y < u.len() implies not_later(
                        #[trigger] u[x],
                        #[trigger] u[y],
                    ) by {
                        assert(not_later(t[x + 1], t[y + 1]));
                    }
                    assert forall|x: int| 0 <= x < u.len() implies (
                    #[trigger] u[x]).time_base.den > 0 by {
                        assert(t[x + 1].time_base.den > 0);
                    }
                }
            }
            assert forall|i: int| 0 <= i < rest.len() && (
            #[trigger] rest[i]).len() > 0 implies not_later(p.time, rest[i][0].time) by {
                if i == j {
                    let t = times(queues[j]);
                    assert(t[1] == rest[j][0].time);
                    assert(not_later(t[0], t[1]));
                } else {
                    assert(heads[i] == head(queues[i]));
                    lemma_earliest_is_first(heads, queues.len(), i);
                }
            }
            lemma_drained_after(p.time, rest);
            assert(not_later(first, p.time)) by {
                assert(queues[j].len() > 0);
            }
            lemma_prepend(first, p.time, times_of(drained(rest)));
            assert(times_of(drained(queues)) =~= seq![p.time] + times_of(drained(rest)));
        },
        None => {},
    }
}

proof fn lemma_prepend(first: PacketTime, x: PacketTime, rest: Seq<PacketTime>)
    requires
        first.time_base.den > 0,
        x.time_base.den > 0,
        not_later(first, x),
        have_time(rest),
        in_order(rest),
        forall|i: int| 0 <= i < rest.len() ==> not_later(x, #[trigger] rest[i]),
    ensures
        have_time(seq![x] + rest),
        in_order(seq![x] + rest),
        forall|i: int|
            0 <= i < (seq![x] + rest).len() ==> not_later(first, #[trigger] (seq![x] + rest)[i]),
{
    let m = seq![x] + rest;
    assert forall|i: int| 0 <= i < m.len() implies (#[trigger] m[i]).time_base.den > 0 && not_later(
        first,
        m[i],
    ) by {
        if i > 0 {
            assert(m[i] == rest[i - 1]);
            lemma_not_later_transitive(first, x, rest[i - 1]);
        }
    }
    assert forall|i: int, j: int| 0 <= i <= j < m.len() implies not_later(
        #[trigger] m[i],
        #[trigger] m[j],
    ) by {
        if i > 0 {
            assert(m[i] == rest[i - 1] && m[j] == rest[j - 1]);
            assert(not_later(rest[i - 1], rest[j - 1]));
        } else if j > 0 {
            assert(m[j] == rest[j - 1]);
        } else {
            lemma_not_later_total(x, x);
        }
    }
}

/// Inputs whose packets are in order give packets in order: the smallest timestamp first. Time
/// bases have positive denominators.
pub proof fn law_packets_are_taken_in_order(queues: Seq<Seq<QueuedPacket>>)
    requires
        inputs_in_order(queues),
    ensures
        in_order(times_of(drained(queues))),
{
    let heads = heads_of(queues);
    lemma_earliest(heads, queues.len());
    match earliest(heads, queues.len()) {
        Some(j) => {
            assert(heads[j] == head(queues[j]));
            assert forall|i: int| 0 <= i < heads.len() implies (#[trigger] heads[i] matches Some(
                h,
            ) ==> h.time_base.den > 0) by {
                assert(have_time(times(queues[i])));
                if queues[i].len() > 0 {
                    assert(times(queues[i])[0] == queues[i][0].time);
                }
            }
            assert(heads[j] matches Some(h) ==> h.time_base.den > 0);
            assert forall|i: int| 0 <= i < queues.len() && (
            #[trigger] queues[i]).len() > 0 implies not_later(
                queues[j][0].time,
                queues[i][0].time,
            ) by {
                assert(heads[i] == head(queues[i]));
                lemma_earliest_is_first(heads, queues.len(), i);
            }
            lemma_drained_after(queues[j][0].time, queues);
        },
        None => {},
    }
}

/// The packets in the order in which a merge of two inputs writes them; input 0 is the video.
pub open spec fn merged(video: Seq<QueuedPacket>, audio: Seq<QueuedPacket>) -> Seq<
    (int, QueuedPacket),
>
    decreases video.len() + audio.len(),
{
    match merge_choice(head(video), head(audio)) {
        MergeStep::Done => Seq::empty(),
        MergeStep::WriteVideo => if video.len() == 0 {
            Seq::empty()
        } else {
            seq![(0int, video[0])] + merged(video.drop_first(), audio)
        },
        MergeStep::WriteAudio => if audio.len() == 0 {
            Seq::empty()
        } else {
            seq![(1int, audio[0])] + merged(video, audio.drop_first())
        },
    }
}

/// A merge takes the packets of its two inputs as a remux does.
pub proof fn law_merge_is_a_remux_of_two(video: Seq<QueuedPacket>, audio: Seq<QueuedPacket>)
    ensures
        merged(video, audio) == drained(seq![video, audio]),
    decreases video.len() + audio.len(),
{
    let queues = seq![video, audio];
    let heads = heads_of(queues);
    assert(heads[0] == head(video) && heads[1] == head(audio));
    reveal_with_fuel(earliest, 3);
    lemma_earliest(heads, 2);
    match merge_choice(head(video), head(audio)) {
        MergeStep::Done => {
            assert(earliest(heads, 2) is None);
        },
        MergeStep::WriteVideo => {
            assert(earliest(heads, 2) == Some(0int));
            law_merge_is_a_remux_of_two(video.drop_first(), audio);
            assert(queues.update(0, video.drop_first()) =~= seq![video.drop_first(), audio]);
        },
        MergeStep::WriteAudio => {
            assert(earliest(heads, 2) == Some(1int));
            law_merge_is_a_remux_of_two(video, audio.drop_first());
            assert(queues.update(1, audio.drop_first()) =~= seq![video, audio.drop_first()]);
        },
    }
}

/// A merge writes every packet of both inputs once, and those of each input in their own order.
pub proof fn law_merge_writes_every_packet_once(
    video: Seq<QueuedPacket>,
    audio: Seq<QueuedPacket>,
)
    ensures
        of_input(merged(video, audio), 0) == video,
        of_input(merged(video, audio), 1) == audio,
        merged(video, audio).len() == video.len() + audio.len(),
{
    let queues = seq![video, audio];
    law_merge_is_a_remux_of_two(video, audio);
    law_every_packet_is_taken_once(queues, 0);
    law_every_packet_is_taken_once(queues, 1);
    assert(queues.drop_last() =~= seq![video]);
    assert(seq![video].drop_last() =~= Seq::<Seq<QueuedPacket>>::empty());
    reveal_with_fuel(packet_count, 3);
}

/// Merging two inputs whose packets are in order writes the packets in order: the smallest
/// timestamp first. Time bases have positive denominators.
pub proof fn law_merge_writes_in_order(video: Seq<QueuedPacket>, audio: Seq<QueuedPacket>)
    requires
        have_time(times(video)),
        have_time(times(audio)),
        in_order(times(video)),
        in_order(times(audio)),
    ensures
        in_order(times_of(merged(video, audio))),
{
    law_merge_is_a_remux_of_two(video, audio);
    law_packets_are_taken_in_order(seq![video, audio]);
}

/// What is done with the packets of an embedded subtitle.
#[derive(Clone, Copy, Debug, PartialEq, Eq, Structural)]
pub enum SubtitleAction {
    /// They are copied.
    Copy,
    /// They are decoded and encoded again in the codec of the output stream.
    Transcode,
}

/// What is done with the packets of an embedded subtitle: they are transcoded where the file's
/// codec is not that of the output stream.
pub fn subtitle_action(source: CodecId, target: CodecId) -> (r: SubtitleAction)
    ensures
        r == (if source == target {
            SubtitleAction::Copy
        } else {
            SubtitleAction::Transcode
        }),
{
    if source == target {
        SubtitleAction::Copy
    } else {
        SubtitleAction::Transcode
    }
}

/// The options of the muxer of a remux, as key and value.
pub fn mux_options(faststart: bool) -> (r: Vec<(String, String)>)
    ensures
        r@.len() == (if faststart {
            1int
        } else {
            0
        }),
        faststart ==> r@[0].0@ == "movflags"@ && r@[0].1@ == "+faststart"@,
{
    let mut options: Vec<(String, String)> = Vec::new();
    if faststart {
        options.push(("movflags".to_owned(), "+faststart".to_owned()));
    }
    options
}

/// The options of an extraction of the audio: the video tracks are stripped, and nothing is
/// embedded but the metadata.
pub fn extract_audio(input: &str, output: &str, metadata: &Vec<(String, String)>) -> (r:
    RemuxOptions)
    ensures
        r.input@ == input@,
        r.output@ == output@,
        r.subtitle_file is None,
        r.subtitle_language is None,
        r.chapters_file is None,
        r.cover_file is None,
        r.metadata@.len() == metadata@.len(),
        forall|i: int|
            0 <= i < metadata@.len() ==> (#[trigger] r.metadata@[i]).0@ == metadata@[i].0@
                && r.metadata@[i].1@ == metadata@[i].1@,
        r.strip_video,
        !r.movflags_faststart,
{
    let mut copied: Vec<(String, String)> = Vec::new();
    let mut i: usize = 0;
    while i < metadata.len()
        invariant
            i <= metadata@.len(),
            copied@.len() == i,
            forall|k: int|
                0 <= k < i ==> (#[trigger] copied@[k]).0@ == metadata@[k].0@ && copied@[k].1@
                    == metadata@[k].1@,
        decreases metadata@.len() - i,
    {
        copied.push((metadata[i].0.clone(), metadata[i].1.clone()));
        i = i + 1;
    }
    RemuxOptions {
        input: input.to_owned(),
        output: output.to_owned(),
        subtitle_file: None,
        subtitle_language: None,
        chapters_file: None,
        cover_file: None,
        metadata: copied,
        strip_video: true,
        movflags_faststart: false,
    }
}

/// Packets are compared by their times in seconds: a DTS counts in units of the whole time base,
/// numerator and denominator.
pub proof fn law_times_are_compared_in_seconds(a: PacketTime, b: PacketTime)
    requires
        a.dts != NO_PTS,
        b.dts != NO_PTS,
        a.time_base.den > 0,
        b.time_base.den > 0,
    ensures
        not_later(a, b) <==> a.dts * a.time_base.num * b.time_base.den <= b.dts * b.time_base.num
            * a.time_base.den,
        merge_choice(Some(a), Some(b)) == (if a.dts * a.time_base.num * b.time_base.den <= b.dts
            * b.time_base.num * a.time_base.den {
            MergeStep::WriteVideo
        } else {
            MergeStep::WriteAudio
        }),
{
}

/// A packet without a DTS counts by its PTS, and one without either counts as time zero, whatever
/// its time base is.
pub proof fn law_missing_timestamps(a: PacketTime, b: PacketTime)
    requires
        a.dts == NO_PTS,
    ensures
        a.pts != NO_PTS ==> not_later(a, b) == not_later(PacketTime { dts: a.pts, ..a }, b),
        a.pts != NO_PTS ==> not_later(b, a) == not_later(b, PacketTime { dts: a.pts, ..a }),
        a.pts == NO_PTS && b.dts != NO_PTS && b.time_base.den > 0 ==> (not_later(a, b) <==> 0
            <= b.dts * b.time_base.num),
        a.pts == NO_PTS && b.dts != NO_PTS && b.time_base.den > 0 ==> (not_later(b, a) <==> b.dts
            * b.time_base.num <= 0),
{
    if a.pts == NO_PTS {
        assert(a.timestamp() * a.time_base.num == 0) by (nonlinear_arith)
            requires
                a.timestamp() == 0,
        ;
        assert(a.num() * b.den() == 0 && b.num() * a.den() == b.num()) by (nonlinear_arith)
            requires
                a.num() == 0,
                a.den() == 1,
        ;
    }
}

/// A merge goes on while an input has packets, and takes a packet only from an input that has one.
pub proof fn law_merge_goes_on_to_the_end(video: Option<PacketTime>, audio: Option<PacketTime>)
    ensures
        merge_choice(video, audio) == MergeStep::Done <==> video is None && audio is None,
        merge_choice(video, audio) == MergeStep::WriteVideo ==> video is Some,
        merge_choice(video, audio) == MergeStep::WriteAudio ==> audio is Some,
{
}

proof fn lemma_first_of_equals(heads: Seq<Option<PacketTime>>, n: nat, j: int)
    requires
        n <= heads.len(),
        forall|i: int| 0 <= i < n ==> (#[trigger] heads[i] matches Some(h) ==> h.time_base.den > 0),
        earliest(heads, n) is Some,
        0 <= j < earliest(heads, n)->0,
        heads[j] is Some,
    ensures
        !not_later(heads[j]->0, heads[earliest(heads, n)->0]->0),
    decreases n,
{
    let m = (n - 1) as nat;
    lemma_earliest(heads, n);
    lemma_earliest(heads, m);
    match (earliest(heads, m), heads[n - 1]) {
        (Some(b), Some(h)) => {
            if not_later(heads[b]->0, h) {
                lemma_first_of_equals(heads, m, j);
            } else {
                assert(heads[b] matches Some(x) ==> x.time_base.den > 0);
                assert(heads[j] matches Some(x) ==> x.time_base.den > 0);
                assert(heads[n - 1] matches Some(x) ==> x.time_base.den > 0);
                lemma_earliest_is_first(heads, m, j);
                if not_later(heads[j]->0, h) {
                    lemma_not_later_transitive(heads[b]->0, heads[j]->0, h);
                }
            }
        },
        (Some(b), None) => {
            lemma_first_of_equals(heads, m, j);
        },
        (None, _) => {
            assert(heads[j] is None);
        },
    }
}

/// Of several inputs, the one with the earliest packet is taken, in seconds, and the first of them
/// where packets are equally early.
pub proof fn law_earliest_packet_is_taken(heads: Seq<Option<PacketTime>>, i: int, j: int)
    requires
        forall|k: int|
            0 <= k < heads.len() ==> (#[trigger] heads[k] matches Some(h) ==> h.time_base.den > 0
                && h.dts != NO_PTS),
        earliest(heads, heads.len()) == Some(i),
        0 <= j < heads.len(),
        heads[j] is Some,
    ensures
        0 <= i < heads.len(),
        heads[i] is Some,
        heads[i]->0.dts * heads[i]->0.time_base.num * heads[j]->0.time_base.den <= heads[j]->0.dts
            * heads[j]->0.time_base.num * heads[i]->0.time_base.den,
        j < i ==> heads[i]->0.dts * heads[i]->0.time_base.num * heads[j]->0.time_base.den
            < heads[j]->0.dts * heads[j]->0.time_base.num * heads[i]->0.time_base.den,
{
    lemma_earliest(heads, heads.len());
    assert(heads[i] matches Some(h) ==> h.time_base.den > 0 && h.dts != NO_PTS);
    assert(heads[j] matches Some(h) ==> h.time_base.den > 0 && h.dts != NO_PTS);
    lemma_earliest_is_first(heads, heads.len(), j);
    law_times_are_compared_in_seconds(heads[i]->0, heads[j]->0);
    if j < i {
        lemma_first_of_equals(heads, heads.len(), j);
        law_times_are_compared_in_seconds(heads[j]->0, heads[i]->0);
    }
}

proof fn lemma_plan_parts(
    routes: Seq<StreamRoute>,
    main: Seq<SourceStream>,
    subtitle: Option<Vec<MediaType>>,
    cover: Option<Vec<MediaType>>,
    strip_video: bool,
    subtitle_codec: CodecId,
) -> (n: int)
    requires
        is_remux_plan(routes, main, subtitle, cover, strip_video, subtitle_codec),
    ensures
        ({
            let kept = kept_streams(main, strip_video, cover is Some, main.len());
            &&& kept.len() <= n <= routes.len()
            &&& are_routes(routes.take(kept.len() as int), 0, kept, 0, RouteKind::Copy)
            &&& is_extra_route(
                routes.subrange(kept.len() as int, n),
                subtitle,
                MediaType::Subtitle,
                1,
                kept.len() as int,
                RouteKind::Subtitle(subtitle_codec),
            )
            &&& is_extra_route(
                routes.subrange(n, routes.len() as int),
                cover,
                MediaType::Video,
                cover_input(subtitle is Some),
                n,
                RouteKind::Cover,
            )
        }),
{
    let kept = kept_streams(main, strip_video, cover is Some, main.len());
    choose|n: int|
        kept.len() <= n <= routes.len() && {
            &&& are_routes(routes.take(kept.len() as int), 0, kept, 0, RouteKind::Copy)
            &&& is_extra_route(
                #[trigger] routes.subrange(kept.len() as int, n),
                subtitle,
                MediaType::Subtitle,
                1,
                kept.len() as int,
                RouteKind::Subtitle(subtitle_codec),
            )
            &&& is_extra_route(
                routes.subrange(n, routes.len() as int),
                cover,
                MediaType::Video,
                cover_input(subtitle is Some),
                n,
                RouteKind::Cover,
            )
        }
}

/// A remux copies a stream of the main input exactly if it is no video, or video is not stripped
/// and it is no attached picture that a cover replaces. It is copied once, to an output of its own.
pub proof fn law_remux_copies_what_is_not_replaced(
    routes: Seq<StreamRoute>,
    main: Seq<SourceStream>,
    subtitle: Option<Vec<MediaType>>,
    cover: Option<Vec<MediaType>>,
    strip_video: bool,
    subtitle_codec: CodecId,
    i: int,
)
    requires
        is_remux_plan(routes, main, subtitle, cover, strip_video, subtitle_codec),
        0 <= i < main.len(),
    ensures
        main[i].media_type != MediaType::Video || (!strip_video && !(main[i].attached_pic && cover
            is Some)) ==> exists|k: int| #[trigger]
            is_route_of(routes, 0, i, k) && routes[k].out_stream == k && routes[k].kind
                == RouteKind::Copy,
        main[i].media_type == MediaType::Video && (strip_video || (main[i].attached_pic && cover
            is Some)) ==> forall|k: int|
            0 <= k < routes.len() ==> !((#[trigger] routes[k]).input == 0 && routes[k].in_stream
                == i),
{
    let n = lemma_plan_parts(routes, main, subtitle, cover, strip_video, subtitle_codec);
    let kept = kept_streams(main, strip_video, cover is Some, main.len());
    lemma_kept_count(main, strip_video, cover is Some, main.len());
    lemma_kept_ascend(main, strip_video, cover is Some, main.len());
    let base = routes.take(kept.len() as int);
    if is_kept(main[i], strip_video, cover is Some) {
        let k = choose|k: int| 0 <= k < kept.len() && kept[k] == i;
        assert(base[k] == routes[k]);
        assert forall|j: int| 0 <= j < k implies !((#[trigger] routes[j]).input == 0
            && routes[j].in_stream == i) by {
            assert(base[j] == routes[j]);
            assert(kept[j] < kept[k]);
        }
        assert(is_route_of(routes, 0, i, k));
    } else {
        assert forall|k: int| 0 <= k < routes.len() implies !((#[trigger] routes[k]).input == 0
            && routes[k].in_stream == i) by {
            if k < kept.len() {
                assert(base[k] == routes[k]);
                assert(is_kept(main[kept[k]], strip_video, cover is Some));
            } else if k < n {
                assert(routes.subrange(kept.len() as int, n)[k - kept.len()] == routes[k]);
            } else {
                assert(routes.subrange(n, routes.len() as int)[k - n] == routes[k]);
            }
        }
    }
}

proof fn lemma_kept_ascend(main: Seq<SourceStream>, strip_video: bool, has_cover: bool, n: nat)
    requires
        n <= main.len(),
    ensures
        forall|j: int, k: int|
            0 <= j < k < kept_streams(main, strip_video, has_cover, n).len() ==> (
            #[trigger] kept_streams(main, strip_video, has_cover, n)[j]) < (
            #[trigger] kept_streams(main, strip_video, has_cover, n)[k]),
    decreases n,
{
    if n > 0 {
        let m = (n - 1) as nat;
        lemma_kept_ascend(main, strip_video, has_cover, m);
        lemma_kept_count(main, strip_video, has_cover, m);
        let before = kept_streams(main, strip_video, has_cover, m);
        let after = kept_streams(main, strip_video, has_cover, n);
        assert forall|j: int, k: int| 0 <= j < k < after.len() implies (#[trigger] after[j]) < (
        #[trigger] after[k]) by {
            assert(before[j] == after[j]);
            if k < before.len() {
                assert(before[k] == after[k]);
            }
        }
    }
}

/// A remux embeds nothing that was not given: every route is from the main input, or from the
/// first subtitle stream of the subtitle file, which is input 1, or from the first picture of the
/// cover file, which is the next input behind.
pub proof fn law_remux_embeds_nothing_else(
    routes: Seq<StreamRoute>,
    main: Seq<SourceStream>,
    subtitle: Option<Vec<MediaType>>,
    cover: Option<Vec<MediaType>>,
    strip_video: bool,
    subtitle_codec: CodecId,
    k: int,
)
    requires
        is_remux_plan(routes, main, subtitle, cover, strip_video, subtitle_codec),
        0 <= k < routes.len(),
    ensures
        routes[k].kind == RouteKind::Copy ==> routes[k].input == 0,
        routes[k].kind is Subtitle ==> routes[k].kind == RouteKind::Subtitle(subtitle_codec)
            && routes[k].input == 1 && subtitle is Some && routes[k].in_stream
            < subtitle->0@.len() && subtitle->0@[routes[k].in_stream as int]
            == MediaType::Subtitle && forall|j: int|
            0 <= j < routes[k].in_stream ==> #[trigger] subtitle->0@[j] != MediaType::Subtitle,
        routes[k].kind == RouteKind::Cover ==> routes[k].input == (if subtitle is Some {
            2int
        } else {
            1
        }) && cover is Some && routes[k].in_stream < cover->0@.len()
            && cover->0@[routes[k].in_stream as int] == MediaType::Video && forall|j: int|
            0 <= j < routes[k].in_stream ==> #[trigger] cover->0@[j] != MediaType::Video,
{
    let n = lemma_plan_parts(routes, main, subtitle, cover, strip_video, subtitle_codec);
    let kept = kept_streams(main, strip_video, cover is Some, main.len());
    if k < kept.len() {
        assert(routes.take(kept.len() as int)[k] == routes[k]);
    } else if k < n {
        assert(routes.subrange(kept.len() as int, n)[k - kept.len()] == routes[k]);
    } else {
        assert(routes.subrange(n, routes.len() as int)[k - n] == routes[k]);
    }
}

/// Subtitles of the two script formats stay ASS; every other subtitle becomes a timed text.
pub proof fn law_subtitle_codec_follows_the_file(ext: &str)
    ensures
        subtitle_codec_of(Some(ext)) == CodecId::Ass <==> ext@ == "ass"@ || ext@ == "ssa"@,
        subtitle_codec_of(Some(ext)) == CodecId::MovText <==> ext@ != "ass"@ && ext@ != "ssa"@,
        subtitle_codec_of(None) == CodecId::MovText,
{
}

proof fn lemma_type_count(streams: Seq<MediaType>, t: MediaType, n: nat)
    requires
        n <= streams.len(),
    ensures
        forall|k: int|
            0 <= k < streams_of_type(streams, t, n).len() ==> 0 <= #[trigger] streams_of_type(
                streams,
                t,
                n,
            )[k] < n && streams[streams_of_type(streams, t, n)[k]] == t,
        forall|i: int|
            0 <= i < n && #[trigger] streams[i] == t ==> streams_of_type(streams, t, n).contains(i),
    decreases n,
{
    if n > 0 {
        let m = (n - 1) as nat;
        lemma_type_count(streams, t, m);
        let before = streams_of_type(streams, t, m);
        let after = streams_of_type(streams, t, n);
        assert forall|i: int| 0 <= i < n && #[trigger] streams[i] == t implies after.contains(i) by {
            if i < m {
                assert(before.contains(i));
                let k = choose|k: int| 0 <= k < before.len() && before[k] == i;
                assert(after[k] == i);
            } else {
                assert(after[before.len() as int] == i);
            }
        }
    }
}

/// A merge copies every video stream of the first input and every audio stream of the second, each
/// to an output of its own, and nothing else.
pub proof fn law_merge_copies_video_and_audio(
    routes: Seq<StreamRoute>,
    video: Seq<MediaType>,
    audio: Seq<MediaType>,
    i: int,
)
    requires
        is_merge_plan(routes, video, audio),
    ensures
        0 <= i < video.len() && video[i] == MediaType::Video ==> is_routed(routes, 0, i),
        0 <= i < audio.len() && audio[i] == MediaType::Audio ==> is_routed(routes, 1, i),
        0 <= i < routes.len() ==> routes[i].out_stream == i && routes[i].kind == RouteKind::Copy
            && ((routes[i].input == 0 && routes[i].in_stream < video.len()
            && video[routes[i].in_stream as int] == MediaType::Video) || (routes[i].input == 1
            && routes[i].in_stream < audio.len() && audio[routes[i].in_stream as int]
            == MediaType::Audio)),
{
    let v = streams_of_type(video, MediaType::Video, video.len());
    let a = streams_of_type(audio, MediaType::Audio, audio.len());
    lemma_type_count(video, MediaType::Video, video.len());
    lemma_type_count(audio, MediaType::Audio, audio.len());
    let first = routes.take(v.len() as int);
    let second = routes.subrange(v.len() as int, routes.len() as int);
    if 0 <= i < video.len() && video[i] == MediaType::Video {
        let k = choose|k: int| 0 <= k < v.len() && v[k] == i;
        assert(first[k] == routes[k]);
    }
    if 0 <= i < audio.len() && audio[i] == MediaType::Audio {
        let k = choose|k: int| 0 <= k < a.len() && a[k] == i;
        assert(second[k] == routes[v.len() + k]);
    }
    if 0 <= i < v.len() {
        assert(first[i] == routes[i]);
        assert(v[i] < video.len());
    } else if v.len() <= i < routes.len() {
        assert(second[i - v.len()] == routes[i]);
        assert(a[i - v.len()] < audio.len());
    }
}

/// A packet is written exactly if its stream has a route.
pub proof fn law_written_are_the_routed(
    q: Seq<QueuedPacket>,
    routes: Seq<StreamRoute>,
    input: int,
)
    ensures
        routed_packets(q, routes, input) == q.filter(
            |p: QueuedPacket|
                exists|k: int|
                    0 <= k < routes.len() && (#[trigger] routes[k]).input == input
                        && routes[k].in_stream == p.stream_index,
        ),
    decreases q.len(),
{
    let f = |p: QueuedPacket|
        exists|k: int|
            0 <= k < routes.len() && (#[trigger] routes[k]).input == input && routes[k].in_stream
                == p.stream_index;
    if q.len() == 0 {
        reveal(Seq::filter);
        assert(q.filter(f) =~= Seq::empty());
    } else {
        let rest = q.drop_first();
        law_written_are_the_routed(rest, routes, input);
        assert(seq![q[0]] + rest =~= q);
        Seq::<QueuedPacket>::filter_distributes_over_add(seq![q[0]], rest, f);
        assert(seq![q[0]].filter(f) =~= (if f(q[0]) {
            seq![q[0]]
        } else {
            Seq::empty()
        })) by {
            reveal(Seq::filter);
            assert(seq![q[0]].drop_last() =~= Seq::empty());
            assert(Seq::<QueuedPacket>::empty().filter(f) =~= Seq::empty());
        }
        assert(Seq::<QueuedPacket>::empty() + rest.filter(f) =~= rest.filter(f));
    }
}

/// A packet has the time base of its own stream, and 1/1 where its stream is not known.
pub proof fn law_packets_have_the_time_base_of_their_stream(
    tbs: Vec<Rational>,
    stream_index: i32,
    r: Rational,
)
    requires
        call_ensures(packet_time_base, (&tbs, stream_index), r),
    ensures
        0 <= stream_index < tbs@.len() ==> r == tbs@[stream_index as int],
        stream_index < 0 || stream_index >= tbs@.len() ==> r.num == 1 && r.den == 1,
{
}

/// The first stream of a type is the one of that type that has none before it.
pub proof fn law_first_of_a_type(streams: Seq<MediaType>, t: MediaType, i: int, j: int)
    requires
        0 <= i < streams.len(),
        0 <= j < streams.len(),
    ensures
        streams[i] == t && (forall|k: int| 0 <= k < i ==> #[trigger] streams[k] != t)
            ==> is_first_of_type(streams, t, i),
        is_first_of_type(streams, t, i) ==> streams[i] == t,
        is_first_of_type(streams, t, i) && streams[j] == t ==> i <= j,
{
}

/// Subtitles are copied exactly where their codec is that of the output, and the index goes to the
/// front of the file exactly where that is asked for.
pub proof fn law_subtitles_and_options(
    source: CodecId,
    target: CodecId,
    action: SubtitleAction,
    plain: Vec<(String, String)>,
    fast: Vec<(String, String)>,
)
    requires
        call_ensures(subtitle_action, (source, target), action),
        call_ensures(mux_options, (false,), plain),
        call_ensures(mux_options, (true,), fast),
    ensures
        action == SubtitleAction::Copy <==> source == target,
        plain@.len() == 0,
        fast@.len() == 1,
        fast@[0].0@ == "movflags"@,
        fast@[0].1@ == "+faststart"@,
{
}

/// A merge of nothing is an error, and every other merge has routes.
pub proof fn law_merge_needs_streams(
    video: Vec<MediaType>,
    audio: Vec<MediaType>,
    r: Result<Vec<StreamRoute>, Error>,
)
    requires
        call_ensures(plan_merge, (&video, &audio), r),
    ensures
        r is Ok ==> r->Ok_0@.len() > 0 && is_merge_plan(r->Ok_0@, video@, audio@),
        r is Err ==> r->Err_0.text() == "No video or audio streams found in inputs"@
            && is_merge_plan(Seq::empty(), video@, audio@),
{
}

} // verus!
