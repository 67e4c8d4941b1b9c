//! The packet loop of a pass: which packets are used, where they go, and when the loop ends.

use crate::model::{PixelFormat, Rational, NO_PTS};
use crate::transcode::hw::HwType;
use crate::transcode::types::StreamMapping;
use vstd::prelude::*;

verus! {

/// Which times add up to the end of the wanted part.
#[derive(Clone, Copy, Debug, PartialEq, Eq, Structural)]
pub enum EndBase {
    /// There is no end.
    Unlimited,
    /// The duration, counted from the start of the input.
    Duration,
    /// The duration, counted from the sought position.
    SeekAndDuration,
}

/// Which times add up to the end of the wanted part.
pub fn end_base(has_duration: bool, has_seek: bool) -> (r: EndBase)
    ensures
        r == (if !has_duration {
            EndBase::Unlimited
        } else if has_seek {
            EndBase::SeekAndDuration
        } else {
            EndBase::Duration
        }),
{
    if !has_duration {
        EndBase::Unlimited
    } else if has_seek {
        EndBase::SeekAndDuration
    } else {
        EndBase::Duration
    }
}

/// The timestamp from which on packets of stream `i` are behind the end.
pub open spec fn end_threshold(base: EndBase, tb: Rational, converted: i64) -> i64 {
    if base != EndBase::Unlimited && tb.den > 0 {
        converted
    } else {
        i64::MAX
    }
}

/// For each stream, the timestamp from which on packets are behind the end. `converted` is the
/// end in the time base of each stream.
pub fn end_thresholds(base: EndBase, time_bases: &Vec<Rational>, converted: &Vec<i64>) -> (r: Vec<
    i64,
>)
    requires
        converted@.len() == time_bases@.len(),
    ensures
        r@ == Seq::new(
            time_bases@.len(),
            |i: int| end_threshold(base, time_bases@[i], converted@[i]),
        ),
{
    let mut out: Vec<i64> = Vec::new();
    let mut i: usize = 0;
    while i < time_bases.len()
        invariant
            i <= time_bases@.len(),
            converted@.len() == time_bases@.len(),
            out@ == Seq::new(
                i as nat,
                |i: int| end_threshold(base, time_bases@[i], converted@[i]),
            ),
        decreases time_bases@.len() - i,
    {
        let limited = match base {
            EndBase::Unlimited => false,
            EndBase::Duration | EndBase::SeekAndDuration => true,
        };
        let end: i64 = if limited && time_bases[i].den > 0 {
            converted[i]
        } else {
            i64::MAX
        };
        out.push(end);
        i = i + 1;
        proof {
            assert(out@ =~= Seq::new(
                i as nat,
                |i: int| end_threshold(base, time_bases@[i], converted@[i]),
            ));
        }
    }
    out
}

/// The timestamp before which frames of a stream are dropped after a seek; 0 drops none.
pub open spec fn seek_threshold(
    has_seek: bool,
    copying: bool,
    target_positive: bool,
    tb: Rational,
    converted: i64,
) -> i64 {
    if has_seek && !copying && target_positive && tb.den > 0 {
        converted
    } else {
        0
    }
}

/// For each stream, the timestamp before which frames are dropped after a seek. `copying` tells
/// that video or audio is copied, `target_positive` that the sought position is behind zero, and
/// `converted` is the sought position in the time base of each stream.
pub fn seek_thresholds(
    has_seek: bool,
    copying: bool,
    target_positive: bool,
    time_bases: &Vec<Rational>,
    converted: &Vec<i64>,
) -> (r: Vec<i64>)
    requires
        converted@.len() == time_bases@.len(),
    ensures
        r@ == Seq::new(
            time_bases@.len(),
            |i: int|
                seek_threshold(has_seek, copying, target_positive, time_bases@[i], converted@[i]),
        ),
{
    let mut out: Vec<i64> = Vec::new();
    let mut i: usize = 0;
    while i < time_bases.len()
        invariant
            i <= time_bases@.len(),
            converted@.len() == time_bases@.len(),
            out@ == Seq::new(
                i as nat,
                |i: int|
                    seek_threshold(
                        has_seek,
                        copying,
                        target_positive,
                        time_bases@[i],
                        converted@[i],
                    ),
            ),
        decreases time_bases@.len() - i,
    {
        let threshold: i64 = if has_seek && !copying && target_positive && time_bases[i].den > 0 {
            converted[i]
        } else {
            0
        };
        out.push(threshold);
        i = i + 1;
        proof {
            assert(out@ =~= Seq::new(
                i as nat,
                |i: int|
                    seek_threshold(
                        has_seek,
                        copying,
                        target_positive,
                        time_bases@[i],
                        converted@[i],
                    ),
            ));
        }
    }
    out
}

/// `i` is the place of the first audio stream.
pub open spec fn is_first_audio_mapping(map: Seq<StreamMapping>, i: int) -> bool {
    &&& 0 <= i < map.len()
    &&& map[i] is Audio
    &&& forall|j: int| 0 <= j < i ==> !((#[trigger] map[j]) is Audio)
}

/// The stream that the audio thread takes: the first audio stream.
pub fn audio_thread_stream(map: &Vec<StreamMapping>) -> (r: Option<usize>)
    ensures
        match r {
            Some(i) => is_first_audio_mapping(map@, i as int),
            None => forall|i: int| 0 <= i < map@.len() ==> !((#[trigger] map@[i]) is Audio),
        },
{
    let mut i: usize = 0;
    while i < map.len()
        invariant
            i <= map@.len(),
            forall|j: int| 0 <= j < i ==> !((#[trigger] map@[j]) is Audio),
        decreases map@.len() - i,
    {
        match map[i] {
            StreamMapping::Audio { .. } => {
                return Some(i);
            },
            _ => {},
        }
        i = i + 1;
    }
    None
}

/// `i` is the place of the first video stream whose filter and encoder are there.
pub open spec fn is_first_ready_video(map: Seq<StreamMapping>, ready: Seq<bool>, i: int) -> bool {
    &&& 0 <= i < map.len()
    &&& map[i] is Video && ready[i]
    &&& forall|j: int| 0 <= j < i ==> !((#[trigger] map[j]) is Video && ready[j])
}

/// The stream that the video threads take: the first video stream whose filter and encoder are
/// there.
pub fn video_thread_stream(map: &Vec<StreamMapping>, ready: &Vec<bool>) -> (r: Option<usize>)
    requires
        ready@.len() == map@.len(),
    ensures
        match r {
            Some(i) => is_first_ready_video(map@, ready@, i as int),
            None => forall|i: int|
                0 <= i < map@.len() ==> !((#[trigger] map@[i]) is Video && ready@[i]),
        },
{
    let mut i: usize = 0;
    while i < map.len()
        invariant
            i <= map@.len(),
            ready@.len() == map@.len(),
            forall|j: int| 0 <= j < i ==> !((#[trigger] map@[j]) is Video && ready@[j]),
        decreases map@.len() - i,
    {
        match map[i] {
            StreamMapping::Video { .. } => {
                if ready[i] {
                    return Some(i);
                }
            },
            _ => {},
        }
        i = i + 1;
    }
    None
}

/// How many packets and frames the video threads hold: few on a device, where they cost memory.
pub fn video_queue_sizes(is_gpu: bool) -> (r: (usize, usize))
    ensures
        r == (if is_gpu {
            (4usize, 2usize)
        } else {
            (16usize, 8usize)
        }),
{
    if is_gpu {
        (4, 2)
    } else {
        (16, 8)
    }
}

/// The format of frames that the decode thread downloads: those of the decode backend, unless they
/// stay on the device.
pub fn download_format(is_gpu: bool, decode_hw: Option<HwType>) -> (r: Option<PixelFormat>)
    ensures
        r == (match decode_hw {
            Some(hw) if !is_gpu => Some(hw.spec_pix_fmt()),
            _ => None,
        }),
{
    if is_gpu {
        return None;
    }
    match decode_hw {
        Some(hw) => Some(hw.pix_fmt()),
        None => None,
    }
}

/// What is known of a packet when it is dispatched.
#[derive(Clone, Copy, Debug, PartialEq, Eq, Structural)]
pub struct PacketInfo {
    pub stream_index: i32,
    pub pts: i64,
    pub is_key: bool,
}

/// What becomes of a packet.
#[derive(Clone, Copy, Debug, PartialEq, Eq, Structural)]
pub enum PacketAction {
    /// The packet is behind the end: the loop ends.
    Stop,
    /// The packet is dropped, and the next one is read at once.
    Skip,
    /// It goes to the video threads.
    SendVideo,
    /// It goes to the audio thread.
    SendAudio,
    /// It is decoded, filtered and encoded here.
    Inline { out_idx: usize },
    /// It is written as it is.
    Copy { out_idx: usize },
    /// Nothing is done with it.
    Nothing,
}

/// The dispatch of packets.
#[derive(Debug)]
pub struct Demuxer {
    stream_map: Vec<StreamMapping>,
    end_pts: Vec<i64>,
    seek_pts: Vec<i64>,
    /// The filter of the stream is here, not with a thread.
    has_filter: Vec<bool>,
    video_thread: Option<usize>,
    /// Packets are dropped until the first key frame of the copied video.
    awaiting_keyframe: bool,
    copy_video: Option<usize>,
    keyframe_pts: i64,
}

/// The settings of a dispatch, which stay the same, and its opening, which changes.
pub struct DemuxModel {
    pub map: Seq<StreamMapping>,
    pub end_pts: Seq<i64>,
    pub seek_pts: Seq<i64>,
    pub has_filter: Seq<bool>,
    pub video_thread: Option<usize>,
    pub copy_video: Option<usize>,
    pub opening: Opening,
}

/// Which packets are let through after a seek into copied video.
pub enum Opening {
    /// Every packet.
    Open,
    /// Only a key frame of the copied video.
    AwaitKeyframe,
    /// Every packet of the copied video, and those of other streams that are not before this time.
    After(int),
}

/// The stream that a packet belongs to, where it is one of the map.
pub open spec fn stream_of(m: DemuxModel, p: PacketInfo) -> Option<int> {
    if 0 <= p.stream_index < m.map.len() {
        Some(p.stream_index as int)
    } else {
        None
    }
}

/// The packet is behind the end of the wanted part.
pub open spec fn is_behind_end(m: DemuxModel, p: PacketInfo) -> bool {
    p.pts != NO_PTS && p.pts >= m.end_pts[p.stream_index as int]
}

/// The packet belongs to the copied video.
pub open spec fn is_copy_video(m: DemuxModel, p: PacketInfo) -> bool {
    m.copy_video matches Some(v) && v == p.stream_index
}

/// The packet is let through.
pub open spec fn is_let_through(m: DemuxModel, p: PacketInfo) -> bool {
    match m.opening {
        Opening::Open => true,
        Opening::AwaitKeyframe => is_copy_video(m, p) && p.is_key,
        Opening::After(pts) => is_copy_video(m, p) || p.pts == NO_PTS || p.pts >= pts,
    }
}

/// What is let through after a packet of the map that is not behind the end: from a key frame that
/// was awaited on, everything from its timestamp on.
pub open spec fn next_opening(m: DemuxModel, p: PacketInfo) -> Opening {
    if m.opening is AwaitKeyframe && is_let_through(m, p) {
        if p.pts == NO_PTS {
            Opening::Open
        } else {
            Opening::After(p.pts as int)
        }
    } else {
        m.opening
    }
}

/// Where a packet goes that is let through.
pub open spec fn destination(m: DemuxModel, p: PacketInfo) -> PacketAction {
    let i = p.stream_index as int;
    match m.map[i] {
        StreamMapping::Video { out_idx, .. } => if m.video_thread == Some(i as usize) {
            PacketAction::SendVideo
        } else {
            PacketAction::Inline { out_idx }
        },
        StreamMapping::Audio { out_idx } => if m.has_filter[i] {
            PacketAction::Inline { out_idx }
        } else if m.seek_pts[i] > 0 && p.pts != NO_PTS && p.pts < m.seek_pts[i] {
            PacketAction::Skip
        } else {
            PacketAction::SendAudio
        },
        StreamMapping::Copy { out_idx } => PacketAction::Copy { out_idx },
        StreamMapping::Ignore => PacketAction::Nothing,
    }
}

/// What becomes of a packet.
pub open spec fn packet_action(m: DemuxModel, p: PacketInfo) -> PacketAction {
    if stream_of(m, p) is None {
        PacketAction::Skip
    } else if is_behind_end(m, p) {
        PacketAction::Stop
    } else if !is_let_through(m, p) {
        PacketAction::Skip
    } else {
        destination(m, p)
    }
}

/// The dispatch after a packet.
pub open spec fn after_packet(m: DemuxModel, p: PacketInfo) -> DemuxModel {
    if stream_of(m, p) is None || is_behind_end(m, p) {
        m
    } else {
        DemuxModel { opening: next_opening(m, p), ..m }
    }
}

/// `i` is the place of the first copied video stream.
pub open spec fn is_first_copy_video(map: Seq<StreamMapping>, is_video: Seq<bool>, i: int) -> bool {
    &&& 0 <= i < map.len()
    &&& map[i] is Copy && is_video[i]
    &&& forall|j: int| 0 <= j < i ==> !((#[trigger] map[j]) is Copy && is_video[j])
}

impl View for Demuxer {
    type V = DemuxModel;

    closed spec fn view(&self) -> DemuxModel {
        DemuxModel {
            map: self.stream_map@,
            end_pts: self.end_pts@,
            seek_pts: self.seek_pts@,
            has_filter: self.has_filter@,
            video_thread: self.video_thread,
            copy_video: self.copy_video,
            opening: if self.awaiting_keyframe {
                Opening::AwaitKeyframe
            } else if self.keyframe_pts == NO_PTS {
                Opening::Open
            } else {
                Opening::After(self.keyframe_pts as int)
            },
        }
    }
}

impl Demuxer {
    /// Every stream has its thresholds and its mark.
    pub open spec fn wf(&self) -> bool {
        &&& self@.end_pts.len() == self@.map.len()
        &&& self@.seek_pts.len() == self@.map.len()
        &&& self@.has_filter.len() == self@.map.len()
    }

    /// A dispatch at the start of a pass. After a seek with a copied video stream, packets are
    /// dropped until its first key frame.
    pub fn new(
        stream_map: Vec<StreamMapping>,
        is_video: &Vec<bool>,
        end_pts: Vec<i64>,
        seek_pts: Vec<i64>,
        has_filter: Vec<bool>,
        video_thread: Option<usize>,
        has_seek: bool,
    ) -> (r: Self)
        requires
            is_video@.len() == stream_map@.len(),
            end_pts@.len() == stream_map@.len(),
            seek_pts@.len() == stream_map@.len(),
            has_filter@.len() == stream_map@.len(),
        ensures
            r.wf(),
            r@.map == stream_map@,
            r@.end_pts == end_pts@,
            r@.seek_pts == seek_pts@,
            r@.has_filter == has_filter@,
            r@.video_thread == video_thread,
            match r@.copy_video {
                Some(i) => has_seek && is_first_copy_video(stream_map@, is_video@, i as int)
                    && r@.opening == Opening::AwaitKeyframe,
                None => r@.opening == Opening::Open && (has_seek ==> forall|i: int|
                    0 <= i < stream_map@.len() ==> !((#[trigger] stream_map@[i]) is Copy
                        && is_video@[i])),
            },
    {
        let mut copy_video: Option<usize> = None;
        let mut i: usize = 0;
        while has_seek && copy_video.is_none() && i < stream_map.len()
            invariant
                i <= stream_map@.len(),
                is_video@.len() == stream_map@.len(),
                match copy_video {
                    Some(k) => has_seek && is_first_copy_video(
                        stream_map@,
                        is_video@,
                        k as int,
                    ),
                    None => forall|j: int|
                        0 <= j < i ==> !((#[trigger] stream_map@[j]) is Copy && is_video@[j]),
                },
            decreases stream_map@.len() - i,
        {
            match stream_map[i] {
                StreamMapping::Copy { .. } => {
                    if is_video[i] {
                        copy_video = Some(i);
                    }
                },
                _ => {},
            }
            i = i + 1;
        }
        Demuxer {
            stream_map,
            end_pts,
            seek_pts,
            has_filter,
            video_thread,
            awaiting_keyframe: copy_video.is_some(),
            copy_video,
            keyframe_pts: NO_PTS,
        }
    }

    /// What becomes of a packet.
    pub fn dispatch(&mut self, p: PacketInfo) -> (r: PacketAction)
        requires
            old(self).wf(),
        ensures
            final(self).wf(),
            r == packet_action(old(self)@, p),
            final(self)@ == after_packet(old(self)@, p),
    {
        if p.stream_index < 0 || p.stream_index as usize >= self.stream_map.len() {
            return PacketAction::Skip;
        }
        let i: usize = p.stream_index as usize;
        if p.pts != NO_PTS && p.pts >= self.end_pts[i] {
            return PacketAction::Stop;
        }
        let copy_video = match self.copy_video {
            Some(v) => v == i,
            None => false,
        };
        if self.awaiting_keyframe {
            if copy_video && p.is_key {
                self.awaiting_keyframe = false;
                self.keyframe_pts = p.pts;
            } else {
                return PacketAction::Skip;
            }
        } else if self.keyframe_pts != NO_PTS && p.pts != NO_PTS && p.pts < self.keyframe_pts
            && !copy_video {
            return PacketAction::Skip;
        }
        match self.stream_map[i] {
            StreamMapping::Video { out_idx, .. } => {
                let threaded = match self.video_thread {
                    Some(v) => v == i,
                    None => false,
                };
                if threaded {
                    PacketAction::SendVideo
                } else {
                    PacketAction::Inline { out_idx }
                }
            },
            StreamMapping::Audio { out_idx } => {
                if self.has_filter[i] {
                    PacketAction::Inline { out_idx }
                } else if self.seek_pts[i] > 0 && p.pts != NO_PTS && p.pts < self.seek_pts[i] {
                    PacketAction::Skip
                } else {
                    PacketAction::SendAudio
                }
            },
            StreamMapping::Copy { out_idx } => PacketAction::Copy { out_idx },
            StreamMapping::Ignore => PacketAction::Nothing,
        }
    }

    /// Whether what the threads have finished is written after a packet: it is, unless the packet
    /// was dropped or ended the loop.
    pub fn drains_after(action: PacketAction) -> (r: bool)
        ensures
            r == !(action == PacketAction::Stop || action == PacketAction::Skip),
    {
        match action {
            PacketAction::Stop | PacketAction::Skip => false,
            _ => true,
        }
    }
}

/// While a key frame is awaited, only a key frame of the copied video is used, and it ends the
/// wait for good.
pub proof fn law_copy_starts_at_a_keyframe(m: DemuxModel, p: PacketInfo)
    requires
        m.opening is AwaitKeyframe,
        packet_action(m, p) != PacketAction::Skip,
        packet_action(m, p) != PacketAction::Stop,
    ensures
        is_copy_video(m, p),
        p.is_key,
        !(after_packet(m, p).opening is AwaitKeyframe),
{
}

/// Once packets are let through, the wait for a key frame does not begin again.
pub proof fn law_opening_stays(m: DemuxModel, p: PacketInfo)
    requires
        !(m.opening is AwaitKeyframe),
    ensures
        after_packet(m, p).opening == m.opening,
{
}

/// After the key frame, no packet of another stream from before it is used.
pub proof fn law_nothing_before_the_keyframe(m: DemuxModel, p: PacketInfo)
    requires
        m.opening is After,
        !is_copy_video(m, p),
        p.pts != NO_PTS,
        p.pts < m.opening->After_0,
    ensures
        packet_action(m, p) == PacketAction::Skip || packet_action(m, p) == PacketAction::Stop,
{
}

/// No packet behind the end is used: whatever its stream is mapped to, a packet whose timestamp
/// has reached the end of its stream ends the loop, and no other packet does.
pub proof fn law_nothing_behind_the_end(m: DemuxModel, p: PacketInfo)
    requires
        0 <= p.stream_index < m.map.len(),
    ensures
        packet_action(m, p) == PacketAction::Stop <==> p.pts != NO_PTS && p.pts
            >= m.end_pts[p.stream_index as int],
{
}

/// A packet of a stream that is not in the map is dropped and changes nothing.
pub proof fn law_strange_packets_are_dropped(m: DemuxModel, p: PacketInfo)
    requires
        p.stream_index < 0 || p.stream_index >= m.map.len(),
    ensures
        packet_action(m, p) == PacketAction::Skip,
        after_packet(m, p) == m,
{
}

/// A packet goes only where its own stream is mapped to: it is copied to the output of a copied
/// stream, decoded here for the output of an encoded stream, or sent to a thread that works on
/// that stream.
pub proof fn law_packets_follow_the_map(m: DemuxModel, p: PacketInfo)
    requires
        0 <= p.stream_index < m.map.len(),
    ensures
        forall|o: usize|
            packet_action(m, p) == (PacketAction::Copy { out_idx: o })
                ==> m.map[p.stream_index as int] == (StreamMapping::Copy { out_idx: o }),
        forall|o: usize|
            packet_action(m, p) == (PacketAction::Inline { out_idx: o })
                ==> m.map[p.stream_index as int].spec_out_idx() == Some(o) && !(
            m.map[p.stream_index as int] is Copy),
        packet_action(m, p) == PacketAction::SendVideo ==> m.map[p.stream_index as int] is Video
            && m.video_thread == Some(p.stream_index as usize),
        packet_action(m, p) == PacketAction::SendAudio ==> m.map[p.stream_index as int] is Audio
            && !m.has_filter[p.stream_index as int],
        packet_action(m, p) == PacketAction::Nothing ==> m.map[p.stream_index as int] is Ignore,
{
}

/// While everything is let through, no packet before the end is lost: a copied stream is copied,
/// the stream of the video thread goes to that thread, any other encoded stream whose filter is
/// here is encoded here, and audio whose filter is with the thread goes to the audio thread from
/// the sought position on.
pub proof fn law_no_packet_is_lost(m: DemuxModel, p: PacketInfo)
    requires
        0 <= p.stream_index < m.map.len(),
        m.opening is Open,
        p.pts == NO_PTS || p.pts < m.end_pts[p.stream_index as int],
    ensures
        m.map[p.stream_index as int] matches StreamMapping::Copy { out_idx } ==> packet_action(m, p)
            == (PacketAction::Copy { out_idx }),
        m.map[p.stream_index as int] matches StreamMapping::Video { out_idx, .. } ==> packet_action(
            m,
            p,
        ) == (if m.video_thread == Some(p.stream_index as usize) {
            PacketAction::SendVideo
        } else {
            PacketAction::Inline { out_idx }
        }),
        m.map[p.stream_index as int] matches StreamMapping::Audio { out_idx } ==> (
        m.has_filter[p.stream_index as int] ==> packet_action(m, p) == (PacketAction::Inline {
            out_idx,
        })) && (!m.has_filter[p.stream_index as int] && (p.pts == NO_PTS || p.pts
            >= m.seek_pts[p.stream_index as int] || m.seek_pts[p.stream_index as int] <= 0)
            ==> packet_action(m, p) == PacketAction::SendAudio) && (
        !m.has_filter[p.stream_index as int] && p.pts != NO_PTS && 0 < m.seek_pts[
        p.stream_index as int] && p.pts < m.seek_pts[p.stream_index as int] ==> packet_action(m, p)
            == PacketAction::Skip),
        m.map[p.stream_index as int] is Ignore ==> packet_action(m, p) == PacketAction::Nothing,
        after_packet(m, p) == m,
{
}

/// The wait for a key frame ends with a key frame of the copied video: it is used as if nothing
/// had been awaited, and from then on other streams are let through from its timestamp on, or
/// wholly where it has none. Every other packet before the end is dropped and changes nothing.
pub proof fn law_keyframe_ends_the_wait(m: DemuxModel, p: PacketInfo)
    requires
        m.opening is AwaitKeyframe,
        0 <= p.stream_index < m.map.len(),
        p.pts == NO_PTS || p.pts < m.end_pts[p.stream_index as int],
    ensures
        m.copy_video == Some(p.stream_index as usize) && p.is_key ==> packet_action(m, p)
            == packet_action(DemuxModel { opening: Opening::Open, ..m }, p) && after_packet(m, p)
            == (DemuxModel {
            opening: if p.pts == NO_PTS {
                Opening::Open
            } else {
                Opening::After(p.pts as int)
            },
            ..m
        }),
        !(m.copy_video == Some(p.stream_index as usize) && p.is_key) ==> packet_action(m, p)
            == PacketAction::Skip && after_packet(m, p) == m,
{
}

/// After the key frame, packets of the copied video, packets without a timestamp and packets that
/// are not before the key frame are used as if nothing had been awaited; the others are dropped.
pub proof fn law_after_the_keyframe(m: DemuxModel, p: PacketInfo, t: int)
    requires
        m.opening == Opening::After(t),
        0 <= p.stream_index < m.map.len(),
        p.pts == NO_PTS || p.pts < m.end_pts[p.stream_index as int],
    ensures
        m.copy_video == Some(p.stream_index as usize) || p.pts == NO_PTS || p.pts >= t
            ==> packet_action(m, p) == packet_action(
            DemuxModel { opening: Opening::Open, ..m },
            p,
        ),
        !(m.copy_video == Some(p.stream_index as usize)) && p.pts != NO_PTS && p.pts < t
            ==> packet_action(m, p) == PacketAction::Skip,
        after_packet(m, p) == m,
{
}

/// The end counts where a duration is asked for and the time base of the stream can be counted in;
/// otherwise no timestamp reaches the end.
pub proof fn law_end_counts_where_asked(base: EndBase, tb: Rational, converted: i64, pts: i64)
    ensures
        base != EndBase::Unlimited && tb.den > 0 ==> (pts >= end_threshold(base, tb, converted)
            <==> pts >= converted),
        base == EndBase::Unlimited || tb.den <= 0 ==> (pts >= end_threshold(base, tb, converted)
            <==> pts == i64::MAX),
{
}

/// Frames are dropped up to the sought position only where a position behind zero was sought and
/// nothing is copied; otherwise none is dropped.
pub proof fn law_seek_counts_where_asked(
    has_seek: bool,
    copying: bool,
    target_positive: bool,
    tb: Rational,
    converted: i64,
)
    ensures
        has_seek && !copying && target_positive && tb.den > 0 ==> seek_threshold(
            has_seek,
            copying,
            target_positive,
            tb,
            converted,
        ) == converted,
        !has_seek || copying || !target_positive || tb.den <= 0 ==> seek_threshold(
            has_seek,
            copying,
            target_positive,
            tb,
            converted,
        ) == 0,
{
}

/// The streams that are picked for the threads and for the wait are the first of their kind: no
/// stream before them would do.
pub proof fn law_first_streams_are_picked(
    map: Seq<StreamMapping>,
    marks: Seq<bool>,
    i: int,
    j: int,
)
    requires
        0 <= j < map.len(),
    ensures
        is_first_audio_mapping(map, i) ==> 0 <= i < map.len() && map[i] is Audio,
        is_first_audio_mapping(map, i) && map[j] is Audio ==> i <= j,
        is_first_ready_video(map, marks, i) ==> 0 <= i < map.len() && map[i] is Video && marks[i],
        is_first_ready_video(map, marks, i) && map[j] is Video && marks[j] ==> i <= j,
        is_first_copy_video(map, marks, i) ==> 0 <= i < map.len() && map[i] is Copy && marks[i],
        is_first_copy_video(map, marks, i) && map[j] is Copy && marks[j] ==> i <= j,
{
}

/// Frames of a stream that stays on the device are never downloaded; of any other stream, exactly
/// the frames in the pixel format of the decode device are.
pub proof fn law_only_device_frames_are_downloaded(format: PixelFormat, hw: HwType)
    ensures
        !is_downloaded(format, Some(hw), true),
        !is_downloaded(format, None, true),
        !is_downloaded(format, None, false),
        is_downloaded(format, Some(hw), false) <==> hw.spec_pix_fmt() == format,
{
}

/// A pass that is not cancelled loses nothing at its end: each thread is told that its input has
/// ended, and everything that it still gives is written, the video before the audio. A cancelled
/// pass waits for no thread.
pub proof fn law_shutdown_writes_what_is_left()
    ensures
        ({
            let s = shutdown_order(false);
            &&& s.len() == 4
            &&& s[0] == ShutdownStep::CloseVideoInput && s[1] == ShutdownStep::DrainVideo
            &&& s[2] == ShutdownStep::CloseAudioInput && s[3] == ShutdownStep::DrainAudio
        }),
        !shutdown_order(true).contains(ShutdownStep::DrainVideo),
        !shutdown_order(true).contains(ShutdownStep::DrainAudio),
        shutdown_order(true)[0] == ShutdownStep::FinishAllStreams,
        shutdown_order(true).contains(ShutdownStep::DropOutputs),
        shutdown_order(true).contains(ShutdownStep::CloseInputs),
{
    let s = shutdown_order(true);
    assert(s[1] == ShutdownStep::DropOutputs && s[2] == ShutdownStep::CloseInputs);
}

/// The audio thread gets no packet that is known to be from before the sought position.
pub proof fn law_audio_starts_at_the_sought_position(m: DemuxModel, p: PacketInfo)
    requires
        packet_action(m, p) == PacketAction::SendAudio,
        m.seek_pts[p.stream_index as int] > 0,
        p.pts != NO_PTS,
    ensures
        p.pts >= m.seek_pts[p.stream_index as int],
{
}

/// What becomes of a decoded frame.
#[derive(Clone, Copy, Debug, PartialEq, Eq, Structural)]
pub enum FrameAction {
    /// It is from before the sought position.
    Drop,
    /// It is copied to main memory first.
    Download,
    /// It is filtered as it is.
    Keep,
}

/// The frame is downloaded: it is one of the decode backend's, and the stream does not stay on
/// the device.
pub open spec fn is_downloaded(
    format: PixelFormat,
    decode_hw: Option<HwType>,
    is_gpu: bool,
) -> bool {
    !is_gpu && (decode_hw matches Some(hw) && hw.spec_pix_fmt() == format)
}

/// Whether a frame is copied to main memory.
pub fn needs_download(format: PixelFormat, decode_hw: Option<HwType>, is_gpu: bool) -> (r: bool)
    ensures
        r == is_downloaded(format, decode_hw, is_gpu),
{
    match decode_hw {
        Some(hw) => !is_gpu && hw.pix_fmt() == format,
        None => false,
    }
}

/// What becomes of a frame that is decoded in the packet loop. `best_effort` is its timestamp as
/// the decoder guesses it.
pub fn frame_action(
    seek_pts: i64,
    best_effort: i64,
    format: PixelFormat,
    decode_hw: Option<HwType>,
    is_gpu: bool,
) -> (r: FrameAction)
    ensures
        r == FrameAction::Drop <==> seek_pts > 0 && best_effort != NO_PTS && best_effort < seek_pts,
        r == FrameAction::Download ==> is_downloaded(format, decode_hw, is_gpu),
        r == FrameAction::Keep ==> !is_downloaded(format, decode_hw, is_gpu),
{
    if seek_pts > 0 && best_effort != NO_PTS && best_effort < seek_pts {
        FrameAction::Drop
    } else if needs_download(format, decode_hw, is_gpu) {
        FrameAction::Download
    } else {
        FrameAction::Keep
    }
}

/// The timestamp that a frame is filtered with: the guessed one where there is one.
pub fn frame_pts(pts: i64, best_effort: i64) -> (r: i64)
    ensures
        r == (if best_effort != NO_PTS {
            best_effort
        } else {
            pts
        }),
{
    if best_effort != NO_PTS {
        best_effort
    } else {
        pts
    }
}

/// What the loop does before it reads a packet.
#[derive(Clone, Copy, Debug, PartialEq, Eq, Structural)]
pub enum LoopStep {
    /// Wait a little and ask again whether the pause is over.
    Wait,
    /// Read a packet.
    Read,
}

/// One look at the pause: it is waited for, unless the pass is cancelled meanwhile; then one more
/// packet is read before the loop ends.
pub fn pause_step(paused: bool, cancelled: bool) -> (r: LoopStep)
    ensures
        r == (if paused && !cancelled {
            LoopStep::Wait
        } else {
            LoopStep::Read
        }),
{
    if paused && !cancelled {
        LoopStep::Wait
    } else {
        LoopStep::Read
    }
}

/// One step of the end of the loop.
#[derive(Clone, Copy, Debug, PartialEq, Eq, Structural)]
pub enum ShutdownStep {
    /// Let every writer pass.
    FinishAllStreams,
    /// Stop receiving from the threads.
    DropOutputs,
    /// Tell the threads that there is no more input.
    CloseInputs,
    CloseVideoInput,
    /// Write everything that the video threads still give.
    DrainVideo,
    CloseAudioInput,
    /// Write everything that the audio thread still gives.
    DrainAudio,
}

/// The steps of the end of the loop.
pub open spec fn shutdown_order(cancelled: bool) -> Seq<ShutdownStep> {
    if cancelled {
        seq![ShutdownStep::FinishAllStreams, ShutdownStep::DropOutputs, ShutdownStep::CloseInputs]
    } else {
        seq![
            ShutdownStep::CloseVideoInput,
            ShutdownStep::DrainVideo,
            ShutdownStep::CloseAudioInput,
            ShutdownStep::DrainAudio,
        ]
    }
}

/// The steps of the end of the loop: a cancelled pass lets the threads go at once, any other pass
/// waits for the video and then for the audio that is on its way.
pub fn shutdown_steps(cancelled: bool) -> (r: Vec<ShutdownStep>)
    ensures
        r@ == shutdown_order(cancelled),
{
    let mut steps: Vec<ShutdownStep> = Vec::new();
    if cancelled {
        steps.push(ShutdownStep::FinishAllStreams);
        steps.push(ShutdownStep::DropOutputs);
        steps.push(ShutdownStep::CloseInputs);
    } else {
        steps.push(ShutdownStep::CloseVideoInput);
        steps.push(ShutdownStep::DrainVideo);
        steps.push(ShutdownStep::CloseAudioInput);
        steps.push(ShutdownStep::DrainAudio);
    }
    steps
}

/// A stream of the wanted kind that has none before it is the one that is picked.
pub proof fn law_a_first_stream_is_found(map: Seq<StreamMapping>, marks: Seq<bool>, i: int)
    requires
        0 <= i < map.len(),
    ensures
        map[i] is Audio && (forall|j: int| 0 <= j < i ==> #[trigger] map[j] !is Audio)
            ==> is_first_audio_mapping(map, i),
        map[i] is Video && marks[i] && (forall|j: int|
            0 <= j < i ==> (#[trigger] map[j]) !is Video || !marks[j]) ==> is_first_ready_video(
            map,
            marks,
            i,
        ),
        map[i] is Copy && marks[i] && (forall|j: int|
            0 <= j < i ==> (#[trigger] map[j]) !is Copy || !marks[j]) ==> is_first_copy_video(
            map,
            marks,
            i,
        ),
{
}

/// There is an end only where a duration is asked for, and it counts from the sought position where
/// there is one.
pub proof fn law_end_counts_from_the_seek(has_duration: bool, has_seek: bool, r: EndBase)
    requires
        call_ensures(end_base, (has_duration, has_seek), r),
    ensures
        r == EndBase::Unlimited <==> !has_duration,
        r == EndBase::SeekAndDuration <==> has_duration && has_seek,
        r == EndBase::Duration <==> has_duration && !has_seek,
{
}

/// Device memory is scarce: the queues of a stream that stays on the device are a quarter of the
/// others. Only frames of a stream that leaves the device are downloaded.
pub proof fn law_queues_and_downloads(
    hw: HwType,
    gpu_queues: (usize, usize),
    queues: (usize, usize),
    kept: Option<PixelFormat>,
    downloaded: Option<PixelFormat>,
    none: Option<PixelFormat>,
)
    requires
        call_ensures(video_queue_sizes, (true,), gpu_queues),
        call_ensures(video_queue_sizes, (false,), queues),
        call_ensures(download_format, (true, Some(hw)), kept),
        call_ensures(download_format, (false, Some(hw)), downloaded),
        call_ensures(download_format, (false, None::<HwType>), none),
    ensures
        gpu_queues == (4usize, 2usize),
        queues == (16usize, 8usize),
        kept is None,
        none is None,
        downloaded == Some(hw.spec_pix_fmt()),
{
}

/// A frame from before the sought position is dropped, and every other frame is kept or downloaded;
/// frames and packets without a time are never dropped for it. A frame has the best time that is
/// known of it.
pub proof fn law_frames_before_the_seek_are_dropped(
    seek_pts: i64,
    pts: i64,
    best_effort: i64,
    format: PixelFormat,
    decode_hw: Option<HwType>,
    is_gpu: bool,
    action: FrameAction,
    time: i64,
)
    requires
        call_ensures(frame_action, (seek_pts, best_effort, format, decode_hw, is_gpu), action),
        call_ensures(frame_pts, (pts, best_effort), time),
    ensures
        best_effort == NO_PTS || seek_pts <= 0 || best_effort >= seek_pts ==> action
            != FrameAction::Drop,
        best_effort != NO_PTS && 0 < seek_pts && best_effort < seek_pts ==> action
            == FrameAction::Drop,
        action == FrameAction::Download ==> !is_gpu && decode_hw is Some
            && decode_hw->0.spec_pix_fmt() == format,
        action == FrameAction::Keep && !is_gpu && decode_hw is Some ==> decode_hw->0.spec_pix_fmt()
            != format,
        best_effort != NO_PTS ==> time == best_effort,
        best_effort == NO_PTS ==> time == pts,
{
}

/// A paused pass waits until it goes on or is cancelled, and finished packets are written after
/// every packet but one that is skipped or ends the pass.
pub proof fn law_pauses_and_drains(
    paused: bool,
    cancelled: bool,
    step: LoopStep,
    action: PacketAction,
    drains: bool,
)
    requires
        call_ensures(pause_step, (paused, cancelled), step),
        call_ensures(Demuxer::drains_after, (action,), drains),
    ensures
        step == LoopStep::Wait <==> paused && !cancelled,
        drains <==> action != PacketAction::Stop && action != PacketAction::Skip,
{
}

} // verus!
