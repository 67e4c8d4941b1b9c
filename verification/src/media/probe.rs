//! What is known of a media file: streams, format, chapters.

use crate::collections::{text_map, SortedMap};
use crate::media::names::{
    bits_of, chroma_location_name, chroma_location_text, color_primaries_name,
    color_primaries_text, color_range_name, color_range_text, color_space_name, color_space_text,
    color_transfer_name, color_transfer_text, compute_dar, dar_text, decode_disposition, disposition_map,
    field_order_name, field_order_text, fourcc_text, fourcc_to_string, hex_string, hex_text,
    media_type_name, media_type_text, name_or_unknown, opt_text,
    ratio_string, rational_text, rational_to_string, unknown_text, unsigned_bits,
};
use crate::media::tag_text::{extract_tags, tags_do_fit, tags_of, RawTag};
use crate::model::{MediaType, Rational, NO_PTS};
use crate::text::{contains, contains_text, dec, dec_i64, dec_u64, hex, hex_u128};
use vstd::prelude::*;

verus! {

/// A probed file.
#[derive(Debug)]
pub struct MediaInfo {
    pub streams: Vec<StreamInfo>,
    pub format: FormatInfo,
    pub chapters: Vec<ChapterInfo>,
}

#[derive(Debug)]
pub struct FormatInfo {
    pub filename: String,
    pub nb_streams: i32,
    pub nb_programs: i32,
    pub format_name: String,
    pub format_long_name: String,
    pub start_time: String,
    pub duration: String,
    pub size: String,
    pub bit_rate: String,
    pub probe_score: i32,
    pub tags: SortedMap<String>,
}

#[derive(Debug)]
pub struct StreamInfo {
    pub index: i32,
    pub codec_name: String,
    pub codec_long_name: String,
    pub profile: Option<String>,
    pub codec_type: String,
    pub codec_tag_string: String,
    pub codec_tag: String,
    pub video: Option<VideoFields>,
    pub audio: Option<AudioFields>,
    pub id: Option<String>,
    pub r_frame_rate: String,
    pub avg_frame_rate: String,
    pub time_base: String,
    pub start_pts: Option<i64>,
    pub start_time: Option<String>,
    pub duration_ts: Option<i64>,
    pub duration: Option<String>,
    pub bit_rate: Option<String>,
    pub nb_frames: Option<String>,
    pub extradata_size: Option<i32>,
    pub disposition: SortedMap<i32>,
    pub tags: SortedMap<String>,
    pub side_data_list: Option<Vec<SideDataInfo>>,
    pub has_hdr10_plus: bool,
}

#[derive(Debug)]
pub struct VideoFields {
    pub width: i32,
    pub height: i32,
    pub coded_width: i32,
    pub coded_height: i32,
    pub pixel_format: String,
    pub level: i32,
    pub color_range: Option<String>,
    pub color_space: Option<String>,
    pub color_transfer: Option<String>,
    pub color_primaries: Option<String>,
    pub display_aspect_ratio: Option<String>,
    pub sample_aspect_ratio: String,
    pub field_order: Option<String>,
    pub chroma_location: Option<String>,
    pub closed_captions: i32,
    pub film_grain: i32,
    pub has_b_frames: i32,
    pub refs: i32,
    pub view_ids_available: Option<String>,
    pub view_pos_available: Option<String>,
    pub bit_depth: u8,
}

#[derive(Debug)]
pub struct AudioFields {
    pub sample_format: String,
    pub sample_rate: String,
    pub channels: i32,
    pub channel_layout: Option<String>,
    pub bits_per_sample: i32,
}

#[derive(Debug)]
pub struct ChapterInfo {
    pub id: i64,
    pub time_base: String,
    pub start: i64,
    pub start_time: String,
    pub end: i64,
    pub end_time: String,
    pub tags: SortedMap<String>,
}

#[derive(Debug)]
pub struct SideDataInfo {
    pub side_data_type: String,
    pub dv_version_major: Option<i32>,
    pub dv_version_minor: Option<i32>,
    pub dv_profile: Option<i32>,
    pub dv_level: Option<i32>,
    pub rpu_present_flag: Option<i32>,
    pub el_present_flag: Option<i32>,
    pub bl_present_flag: Option<i32>,
    pub bl_signal_compatibility_id: Option<i32>,
}

/// The descriptor of a codec.
pub struct CodecDescriptor {
    pub name: String,
    pub long_name: Option<String>,
}

/// What came of opening the decoder of a stream.
pub enum DecoderProbe {
    /// There is no decoder, or it does not take the stream's parameters.
    Missing,
    /// It took the parameters but did not open.
    Closed { refs: i32 },
    /// It opened.
    Open {
        refs: i32,
        coded_width: i32,
        coded_height: i32,
        view_ids_available: Option<String>,
        view_pos_available: Option<String>,
    },
}

/// One piece of side data of a stream.
pub struct RawSideData {
    /// The number of its type.
    pub kind: u32,
    /// The name of its type, where it has one.
    pub kind_name: Option<String>,
    /// It is a Dolby Vision configuration.
    pub is_dovi: bool,
    pub data: Vec<u8>,
}

/// What the demuxer says of a stream.
pub struct RawStream {
    pub media_type: MediaType,
    pub codec_id: u32,
    pub descriptor: Option<CodecDescriptor>,
    pub codec_tag: u32,
    pub profile: i32,
    /// The name of the profile, where it has one.
    pub profile_name: Option<String>,
    pub decoder: DecoderProbe,
    /// The number of the pixel or sample format.
    pub format: i32,
    /// The name of the pixel or sample format, where it has one.
    pub format_name: Option<String>,
    /// The bit depth of the first component of the pixel format, where it is known.
    pub component_depth: Option<u8>,
    pub width: i32,
    pub height: i32,
    pub level: i32,
    pub color_range: i32,
    pub color_space: i32,
    pub color_primaries: i32,
    pub color_transfer: i32,
    pub sample_aspect_ratio: Rational,
    pub field_order: i32,
    pub chroma_location: i32,
    pub video_delay: i32,
    pub sample_rate: i32,
    pub channels: i32,
    /// The description of the channel layout, where there is one.
    pub channel_layout: Option<String>,
    pub bits_per_raw_sample: i32,
    pub id: i32,
    pub r_frame_rate: Rational,
    pub avg_frame_rate: Rational,
    pub time_base: Rational,
    pub start_time: i64,
    /// `start_time` in seconds, with six decimals.
    pub start_seconds: String,
    pub duration: i64,
    /// `duration` in seconds, with six decimals.
    pub duration_seconds: String,
    pub bit_rate: i64,
    pub nb_frames: i64,
    pub extradata_size: i32,
    pub disposition: i32,
    pub tags: Vec<RawTag>,
    pub side_data: Vec<RawSideData>,
}

/// What the demuxer says of a chapter.
pub struct RawChapter {
    pub id: i64,
    pub time_base: Rational,
    pub start: i64,
    /// `start` in seconds, with six decimals.
    pub start_seconds: String,
    pub end: i64,
    /// `end` in seconds, with six decimals.
    pub end_seconds: String,
    pub tags: Vec<RawTag>,
}

/// What the demuxer says of a file.
pub struct RawFormat {
    pub format_name: String,
    pub format_long_name: String,
    pub start_time: i64,
    /// `start_time` in seconds, with six decimals.
    pub start_seconds: String,
    pub duration: i64,
    /// `duration` in seconds, with six decimals.
    pub duration_seconds: String,
    pub bit_rate: i64,
    pub nb_programs: i32,
    pub probe_score: i32,
    pub tags: Vec<RawTag>,
    pub streams: Vec<RawStream>,
    /// The chapters, in order; an entry that holds none is passed over.
    pub chapters: Vec<Option<RawChapter>>,
}

/// All tags are short enough to be decoded.
pub open spec fn tags_fit(tags: Seq<RawTag>) -> bool {
    forall|i: int| 0 <= i < tags.len() ==> (#[trigger] tags[i]).fits()
}

/// `text` where `wanted`, else nothing.
pub open spec fn text_if(wanted: bool, text: Seq<char>) -> Option<Seq<char>> {
    if wanted {
        Some(text)
    } else {
        None
    }
}

pub open spec fn codec_name_text(raw: RawStream) -> Seq<char> {
    match raw.descriptor {
        Some(d) => d.name@,
        None => "unknown(0x"@ + hex(raw.codec_id as nat) + ")"@,
    }
}

pub open spec fn codec_long_name_text(raw: RawStream) -> Seq<char> {
    match raw.descriptor {
        Some(d) => match d.long_name {
            Some(n) => n@,
            None => Seq::empty(),
        },
        None => "Unknown codec"@,
    }
}

/// The number of reference frames: 1 where no decoder took the stream.
pub open spec fn refs_of(d: DecoderProbe) -> i32 {
    match d {
        DecoderProbe::Missing => 1,
        DecoderProbe::Closed { refs } => refs,
        DecoderProbe::Open { refs, .. } => refs,
    }
}

pub open spec fn coded_size(raw: RawStream) -> (i32, i32) {
    match raw.decoder {
        DecoderProbe::Open { coded_width, coded_height, .. } => (coded_width, coded_height),
        _ => (raw.width, raw.height),
    }
}

pub open spec fn view_ids(d: DecoderProbe) -> Option<Seq<char>> {
    match d {
        DecoderProbe::Open { view_ids_available, .. } => opt_text(view_ids_available),
        _ => None,
    }
}

pub open spec fn view_pos(d: DecoderProbe) -> Option<Seq<char>> {
    match d {
        DecoderProbe::Open { view_pos_available, .. } => opt_text(view_pos_available),
        _ => None,
    }
}

pub open spec fn format_text_of(raw: RawStream) -> Seq<char> {
    match opt_text(raw.format_name) {
        Some(s) => s,
        None => unknown_text(raw.format as int),
    }
}

pub open spec fn sar_text(sar: Rational) -> Seq<char> {
    if sar.num > 0 && sar.den > 0 {
        dec(sar.num as int) + ":"@ + dec(sar.den as int)
    } else {
        "1:1"@
    }
}

/// `v` says of a video stream what `raw` holds.
pub open spec fn describes_video(v: VideoFields, raw: RawStream) -> bool {
    &&& v.width == raw.width && v.height == raw.height
    &&& (v.coded_width, v.coded_height) == coded_size(raw)
    &&& v.pixel_format@ == format_text_of(raw)
    &&& v.level == raw.level
    &&& opt_text(v.color_range) == color_range_text(raw.color_range)
    &&& opt_text(v.color_space) == color_space_text(raw.color_space)
    &&& opt_text(v.color_primaries) == color_primaries_text(raw.color_primaries)
    &&& opt_text(v.color_transfer) == color_transfer_text(raw.color_transfer)
    &&& opt_text(v.display_aspect_ratio) == dar_text(
        raw.width,
        raw.height,
        raw.sample_aspect_ratio,
    )
    &&& v.sample_aspect_ratio@ == sar_text(raw.sample_aspect_ratio)
    &&& opt_text(v.field_order) == field_order_text(raw.field_order)
    &&& opt_text(v.chroma_location) == chroma_location_text(raw.chroma_location)
    &&& v.closed_captions == 0 && v.film_grain == 0
    &&& v.has_b_frames == raw.video_delay
    &&& v.refs == refs_of(raw.decoder)
    &&& opt_text(v.view_ids_available) == view_ids(raw.decoder)
    &&& opt_text(v.view_pos_available) == view_pos(raw.decoder)
    &&& v.bit_depth == (match raw.component_depth {
        Some(d) => d,
        None => 8,
    })
}

/// `a` says of an audio stream what `raw` holds.
pub open spec fn describes_audio(a: AudioFields, raw: RawStream) -> bool {
    &&& a.sample_format@ == format_text_of(raw)
    &&& a.sample_rate@ == dec(raw.sample_rate as int)
    &&& a.channels == raw.channels
    &&& opt_text(a.channel_layout) == (match opt_text(raw.channel_layout) {
        Some(s) if s.len() > 0 => Some(s),
        _ => None,
    })
    &&& a.bits_per_sample == raw.bits_per_raw_sample
}

/// The value of byte `k` of a Dolby Vision record that is present.
pub open spec fn dovi_field(d: RawSideData, record_size: nat, k: int) -> Option<i32> {
    if d.is_dovi && d.data@.len() >= record_size {
        Some(d.data@[k] as i32)
    } else {
        None
    }
}

/// `info` says what the side data `d` holds. A Dolby Vision configuration record is eight bytes
/// or more: version major and minor, profile, level, the three presence flags and the base layer
/// compatibility.
pub open spec fn describes_side_data(info: SideDataInfo, d: RawSideData, record_size: nat) -> bool {
    &&& info.side_data_type@ == (match opt_text(d.kind_name) {
        Some(s) => s,
        None => unknown_text(d.kind as int),
    })
    &&& info.dv_version_major == dovi_field(d, record_size, 0)
    &&& info.dv_version_minor == dovi_field(d, record_size, 1)
    &&& info.dv_profile == dovi_field(d, record_size, 2)
    &&& info.dv_level == dovi_field(d, record_size, 3)
    &&& info.rpu_present_flag == dovi_field(d, record_size, 4)
    &&& info.el_present_flag == dovi_field(d, record_size, 5)
    &&& info.bl_present_flag == dovi_field(d, record_size, 6)
    &&& info.bl_signal_compatibility_id == dovi_field(d, record_size, 7)
}

/// `list` describes the side data of a stream, piece by piece; there is no list where there is
/// no piece.
pub open spec fn describes_side_data_list(
    list: Option<Vec<SideDataInfo>>,
    data: Seq<RawSideData>,
    record_size: nat,
) -> bool {
    match list {
        None => data.len() == 0,
        Some(v) => data.len() > 0 && v@.len() == data.len() && forall|i: int|
            0 <= i < data.len() ==> describes_side_data(#[trigger] v@[i], data[i], record_size),
    }
}

/// `info` says of the stream number `index` what `raw` holds.
pub open spec fn describes_stream(
    info: StreamInfo,
    raw: RawStream,
    index: int,
    record_size: nat,
) -> bool {
    &&& info.index == index
    &&& info.codec_name@ == codec_name_text(raw)
    &&& info.codec_long_name@ == codec_long_name_text(raw)
    &&& opt_text(info.profile) == (if raw.profile >= 0 {
        opt_text(raw.profile_name)
    } else {
        None
    })
    &&& info.codec_type@ == media_type_text(raw.media_type)
    &&& info.codec_tag_string@ == fourcc_text(raw.codec_tag)
    &&& info.codec_tag@ == hex_text(raw.codec_tag, 4)
    &&& (info.video matches Some(v) ==> describes_video(v, raw))
    &&& (info.video is Some <==> raw.media_type == MediaType::Video)
    &&& (info.audio matches Some(a) ==> describes_audio(a, raw))
    &&& (info.audio is Some <==> raw.media_type == MediaType::Audio)
    &&& opt_text(info.id) == text_if(raw.id != 0, hex_text(bits_of(raw.id), 0))
    &&& info.r_frame_rate@ == rational_text(raw.r_frame_rate)
    &&& info.avg_frame_rate@ == rational_text(raw.avg_frame_rate)
    &&& info.time_base@ == rational_text(raw.time_base)
    &&& info.start_pts == (if raw.start_time == NO_PTS {
        None
    } else {
        Some(raw.start_time)
    })
    &&& opt_text(info.start_time) == text_if(raw.start_time != NO_PTS, raw.start_seconds@)
    &&& info.duration_ts == (if raw.duration > 0 {
        Some(raw.duration)
    } else {
        None
    })
    &&& opt_text(info.duration) == text_if(raw.duration > 0, raw.duration_seconds@)
    &&& opt_text(info.bit_rate) == text_if(raw.bit_rate > 0, dec(raw.bit_rate as int))
    &&& opt_text(info.nb_frames) == text_if(raw.nb_frames > 0, dec(raw.nb_frames as int))
    &&& info.extradata_size == (if raw.extradata_size > 0 {
        Some(raw.extradata_size)
    } else {
        None
    })
    &&& info.disposition.wf()
    &&& info.disposition@ == disposition_map(raw.disposition)
    &&& info.tags.wf()
    &&& text_map(info.tags@) == tags_of(raw.tags@)
    &&& describes_side_data_list(info.side_data_list, raw.side_data@, record_size)
}

fn dec_if_positive(n: i64) -> (r: Option<String>)
    ensures
        opt_text(r) == text_if(n > 0, dec(n as int)),
{
    if n > 0 {
        Some(dec_i64(n))
    } else {
        None
    }
}

fn copy_text(o: &Option<String>) -> (r: Option<String>)
    ensures
        opt_text(r) == opt_text(*o),
{
    match o {
        Some(s) => Some(s.clone()),
        None => None,
    }
}

/// The bit depth of a pixel format: that of its first component, or 8.
pub fn get_bit_depth(component_depth: Option<u8>) -> (r: u8)
    ensures
        r == (match component_depth {
            Some(d) => d,
            None => 8,
        }),
{
    match component_depth {
        Some(d) => d,
        None => 8,
    }
}

/// The video fields of a stream.
pub fn video_fields(raw: &RawStream) -> (r: VideoFields)
    ensures
        describes_video(r, *raw),
{
    let sar = raw.sample_aspect_ratio;
    let sar_str = if sar.num > 0 && sar.den > 0 {
        ratio_string(sar.num as i64, ":", sar.den as i64)
    } else {
        "1:1".to_owned()
    };
    let (coded_width, coded_height, view_ids, view_pos, refs) = match &raw.decoder {
        DecoderProbe::Missing => (raw.width, raw.height, None, None, 1),
        DecoderProbe::Closed { refs } => (raw.width, raw.height, None, None, *refs),
        DecoderProbe::Open {
            refs,
            coded_width,
            coded_height,
            view_ids_available,
            view_pos_available,
        } => (
            *coded_width,
            *coded_height,
            copy_text(view_ids_available),
            copy_text(view_pos_available),
            *refs,
        ),
    };
    VideoFields {
        width: raw.width,
        height: raw.height,
        coded_width,
        coded_height,
        pixel_format: name_or_unknown(&raw.format_name, raw.format as i64),
        level: raw.level,
        color_range: color_range_name(raw.color_range),
        color_space: color_space_name(raw.color_space),
        color_primaries: color_primaries_name(raw.color_primaries),
        color_transfer: color_transfer_name(raw.color_transfer),
        display_aspect_ratio: compute_dar(raw.width, raw.height, sar),
        sample_aspect_ratio: sar_str,
        field_order: field_order_name(raw.field_order),
        chroma_location: chroma_location_name(raw.chroma_location),
        closed_captions: 0,
        film_grain: 0,
        has_b_frames: raw.video_delay,
        refs,
        view_ids_available: view_ids,
        view_pos_available: view_pos,
        bit_depth: get_bit_depth(raw.component_depth),
    }
}

/// The audio fields of a stream.
pub fn audio_fields(raw: &RawStream) -> (r: AudioFields)
    ensures
        describes_audio(r, *raw),
{
    let channel_layout = match &raw.channel_layout {
        Some(s) => if s.as_str().unicode_len() > 0 {
            Some(s.clone())
        } else {
            None
        },
        None => None,
    };
    AudioFields {
        sample_format: name_or_unknown(&raw.format_name, raw.format as i64),
        sample_rate: dec_i64(raw.sample_rate as i64),
        channels: raw.channels,
        channel_layout,
        bits_per_sample: raw.bits_per_raw_sample,
    }
}

fn dovi_value(d: &RawSideData, record_size: usize, k: usize) -> (r: Option<i32>)
    requires
        record_size >= 8,
        k < 8,
    ensures
        r == dovi_field(*d, record_size as nat, k as int),
{
    if d.is_dovi && d.data.len() >= record_size {
        Some(d.data[k] as i32)
    } else {
        None
    }
}

/// The description of one piece of side data; `record_size` is the size of a Dolby Vision
/// configuration record.
pub fn side_data_info(d: &RawSideData, record_size: usize) -> (r: SideDataInfo)
    requires
        record_size >= 8,
    ensures
        describes_side_data(r, *d, record_size as nat),
{
    SideDataInfo {
        side_data_type: name_or_unknown(&d.kind_name, d.kind as i64),
        dv_version_major: dovi_value(d, record_size, 0),
        dv_version_minor: dovi_value(d, record_size, 1),
        dv_profile: dovi_value(d, record_size, 2),
        dv_level: dovi_value(d, record_size, 3),
        rpu_present_flag: dovi_value(d, record_size, 4),
        el_present_flag: dovi_value(d, record_size, 5),
        bl_present_flag: dovi_value(d, record_size, 6),
        bl_signal_compatibility_id: dovi_value(d, record_size, 7),
    }
}

/// The descriptions of the side data of a stream, in order.
pub fn extract_coded_side_data(data: &Vec<RawSideData>, record_size: usize) -> (r: Vec<
    SideDataInfo,
>)
    requires
        record_size >= 8,
    ensures
        r@.len() == data@.len(),
        forall|i: int|
            0 <= i < data@.len() ==> describes_side_data(
                #[trigger] r@[i],
                data@[i],
                record_size as nat,
            ),
{
    let mut result: Vec<SideDataInfo> = Vec::new();
    let mut i: usize = 0;
    while i < data.len()
        invariant
            i <= data@.len(),
            record_size >= 8,
            result@.len() == i,
            forall|k: int|
                0 <= k < i ==> describes_side_data(
                    #[trigger] result@[k],
                    data@[k],
                    record_size as nat,
                ),
        decreases data@.len() - i,
    {
        result.push(side_data_info(&data[i], record_size));
        i = i + 1;
    }
    result
}

/// The description of the stream number `index`.
pub fn stream_info(raw: &RawStream, index: i32, record_size: usize) -> (r: StreamInfo)
    requires
        record_size >= 8,
        tags_fit(raw.tags@),
    ensures
        describes_stream(r, *raw, index as int, record_size as nat),
        !r.has_hdr10_plus,
{
    let (codec_name, codec_long_name) = match &raw.descriptor {
        Some(d) => {
            let long_name = match &d.long_name {
                Some(n) => n.clone(),
                None => String::new(),
            };
            (d.name.clone(), long_name)
        },
        None => {
            let mut name = "unknown(0x".to_owned();
            name.append(hex_u128(raw.codec_id as u128).as_str());
            name.append(")");
            (name, "Unknown codec".to_owned())
        },
    };
    let profile = if raw.profile >= 0 {
        copy_text(&raw.profile_name)
    } else {
        None
    };
    let video = if raw.media_type == MediaType::Video {
        Some(video_fields(raw))
    } else {
        None
    };
    let audio = if raw.media_type == MediaType::Audio {
        Some(audio_fields(raw))
    } else {
        None
    };
    let id = if raw.id != 0 {
        Some(hex_string(unsigned_bits(raw.id), 0))
    } else {
        None
    };
    let (start_pts, start_time) = if raw.start_time == NO_PTS {
        (None, None)
    } else {
        (Some(raw.start_time), Some(raw.start_seconds.clone()))
    };
    let (duration_ts, duration) = if raw.duration > 0 {
        (Some(raw.duration), Some(raw.duration_seconds.clone()))
    } else {
        (None, None)
    };
    let extradata_size = if raw.extradata_size > 0 {
        Some(raw.extradata_size)
    } else {
        None
    };
    let side_data = extract_coded_side_data(&raw.side_data, record_size);
    let side_data_list = if side_data.len() == 0 {
        None
    } else {
        Some(side_data)
    };
    StreamInfo {
        index,
        codec_name,
        codec_long_name,
        profile,
        codec_type: media_type_name(raw.media_type).to_owned(),
        codec_tag_string: fourcc_to_string(raw.codec_tag),
        codec_tag: hex_string(raw.codec_tag, 4),
        video,
        audio,
        id,
        r_frame_rate: rational_to_string(raw.r_frame_rate),
        avg_frame_rate: rational_to_string(raw.avg_frame_rate),
        time_base: rational_to_string(raw.time_base),
        start_pts,
        start_time,
        duration_ts,
        duration,
        bit_rate: dec_if_positive(raw.bit_rate),
        nb_frames: dec_if_positive(raw.nb_frames),
        extradata_size,
        disposition: decode_disposition(raw.disposition),
        tags: extract_tags(&raw.tags),
        side_data_list,
        has_hdr10_plus: false,
    }
}

/// `info` says what the chapter `raw` holds.
pub open spec fn describes_chapter(info: ChapterInfo, raw: RawChapter) -> bool {
    &&& info.id == raw.id
    &&& info.time_base@ == dec(raw.time_base.num as int) + "/"@ + dec(raw.time_base.den as int)
    &&& info.start == raw.start
    &&& info.start_time@ == raw.start_seconds@
    &&& info.end == raw.end
    &&& info.end_time@ == raw.end_seconds@
    &&& info.tags.wf()
    &&& text_map(info.tags@) == tags_of(raw.tags@)
}

/// The entries that hold a chapter, in order.
pub open spec fn present_chapters(raw: Seq<Option<RawChapter>>) -> Seq<RawChapter>
    decreases raw.len(),
{
    if raw.len() == 0 {
        Seq::empty()
    } else {
        match raw.last() {
            Some(c) => present_chapters(raw.drop_last()).push(c),
            None => present_chapters(raw.drop_last()),
        }
    }
}

pub open spec fn describes_chapters(info: Seq<ChapterInfo>, raw: Seq<RawChapter>) -> bool {
    &&& info.len() == raw.len()
    &&& forall|i: int| 0 <= i < raw.len() ==> describes_chapter(#[trigger] info[i], raw[i])
}

/// All chapter tags are short enough to be decoded.
pub open spec fn chapters_fit(raw: Seq<Option<RawChapter>>) -> bool {
    forall|i: int|
        0 <= i < raw.len() ==> (#[trigger] raw[i] matches Some(c) ==> tags_fit(c.tags@))
}

/// The descriptions of the chapters, in order.
pub fn extract_chapters(raw: &Vec<Option<RawChapter>>) -> (r: Vec<ChapterInfo>)
    requires
        chapters_fit(raw@),
    ensures
        describes_chapters(r@, present_chapters(raw@)),
{
    let mut chapters: Vec<ChapterInfo> = Vec::new();
    let mut i: usize = 0;
    proof {
        assert(raw@.take(0) =~= Seq::<Option<RawChapter>>::empty());
    }
    while i < raw.len()
        invariant
            i <= raw@.len(),
            chapters_fit(raw@),
            describes_chapters(chapters@, present_chapters(raw@.take(i as int))),
        decreases raw@.len() - i,
    {
        proof {
            assert(raw@.take(i + 1).drop_last() =~= raw@.take(i as int));
            assert(raw@.take(i + 1).last() == raw@[i as int]);
            assert(raw@[i as int] matches Some(c) ==> tags_fit(c.tags@));
        }
        match &raw[i] {
            Some(c) => {
                chapters.push(
                    ChapterInfo {
                        id: c.id,
                        time_base: ratio_string(
                            c.time_base.num as i64,
                            "/",
                            c.time_base.den as i64,
                        ),
                        start: c.start,
                        start_time: c.start_seconds.clone(),
                        end: c.end,
                        end_time: c.end_seconds.clone(),
                        tags: extract_tags(&c.tags),
                    },
                );
            },
            None => {},
        }
        i = i + 1;
    }
    proof {
        assert(raw@.take(raw@.len() as int) =~= raw@);
    }
    chapters
}

/// `info` says of the file what `raw` holds. A file that does not say when it starts starts at
/// zero, and one without a positive duration has duration zero.
pub open spec fn describes_format(
    info: FormatInfo,
    raw: RawFormat,
    filename: Seq<char>,
    size: Seq<char>,
) -> bool {
    &&& info.filename@ == filename
    &&& info.nb_streams == raw.streams@.len()
    &&& info.nb_programs == raw.nb_programs
    &&& info.format_name@ == raw.format_name@
    &&& info.format_long_name@ == raw.format_long_name@
    &&& info.start_time@ == (if raw.start_time == NO_PTS {
        "0.000000"@
    } else {
        raw.start_seconds@
    })
    &&& info.duration@ == (if raw.duration > 0 {
        raw.duration_seconds@
    } else {
        "0.000000"@
    })
    &&& info.size@ == size
    &&& info.bit_rate@ == dec(raw.bit_rate as int)
    &&& info.probe_score == raw.probe_score
    &&& info.tags.wf()
    &&& text_map(info.tags@) == tags_of(raw.tags@)
}

/// Everything of the file can be described: tags can be decoded and streams can be numbered.
pub open spec fn format_fits(raw: RawFormat) -> bool {
    &&& tags_fit(raw.tags@)
    &&& raw.streams@.len() <= i32::MAX
    &&& forall|i: int| 0 <= i < raw.streams@.len() ==> tags_fit((#[trigger] raw.streams@[i]).tags@)
    &&& chapters_fit(raw.chapters@)
}

/// Whether everything of the file can be described.
pub fn format_does_fit(raw: &RawFormat) -> (r: bool)
    ensures
        r == format_fits(*raw),
{
    if !tags_do_fit(&raw.tags) || raw.streams.len() > i32::MAX as usize {
        return false;
    }
    let mut i: usize = 0;
    while i < raw.streams.len()
        invariant
            i <= raw.streams@.len(),
            forall|k: int| 0 <= k < i ==> tags_fit((#[trigger] raw.streams@[k]).tags@),
        decreases raw.streams@.len() - i,
    {
        if !tags_do_fit(&raw.streams[i].tags) {
            proof {
                assert(!tags_fit(raw.streams@[i as int].tags@));
            }
            return false;
        }
        i = i + 1;
    }
    let mut k: usize = 0;
    while k < raw.chapters.len()
        invariant
            k <= raw.chapters@.len(),
            forall|j: int|
                0 <= j < k ==> (#[trigger] raw.chapters@[j] matches Some(c) ==> tags_fit(c.tags@)),
        decreases raw.chapters@.len() - k,
    {
        match &raw.chapters[k] {
            Some(c) => {
                if !tags_do_fit(&c.tags) {
                    proof {
                        assert(raw.chapters@[k as int] matches Some(c) && !tags_fit(c.tags@));
                    }
                    return false;
                }
            },
            None => {},
        }
        k = k + 1;
    }
    true
}

/// `info` describes the file `raw`; dynamic HDR metadata, which only packets show, is apart.
pub open spec fn describes_media(
    info: MediaInfo,
    raw: RawFormat,
    filename: Seq<char>,
    size: Seq<char>,
    record_size: nat,
) -> bool {
    &&& describes_format(info.format, raw, filename, size)
    &&& info.streams@.len() == raw.streams@.len()
    &&& forall|i: int|
        0 <= i < raw.streams@.len() ==> describes_stream(
            #[trigger] info.streams@[i],
            raw.streams@[i],
            i,
            record_size,
        )
    &&& describes_chapters(info.chapters@, present_chapters(raw.chapters@))
}

/// Describes a file from what its demuxer says. `filename_hint` and `size_str` stand as they are;
/// `record_size` is the size of a Dolby Vision configuration record. The first video stream is
/// marked as HDR10+ where one of the first `packets` of the file shows it.
pub fn probe_format_ctx(
    raw: &RawFormat,
    filename_hint: &str,
    size_str: &str,
    record_size: usize,
    packets: &Vec<ProbedPacket>,
) -> (r: MediaInfo)
    requires
        record_size >= 8,
        format_fits(*raw),
    ensures
        describes_media(r, *raw, filename_hint@, size_str@, record_size as nat),
        forall|i: int|
            0 <= i < r.streams@.len() ==> (#[trigger] r.streams@[i]).has_hdr10_plus == (
            is_first_video(raw.streams@, i) && packets_show_hdr10_plus(packets@, i)),
{
    let first_video = first_video_stream(&raw.streams);
    let mut streams: Vec<StreamInfo> = Vec::new();
    let mut i: usize = 0;
    while i < raw.streams.len()
        invariant
            i <= raw.streams@.len(),
            record_size >= 8,
            format_fits(*raw),
            streams@.len() == i,
            forall|k: int|
                0 <= k < i ==> describes_stream(
                    #[trigger] streams@[k],
                    raw.streams@[k],
                    k,
                    record_size as nat,
                ),
            match first_video {
                Some(v) => is_first_video(raw.streams@, v as int),
                None => forall|j: int|
                    0 <= j < raw.streams@.len() ==> (#[trigger] raw.streams@[j]).media_type
                        != MediaType::Video,
            },
            forall|k: int|
                0 <= k < i ==> (#[trigger] streams@[k]).has_hdr10_plus == (is_first_video(
                    raw.streams@,
                    k,
                ) && packets_show_hdr10_plus(packets@, k)),
        decreases raw.streams@.len() - i,
    {
        proof {
            assert(tags_fit(raw.streams@[i as int].tags@));
        }
        let mut info = stream_info(&raw.streams[i], i as i32, record_size);
        match first_video {
            Some(v) => {
                if v == i && detect_hdr10_plus(packets, v) {
                    info.has_hdr10_plus = true;
                }
                proof {
                    if v < i {
                        assert(raw.streams@[v as int].media_type == MediaType::Video);
                    }
                }
            },
            None => {},
        }
        streams.push(info);
        i = i + 1;
    }
    let chapters = extract_chapters(&raw.chapters);
    let format = FormatInfo {
        filename: filename_hint.to_owned(),
        nb_streams: streams.len() as i32,
        nb_programs: raw.nb_programs,
        format_name: raw.format_name.clone(),
        format_long_name: raw.format_long_name.clone(),
        start_time: if raw.start_time == NO_PTS {
            "0.000000".to_owned()
        } else {
            raw.start_seconds.clone()
        },
        duration: if raw.duration > 0 {
            raw.duration_seconds.clone()
        } else {
            "0.000000".to_owned()
        },
        size: size_str.to_owned(),
        bit_rate: dec_i64(raw.bit_rate),
        probe_score: raw.probe_score,
        tags: extract_tags(&raw.tags),
    };
    MediaInfo { streams, format, chapters }
}

/// The options that an input is opened with for probing, as key and value: enough is read for
/// streams whose parameters come late.
pub fn probe_options() -> (r: Vec<(String, String)>)
    ensures
        r@.len() == 2,
        r@[0].0@ == "probesize"@ && r@[0].1@ == "50000000"@,
        r@[1].0@ == "analyzeduration"@ && r@[1].1@ == "50000000"@,
{
    let mut options: Vec<(String, String)> = Vec::new();
    options.push(("probesize".to_owned(), "50000000".to_owned()));
    options.push(("analyzeduration".to_owned(), "50000000".to_owned()));
    options
}

/// The size text of an input: that of a local file whose size is known, else `0`.
pub fn size_text(input: &str, file_size: Option<u64>) -> (r: String)
    ensures
        r@ == (match file_size {
            Some(n) if !contains_text(input@, "://"@) => dec(n as int),
            _ => "0"@,
        }),
{
    if contains(input, "://") {
        return "0".to_owned();
    }
    match file_size {
        Some(n) => dec_u64(n),
        None => "0".to_owned(),
    }
}

/// The number of packets that are looked at for dynamic HDR metadata.
pub const HDR10_PLUS_PACKETS: usize = 32;

/// The side data type of HDR10+ dynamic metadata.
pub const HDR10_PLUS_SIDE_DATA: u32 = 31;

/// What a packet shows of dynamic HDR metadata.
pub struct ProbedPacket {
    pub stream_index: i32,
    /// The types of its side data.
    pub side_data_types: Vec<u32>,
}

/// The packet belongs to the stream and carries HDR10+ metadata.
pub open spec fn shows_hdr10_plus(p: ProbedPacket, video_idx: int) -> bool {
    p.stream_index == video_idx && p.side_data_types@.contains(HDR10_PLUS_SIDE_DATA)
}

/// One of the first packets of the file shows HDR10+ metadata of the stream.
pub open spec fn packets_show_hdr10_plus(packets: Seq<ProbedPacket>, video_idx: int) -> bool {
    exists|i: int|
        0 <= i < packets.len() && i < HDR10_PLUS_PACKETS && shows_hdr10_plus(
            #[trigger] packets[i],
            video_idx,
        )
}

/// `i` is the place of the first video stream.
pub open spec fn is_first_video(streams: Seq<RawStream>, i: int) -> bool {
    &&& 0 <= i < streams.len()
    &&& streams[i].media_type == MediaType::Video
    &&& forall|j: int| 0 <= j < i ==> (#[trigger] streams[j]).media_type != MediaType::Video
}

/// The place of the first video stream.
pub fn first_video_stream(streams: &Vec<RawStream>) -> (r: Option<usize>)
    ensures
        match r {
            Some(i) => is_first_video(streams@, i as int),
            None => forall|j: int|
                0 <= j < streams@.len() ==> (#[trigger] streams@[j]).media_type != MediaType::Video,
        },
{
    let mut i: usize = 0;
    while i < streams.len()
        invariant
            i <= streams@.len(),
            forall|j: int| 0 <= j < i ==> (#[trigger] streams@[j]).media_type != MediaType::Video,
        decreases streams@.len() - i,
    {
        if streams[i].media_type == MediaType::Video {
            return Some(i);
        }
        i = i + 1;
    }
    None
}

fn packet_shows(p: &ProbedPacket, video_idx: usize) -> (r: bool)
    ensures
        r == shows_hdr10_plus(*p, video_idx as int),
{
    if p.stream_index < 0 || p.stream_index as usize != video_idx {
        return false;
    }
    let mut i: usize = 0;
    while i < p.side_data_types.len()
        invariant
            p.stream_index == video_idx,
            i <= p.side_data_types@.len(),
            forall|k: int| 0 <= k < i ==> p.side_data_types@[k] != HDR10_PLUS_SIDE_DATA,
        decreases p.side_data_types@.len() - i,
    {
        if p.side_data_types[i] == HDR10_PLUS_SIDE_DATA {
            proof {
                assert(p.side_data_types@[i as int] == HDR10_PLUS_SIDE_DATA);
            }
            return true;
        }
        i = i + 1;
    }
    false
}

/// Whether one of the first packets of a file shows HDR10+ metadata of the stream `video_idx`.
pub fn detect_hdr10_plus(packets: &Vec<ProbedPacket>, video_idx: usize) -> (r: bool)
    ensures
        r == packets_show_hdr10_plus(packets@, video_idx as int),
{
    let mut i: usize = 0;
    while i < packets.len() && i < HDR10_PLUS_PACKETS
        invariant
            i <= packets@.len(),
            i <= HDR10_PLUS_PACKETS,
            forall|k: int| 0 <= k < i ==> !shows_hdr10_plus(#[trigger] packets@[k], video_idx as int),
        decreases packets@.len() - i,
    {
        if packet_shows(&packets[i], video_idx) {
            return true;
        }
        i = i + 1;
    }
    false
}

/// Whether the search for HDR10+ metadata needs one more packet than the `packets` read so far:
/// there is a video stream, its metadata has not shown yet, and the limit is not reached.
pub fn wants_packet(streams: &Vec<RawStream>, packets: &Vec<ProbedPacket>) -> (r: bool)
    ensures
        r == exists|v: int| #[trigger]
            is_first_video(streams@, v) && packets@.len() < HDR10_PLUS_PACKETS
                && !packets_show_hdr10_plus(packets@, v),
{
    match first_video_stream(streams) {
        Some(v) => {
            proof {
                assert forall|w: int| #[trigger] is_first_video(streams@, w) implies w == v by {
                    if w < v {
                        assert(streams@[w].media_type != MediaType::Video);
                    } else if v < w {
                        assert(streams@[v as int].media_type != MediaType::Video);
                    }
                }
                assert(is_first_video(streams@, v as int));
            }
            packets.len() < HDR10_PLUS_PACKETS && !detect_hdr10_plus(packets, v)
        },
        None => false,
    }
}

/// A packet that is no longer wanted changes nothing: once the search has ended, the packets that
/// follow do not matter.
pub proof fn law_search_may_stop(streams: Seq<RawStream>, read: Seq<ProbedPacket>, more: Seq<ProbedPacket>, v: int)
    requires
        is_first_video(streams, v),
        read.len() >= HDR10_PLUS_PACKETS || packets_show_hdr10_plus(read, v),
    ensures
        packets_show_hdr10_plus(read + more, v) == packets_show_hdr10_plus(read, v),
{
    if packets_show_hdr10_plus(read, v) {
        let i = choose|i: int|
            0 <= i < read.len() && i < HDR10_PLUS_PACKETS && shows_hdr10_plus(
                #[trigger] read[i],
                v,
            );
        assert((read + more)[i] == read[i]);
    } else if packets_show_hdr10_plus(read + more, v) {
        let i = choose|i: int|
            0 <= i < (read + more).len() && i < HDR10_PLUS_PACKETS && shows_hdr10_plus(
                #[trigger] (read + more)[i],
                v,
            );
        assert((read + more)[i] == read[i]);
    }
}

/// The description of a video stream holds the numbers of the stream, each in its own field, and
/// the colours by their names.
pub proof fn law_video_is_described(v: VideoFields, raw: RawStream)
    requires
        describes_video(v, raw),
    ensures
        v.width == raw.width,
        v.height == raw.height,
        v.level == raw.level,
        v.has_b_frames == raw.video_delay,
        v.closed_captions == 0,
        v.film_grain == 0,
        raw.format_name matches Some(s) ==> v.pixel_format@ == s@,
        raw.format_name is None ==> v.pixel_format@ == "unknown("@ + dec(raw.format as int) + ")"@,
        raw.component_depth matches Some(d) ==> v.bit_depth == d,
        raw.component_depth is None ==> v.bit_depth == 8,
        raw.color_range == 1 ==> v.color_range is Some && v.color_range->0@ == "tv"@,
        raw.color_range == 2 ==> v.color_range is Some && v.color_range->0@ == "pc"@,
        raw.color_space == 9 ==> v.color_space is Some && v.color_space->0@ == "bt2020nc"@,
        raw.color_primaries == 9 ==> v.color_primaries is Some && v.color_primaries->0@
            == "bt2020"@,
        raw.color_transfer == 16 ==> v.color_transfer is Some && v.color_transfer->0@
            == "smpte2084"@,
        raw.field_order == 1 ==> v.field_order is Some && v.field_order->0@ == "progressive"@,
        raw.chroma_location == 1 ==> v.chroma_location is Some && v.chroma_location->0@ == "left"@,
        v.display_aspect_ratio is Some <==> raw.width > 0 && raw.height > 0,
        raw.sample_aspect_ratio.num > 0 && raw.sample_aspect_ratio.den > 0
            ==> v.sample_aspect_ratio@ == dec(raw.sample_aspect_ratio.num as int) + ":"@ + dec(
            raw.sample_aspect_ratio.den as int,
        ),
        raw.sample_aspect_ratio.num <= 0 || raw.sample_aspect_ratio.den <= 0
            ==> v.sample_aspect_ratio@ == "1:1"@,
{
}

/// The coded size and the views are those of the decoder where it opened; else the size is that of
/// the stream. The references are those of the decoder that took the stream, else one.
pub proof fn law_decoder_tells_what_it_knows(v: VideoFields, raw: RawStream)
    requires
        describes_video(v, raw),
    ensures
        raw.decoder matches DecoderProbe::Open {
            refs,
            coded_width,
            coded_height,
            view_ids_available,
            view_pos_available,
        } ==> v.refs == refs && v.coded_width == coded_width && v.coded_height == coded_height
            && opt_text(v.view_ids_available) == opt_text(view_ids_available) && opt_text(
            v.view_pos_available,
        ) == opt_text(view_pos_available),
        raw.decoder !is Open ==> v.coded_width == raw.width && v.coded_height == raw.height
            && v.view_ids_available is None && v.view_pos_available is None,
        raw.decoder matches DecoderProbe::Closed { refs } ==> v.refs == refs,
        raw.decoder is Missing ==> v.refs == 1,
{
}

/// The description of an audio stream holds the numbers of the stream; an empty layout is none.
pub proof fn law_audio_is_described(a: AudioFields, raw: RawStream)
    requires
        describes_audio(a, raw),
    ensures
        a.sample_rate@ == dec(raw.sample_rate as int),
        a.channels == raw.channels,
        a.bits_per_sample == raw.bits_per_raw_sample,
        raw.format_name matches Some(s) ==> a.sample_format@ == s@,
        raw.format_name is None ==> a.sample_format@ == "unknown("@ + dec(raw.format as int) + ")"@,
        raw.channel_layout matches Some(s) ==> (s@.len() > 0 ==> a.channel_layout is Some
            && a.channel_layout->0@ == s@) && (s@.len() == 0 ==> a.channel_layout is None),
        raw.channel_layout is None ==> a.channel_layout is None,
{
}

/// A whole Dolby Vision record tells its eight values in the order of its bytes; a shorter one, or
/// other side data, tells none of them.
pub proof fn law_dolby_vision_record_is_read(info: SideDataInfo, d: RawSideData, record_size: nat)
    requires
        describes_side_data(info, d, record_size),
        record_size >= 8,
    ensures
        d.kind_name matches Some(s) ==> info.side_data_type@ == s@,
        d.kind_name is None ==> info.side_data_type@ == "unknown("@ + dec(d.kind as int) + ")"@,
        d.is_dovi && d.data@.len() >= record_size ==> info.dv_version_major is Some
            && info.dv_version_major->0 == d.data@[0] && info.dv_version_minor is Some
            && info.dv_version_minor->0 == d.data@[1] && info.dv_profile is Some
            && info.dv_profile->0 == d.data@[2] && info.dv_level is Some && info.dv_level->0
            == d.data@[3] && info.rpu_present_flag is Some && info.rpu_present_flag->0 == d.data@[4]
            && info.el_present_flag is Some && info.el_present_flag->0 == d.data@[5]
            && info.bl_present_flag is Some && info.bl_present_flag->0 == d.data@[6]
            && info.bl_signal_compatibility_id is Some && info.bl_signal_compatibility_id->0
            == d.data@[7],
        !d.is_dovi || d.data@.len() < record_size ==> info.dv_version_major is None
            && info.dv_version_minor is None && info.dv_profile is None && info.dv_level is None
            && info.rpu_present_flag is None && info.el_present_flag is None
            && info.bl_present_flag is None && info.bl_signal_compatibility_id is None,
{
}

/// The side data of a stream is described piece by piece, in order, and no list stands for none.
pub proof fn law_side_data_is_listed(
    list: Option<Vec<SideDataInfo>>,
    data: Seq<RawSideData>,
    record_size: nat,
    i: int,
)
    requires
        describes_side_data_list(list, data, record_size),
    ensures
        list is None <==> data.len() == 0,
        list is Some ==> list->0@.len() == data.len(),
        0 <= i < data.len() && data[i].kind_name is Some ==> list->0@[i].side_data_type@
            == data[i].kind_name->0@,
{
    if 0 <= i < data.len() {
        assert(describes_side_data(list->0@[i], data[i], record_size));
    }
}

/// The description of a stream names its codec and holds its times, rates and counts; what is not
/// known, not positive or not set is left out.
pub proof fn law_stream_is_described(info: StreamInfo, raw: RawStream, index: int, record_size: nat)
    requires
        describes_stream(info, raw, index, record_size),
    ensures
        info.index == index,
        raw.descriptor matches Some(d) ==> info.codec_name@ == d.name@ && (d.long_name matches Some(
            n,
        ) ==> info.codec_long_name@ == n@) && (d.long_name is None ==> info.codec_long_name@.len()
            == 0),
        raw.descriptor is None ==> info.codec_name@ == "unknown(0x"@ + hex(raw.codec_id as nat)
            + ")"@ && info.codec_long_name@ == "Unknown codec"@,
        raw.profile >= 0 ==> opt_text(info.profile) == opt_text(raw.profile_name),
        raw.profile < 0 ==> info.profile is None,
        raw.media_type == MediaType::Video ==> info.codec_type@ == "video"@ && info.video is Some
            && info.audio is None && info.video->0.width == raw.width,
        raw.media_type == MediaType::Audio ==> info.codec_type@ == "audio"@ && info.audio is Some
            && info.video is None && info.audio->0.channels == raw.channels,
        raw.media_type != MediaType::Video ==> info.video is None,
        raw.media_type != MediaType::Audio ==> info.audio is None,
        raw.id != 0 ==> info.id is Some && info.id->0@ == hex_text(bits_of(raw.id), 0),
        raw.id == 0 ==> info.id is None,
        raw.r_frame_rate.den != 0 ==> info.r_frame_rate@ == dec(raw.r_frame_rate.num as int) + "/"@
            + dec(raw.r_frame_rate.den as int),
        raw.avg_frame_rate.den != 0 ==> info.avg_frame_rate@ == dec(raw.avg_frame_rate.num as int)
            + "/"@ + dec(raw.avg_frame_rate.den as int),
        raw.time_base.den != 0 ==> info.time_base@ == dec(raw.time_base.num as int) + "/"@ + dec(
            raw.time_base.den as int,
        ),
        raw.start_time != NO_PTS ==> info.start_pts == Some(raw.start_time) && info.start_time
            is Some && info.start_time->0@ == raw.start_seconds@,
        raw.start_time == NO_PTS ==> info.start_pts is None && info.start_time is None,
        raw.duration > 0 ==> info.duration_ts == Some(raw.duration) && info.duration is Some
            && info.duration->0@ == raw.duration_seconds@,
        raw.duration <= 0 ==> info.duration_ts is None && info.duration is None,
        raw.bit_rate > 0 ==> info.bit_rate is Some && info.bit_rate->0@ == dec(raw.bit_rate as int),
        raw.bit_rate <= 0 ==> info.bit_rate is None,
        raw.nb_frames > 0 ==> info.nb_frames is Some && info.nb_frames->0@ == dec(
            raw.nb_frames as int,
        ),
        raw.nb_frames <= 0 ==> info.nb_frames is None,
        raw.extradata_size > 0 ==> info.extradata_size == Some(raw.extradata_size),
        raw.extradata_size <= 0 ==> info.extradata_size is None,
        info.codec_tag_string@ == fourcc_text(raw.codec_tag),
        info.codec_tag@ == hex_text(raw.codec_tag, 4),
        info.disposition@ == disposition_map(raw.disposition),
        text_map(info.tags@) == tags_of(raw.tags@),
        info.side_data_list is None <==> raw.side_data@.len() == 0,
{
}

/// The chapters that are there are described in order, each with its own times; an empty entry is
/// passed over.
pub proof fn law_present_chapters_are_kept(a: Seq<Option<RawChapter>>, b: Seq<Option<RawChapter>>, c: RawChapter)
    ensures
        present_chapters(Seq::empty()).len() == 0,
        present_chapters(seq![Some(c)]) == seq![c],
        present_chapters(seq![None::<RawChapter>]).len() == 0,
        present_chapters(a + b) == present_chapters(a) + present_chapters(b),
    decreases b.len(),
{
    reveal_with_fuel(present_chapters, 2);
    assert(seq![Some(c)].drop_last() =~= Seq::empty());
    assert(seq![None::<RawChapter>].drop_last() =~= Seq::empty());
    assert(present_chapters(seq![Some(c)]) =~= seq![c]);
    if b.len() == 0 {
        assert(a + b =~= a);
        assert(present_chapters(a) + present_chapters(b) =~= present_chapters(a));
    } else {
        law_present_chapters_are_kept(a, b.drop_last(), c);
        assert((a + b).drop_last() =~= a + b.drop_last());
        assert((a + b).last() == b.last());
        assert(present_chapters(a + b) =~= present_chapters(a) + present_chapters(b));
    }
}

/// A chapter is described by its own number, time base, times and tags.
pub proof fn law_chapter_is_described(info: Seq<ChapterInfo>, raw: Seq<RawChapter>, i: int)
    requires
        describes_chapters(info, raw),
        0 <= i < raw.len(),
    ensures
        info.len() == raw.len(),
        info[i].id == raw[i].id,
        info[i].start == raw[i].start,
        info[i].end == raw[i].end,
        info[i].start_time@ == raw[i].start_seconds@,
        info[i].end_time@ == raw[i].end_seconds@,
        info[i].time_base@ == dec(raw[i].time_base.num as int) + "/"@ + dec(
            raw[i].time_base.den as int,
        ),
        text_map(info[i].tags@) == tags_of(raw[i].tags@),
{
    assert(describes_chapter(info[i], raw[i]));
}

/// The description of a file names it and holds what its container says; the times of a file that
/// does not tell them are zero.
pub proof fn law_file_is_described(
    info: MediaInfo,
    raw: RawFormat,
    filename: Seq<char>,
    size: Seq<char>,
    record_size: nat,
    i: int,
)
    requires
        describes_media(info, raw, filename, size, record_size),
    ensures
        info.format.filename@ == filename,
        info.format.size@ == size,
        info.format.nb_streams == raw.streams@.len(),
        info.format.nb_programs == raw.nb_programs,
        info.format.format_name@ == raw.format_name@,
        info.format.format_long_name@ == raw.format_long_name@,
        info.format.bit_rate@ == dec(raw.bit_rate as int),
        info.format.probe_score == raw.probe_score,
        raw.start_time != NO_PTS ==> info.format.start_time@ == raw.start_seconds@,
        raw.start_time == NO_PTS ==> info.format.start_time@ == "0.000000"@,
        raw.duration > 0 ==> info.format.duration@ == raw.duration_seconds@,
        raw.duration <= 0 ==> info.format.duration@ == "0.000000"@,
        text_map(info.format.tags@) == tags_of(raw.tags@),
        info.streams@.len() == raw.streams@.len(),
        0 <= i < raw.streams@.len() ==> info.streams@[i].index == i && info.streams@[i].codec_tag@
            == hex_text(raw.streams@[i].codec_tag, 4),
        info.chapters@.len() == present_chapters(raw.chapters@).len(),
{
    if 0 <= i < raw.streams@.len() {
        assert(describes_stream(info.streams@[i], raw.streams@[i], i, record_size));
    }
}

/// Dynamic HDR metadata shows exactly if one of the first 32 packets of the file belongs to the
/// stream and carries side data of type 31.
pub proof fn law_dynamic_metadata_shows_early(packets: Seq<ProbedPacket>, video_idx: int, i: int, k: int)
    requires
        0 <= i < packets.len(),
        0 <= k < packets[i].side_data_types@.len(),
    ensures
        i < 32 && packets[i].stream_index == video_idx && packets[i].side_data_types@[k] == 31
            ==> packets_show_hdr10_plus(packets, video_idx),
        (forall|j: int, m: int|
            #![trigger packets[j].side_data_types@[m]]
            0 <= j < packets.len() && j < 32 && packets[j].stream_index == video_idx && 0 <= m
                < packets[j].side_data_types@.len() ==> packets[j].side_data_types@[m] != 31)
            ==> !packets_show_hdr10_plus(packets, video_idx),
{
    if i < 32 && packets[i].stream_index == video_idx && packets[i].side_data_types@[k] == 31 {
        assert(packets[i].side_data_types@.contains(31u32));
        assert(shows_hdr10_plus(packets[i], video_idx));
    }
    if packets_show_hdr10_plus(packets, video_idx) {
        let j = choose|j: int|
            0 <= j < packets.len() && j < HDR10_PLUS_PACKETS && shows_hdr10_plus(
                #[trigger] packets[j],
                video_idx,
            );
        let types = packets[j].side_data_types@;
        let m = choose|m: int| 0 <= m < types.len() && types[m] == HDR10_PLUS_SIDE_DATA;
        assert(packets[j].side_data_types@[m] == 31);
    }
}

/// The stream that is searched for dynamic metadata is a video stream with none before it.
pub proof fn law_first_video_is_searched(streams: Seq<RawStream>, i: int, j: int)
    requires
        is_first_video(streams, i),
        0 <= j < streams.len(),
        streams[j].media_type == MediaType::Video,
    ensures
        0 <= i <= j,
        streams[i].media_type == MediaType::Video,
{
}

/// The size of a file is told where the input is no address and its size is known; else it is zero.
/// An input is probed deeply enough for streams whose parameters come late.
pub proof fn law_size_of_local_files(input: &str, n: u64, known: String, unknown: String)
    requires
        call_ensures(size_text, (input, Some(n)), known),
        call_ensures(size_text, (input, None::<u64>), unknown),
    ensures
        !contains_text(input@, "://"@) ==> known@ == dec(n as int),
        contains_text(input@, "://"@) ==> known@ == "0"@,
        unknown@ == "0"@,
{
}

/// A file can be described exactly if its streams can be numbered and every tag of the file, of a
/// stream and of a chapter can be decoded.
pub proof fn law_files_that_fit(raw: RawFormat, i: int, k: int, t: int)
    requires
        format_fits(raw),
    ensures
        raw.streams@.len() <= i32::MAX,
        0 <= t < raw.tags@.len() ==> raw.tags@[t].fits(),
        0 <= i < raw.streams@.len() && 0 <= t < raw.streams@[i].tags@.len()
            ==> raw.streams@[i].tags@[t].fits(),
        0 <= k < raw.chapters@.len() && raw.chapters@[k] is Some && 0 <= t
            < raw.chapters@[k]->0.tags@.len() ==> raw.chapters@[k]->0.tags@[t].fits(),
{
    if 0 <= i < raw.streams@.len() {
        assert(tags_fit(raw.streams@[i].tags@));
    }
    if 0 <= k < raw.chapters@.len() && raw.chapters@[k] is Some {
        assert(raw.chapters@[k] matches Some(c) ==> tags_fit(c.tags@));
    }
}

/// A file without tags can be described whatever else it holds, as long as its streams can be
/// numbered.
pub proof fn law_files_without_tags_fit(raw: RawFormat)
    requires
        raw.streams@.len() <= i32::MAX,
        raw.tags@.len() == 0,
        forall|i: int| 0 <= i < raw.streams@.len() ==> (#[trigger] raw.streams@[i]).tags@.len() == 0,
        forall|k: int|
            0 <= k < raw.chapters@.len() ==> (#[trigger] raw.chapters@[k] is Some
                ==> raw.chapters@[k]->0.tags@.len() == 0),
    ensures
        format_fits(raw),
{
    assert forall|i: int| 0 <= i < raw.streams@.len() implies tags_fit(
        (#[trigger] raw.streams@[i]).tags@,
    ) by {
        assert(raw.streams@[i].tags@.len() == 0);
    }
    assert forall|k: int| 0 <= k < raw.chapters@.len() implies (#[trigger] raw.chapters@[k] matches Some(
        c,
    ) ==> tags_fit(c.tags@)) by {
        if raw.chapters@[k] is Some {
            assert(raw.chapters@[k]->0.tags@.len() == 0);
        }
    }
}

/// A video stream that has none before it is the one that is searched.
pub proof fn law_a_first_video_is_found(streams: Seq<RawStream>, i: int)
    requires
        0 <= i < streams.len(),
        streams[i].media_type == MediaType::Video,
        forall|j: int| 0 <= j < i ==> (#[trigger] streams[j]).media_type != MediaType::Video,
    ensures
        is_first_video(streams, i),
{
}

/// A pixel format without a known depth has eight bits, and inputs are probed with 50 million bytes
/// and microseconds.
pub proof fn law_probing_defaults(
    depth: u8,
    known: u8,
    unknown: u8,
    options: Vec<(String, String)>,
)
    requires
        call_ensures(get_bit_depth, (Some(depth),), known),
        call_ensures(get_bit_depth, (None::<u8>,), unknown),
        call_ensures(probe_options, (), options),
    ensures
        known == depth,
        unknown == 8,
        options@.len() == 2,
        options@[0].0@ == "probesize"@ && options@[0].1@ == "50000000"@,
        options@[1].0@ == "analyzeduration"@ && options@[1].1@ == "50000000"@,
{
}

} // verus!
