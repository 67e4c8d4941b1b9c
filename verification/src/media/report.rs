//! The report of a probed file for people to read.

use crate::collections::SortedMap;
use crate::media::names::{duration_text, format_duration, opt_text, DurationParts};
use crate::media::probe::{
    AudioFields, ChapterInfo, FormatInfo, MediaInfo, StreamInfo, VideoFields,
};
use crate::text::{
    contains_text, dec, dec_i64, law_written_number_is_read_back, lemma_contains_head,
    lemma_contains_tail, lemma_contains_through, parse_int, parse_size, parsed_int,
};
use vstd::prelude::*;

verus! {

/// What is derived from the texts of a probed file by conversion to seconds and megabytes.
pub struct ReportTexts {
    /// The duration of the file, where it is positive.
    pub duration: Option<DurationParts>,
    /// The size of the file with two decimals, in the unit that `size_in_gigabytes` tells.
    pub size_number: String,
    /// For each stream its duration, where it has one and it is positive.
    pub stream_durations: Vec<Option<DurationParts>>,
}

/// `label`, `value` and the end of the line.
pub open spec fn line(label: Seq<char>, value: Seq<char>) -> Seq<char> {
    label + value + "\n"@
}

/// A line where there is a value.
pub open spec fn line_if(label: Seq<char>, value: Option<Seq<char>>) -> Seq<char> {
    match value {
        Some(v) => line(label, v),
        None => Seq::empty(),
    }
}

fn push_line(out: &mut String, label: &str, value: &str)
    ensures
        final(out)@ == old(out)@ + line(label@, value@),
{
    out.append(label);
    out.append(value);
    out.append("\n");
    proof {
        assert(out@ =~= old(out)@ + line(label@, value@));
    }
}

fn push_line_if(out: &mut String, label: &str, value: &Option<String>)
    ensures
        final(out)@ == old(out)@ + line_if(label@, opt_text(*value)),
{
    match value {
        Some(v) => push_line(out, label, v.as_str()),
        None => {
            proof {
                assert(out@ =~= old(out)@ + Seq::<char>::empty());
            }
        },
    }
}

/// The number that a text writes, or 0 where it writes none of the range.
pub open spec fn number_or_zero(s: Seq<char>, lo: int, hi: int) -> int {
    match parsed_int(s, lo, hi) {
        Ok(n) => n,
        Err(_) => 0,
    }
}

/// The line of a bit rate in kilobits, where it is positive.
pub open spec fn rate_line(label: Seq<char>, rate: Seq<char>) -> Seq<char> {
    let n = number_or_zero(rate, i64::MIN as int, i64::MAX as int);
    if n > 0 {
        line(label, dec(n / 1000) + " kb/s"@)
    } else {
        Seq::empty()
    }
}

fn push_rate_line(out: &mut String, label: &str, rate: &str)
    ensures
        final(out)@ == old(out)@ + rate_line(label@, rate@),
{
    let n: i64 = match parse_int(rate, i64::MIN, i64::MAX) {
        Ok(n) => n,
        Err(_) => 0,
    };
    if n > 0 {
        let mut value = dec_i64(n / 1000);
        value.append(" kb/s");
        push_line(out, label, value.as_str());
    } else {
        proof {
            assert(out@ =~= old(out)@ + Seq::<char>::empty());
        }
    }
}

/// The line of a duration, where there is one.
pub open spec fn duration_line(label: Seq<char>, d: Option<DurationParts>) -> Seq<char> {
    if d is Some {
        line(label, duration_text(d))
    } else {
        Seq::empty()
    }
}

fn push_duration_line(out: &mut String, label: &str, d: Option<DurationParts>)
    ensures
        final(out)@ == old(out)@ + duration_line(label@, d),
{
    if d.is_some() {
        push_line(out, label, format_duration(d).as_str());
    } else {
        proof {
            assert(out@ =~= old(out)@ + Seq::<char>::empty());
        }
    }
}

/// The size of a file in bytes, from its text; 0 where the text writes no size.
pub open spec fn size_of_text(size: Seq<char>) -> int {
    number_or_zero(size, 0, u64::MAX as int)
}

/// The size of a file in bytes, from its text; 0 where the text writes no size.
pub fn file_size(size: &str) -> (r: u64)
    ensures
        r as int == size_of_text(size@),
{
    match parse_size(size) {
        Ok(n) => n,
        Err(_) => 0,
    }
}

/// Whether a size is reported in gigabytes rather than megabytes: from 1024 megabytes on.
pub fn size_in_gigabytes(size: u64) -> (r: bool)
    ensures
        r == (size as int >= 1024 * 1024 * 1024),
{
    size >= 1024 * 1024 * 1024
}

/// The line of the size, where there is one.
pub open spec fn size_line(size: Seq<char>, number: Seq<char>) -> Seq<char> {
    let n = size_of_text(size);
    if n >= 1024 * 1024 * 1024 {
        line("  Size:       "@, number + " GB"@)
    } else if n > 0 {
        line("  Size:       "@, number + " MB"@)
    } else {
        Seq::empty()
    }
}

fn push_size_line(out: &mut String, size: &str, number: &str)
    ensures
        final(out)@ == old(out)@ + size_line(size@, number@),
{
    let n: u64 = file_size(size);
    if n > 0 {
        let mut value = number.to_owned();
        if size_in_gigabytes(n) {
            value.append(" GB");
        } else {
            value.append(" MB");
        }
        push_line(out, "  Size:       ", value.as_str());
    } else {
        proof {
            assert(out@ =~= old(out)@ + Seq::<char>::empty());
        }
    }
}

/// One line per tag, in the order of the keys.
pub open spec fn tag_lines(indent: Seq<char>, tags: Seq<(Seq<char>, String)>) -> Seq<char>
    decreases tags.len(),
{
    if tags.len() == 0 {
        Seq::empty()
    } else {
        tag_lines(indent, tags.drop_last()) + (indent + tags.last().0 + ": "@ + tags.last().1@
            + "\n"@)
    }
}

/// A heading and the tags below it, where there are any.
pub open spec fn tag_block(
    heading: Seq<char>,
    indent: Seq<char>,
    tags: Seq<(Seq<char>, String)>,
) -> Seq<char> {
    if tags.len() == 0 {
        Seq::empty()
    } else {
        line(heading, Seq::empty()) + tag_lines(indent, tags)
    }
}

fn push_tag_block(out: &mut String, heading: &str, indent: &str, tags: &SortedMap<String>)
    ensures
        final(out)@ == old(out)@ + tag_block(heading@, indent@, tags.sorted()),
{
    if tags.is_empty() {
        proof {
            assert(out@ =~= old(out)@ + Seq::<char>::empty());
        }
        return;
    }
    push_line(out, heading, "");
    let ghost base = out@;
    proof {
        reveal_strlit("");
        assert(""@ =~= Seq::<char>::empty());
    }
    let mut i: usize = 0;
    proof {
        assert(tags.sorted().take(0) =~= Seq::empty());
        assert(base =~= base + tag_lines(indent@, tags.sorted().take(0)));
    }
    while i < tags.len()
        invariant
            i <= tags.sorted().len(),
            out@ == base + tag_lines(indent@, tags.sorted().take(i as int)),
        decreases tags.sorted().len() - i,
    {
        out.append(indent);
        out.append(tags.key(i));
        out.append(": ");
        out.append(tags.value(i).as_str());
        out.append("\n");
        i = i + 1;
        proof {
            assert(tags.sorted().take(i as int).drop_last() =~= tags.sorted().take(i - 1));
            assert(out@ =~= base + tag_lines(indent@, tags.sorted().take(i as int)));
        }
    }
    proof {
        assert(tags.sorted().take(i as int) =~= tags.sorted());
        assert(out@ =~= old(out)@ + tag_block(heading@, indent@, tags.sorted()));
    }
}

/// The part of the report on the file as a whole.
pub open spec fn format_report(f: FormatInfo, texts: ReportTexts) -> Seq<char> {
    line("Input: "@, f.filename@) + line(
        "  Format:     "@,
        f.format_name@ + " ("@ + f.format_long_name@ + ")"@,
    ) + duration_line("  Duration:   "@, texts.duration) + rate_line(
        "  Bitrate:    "@,
        f.bit_rate@,
    ) + size_line(f.size@, texts.size_number@) + line("  Streams:    "@, dec(f.nb_streams as int))
        + tag_block("  Metadata:"@, "    "@, f.tags.sorted()) + "\n"@
}

fn push_format(out: &mut String, f: &FormatInfo, texts: &ReportTexts)
    ensures
        final(out)@ == old(out)@ + format_report(*f, *texts),
{
    push_line(out, "Input: ", f.filename.as_str());
    let mut name = f.format_name.clone();
    name.append(" (");
    name.append(f.format_long_name.as_str());
    name.append(")");
    push_line(out, "  Format:     ", name.as_str());
    push_duration_line(out, "  Duration:   ", texts.duration);
    push_rate_line(out, "  Bitrate:    ", f.bit_rate.as_str());
    push_size_line(out, f.size.as_str(), texts.size_number.as_str());
    push_line(out, "  Streams:    ", dec_i64(f.nb_streams as i64).as_str());
    push_tag_block(out, "  Metadata:", "    ", &f.tags);
    out.append("\n");
    proof {
        assert(out@ =~= old(out)@ + format_report(*f, *texts));
    }
}

pub open spec fn video_report(v: VideoFields) -> Seq<char> {
    line("    Resolution:    "@, dec(v.width as int) + "x"@ + dec(v.height as int)) + line(
        "    Pixel format:  "@,
        v.pixel_format@ + " ("@ + dec(v.bit_depth as int) + "-bit)"@,
    ) + line_if("    Aspect ratio:  "@, opt_text(v.display_aspect_ratio)) + line_if(
        "    Color space:   "@,
        opt_text(v.color_space),
    ) + line_if("    Color range:   "@, opt_text(v.color_range)) + line_if(
        "    Color prims:   "@,
        opt_text(v.color_primaries),
    ) + line_if("    Color TRC:     "@, opt_text(v.color_transfer))
}

fn push_video(out: &mut String, v: &VideoFields)
    ensures
        final(out)@ == old(out)@ + video_report(*v),
{
    let mut size = dec_i64(v.width as i64);
    size.append("x");
    size.append(dec_i64(v.height as i64).as_str());
    push_line(out, "    Resolution:    ", size.as_str());
    let mut format = v.pixel_format.clone();
    format.append(" (");
    format.append(dec_i64(v.bit_depth as i64).as_str());
    format.append("-bit)");
    push_line(out, "    Pixel format:  ", format.as_str());
    push_line_if(out, "    Aspect ratio:  ", &v.display_aspect_ratio);
    push_line_if(out, "    Color space:   ", &v.color_space);
    push_line_if(out, "    Color range:   ", &v.color_range);
    push_line_if(out, "    Color prims:   ", &v.color_primaries);
    push_line_if(out, "    Color TRC:     ", &v.color_transfer);
    proof {
        assert(out@ =~= old(out)@ + video_report(*v));
    }
}

/// The channel layout in brackets, where there is one.
pub open spec fn layout_suffix(layout: Option<Seq<char>>) -> Seq<char> {
    match layout {
        Some(l) => " ("@ + l + ")"@,
        None => Seq::empty(),
    }
}

pub open spec fn audio_report(a: AudioFields) -> Seq<char> {
    line("    Sample rate:   "@, a.sample_rate@ + " Hz"@) + line(
        "    Channels:      "@,
        dec(a.channels as int) + layout_suffix(opt_text(a.channel_layout)),
    ) + line("    Sample format: "@, a.sample_format@) + line_if(
        "    Bit depth:     "@,
        if a.bits_per_sample > 0 {
            Some(dec(a.bits_per_sample as int))
        } else {
            None
        },
    )
}

fn push_audio(out: &mut String, a: &AudioFields)
    ensures
        final(out)@ == old(out)@ + audio_report(*a),
{
    let mut rate = a.sample_rate.clone();
    rate.append(" Hz");
    push_line(out, "    Sample rate:   ", rate.as_str());
    let mut channels = dec_i64(a.channels as i64);
    match &a.channel_layout {
        Some(l) => {
            channels.append(" (");
            channels.append(l.as_str());
            channels.append(")");
        },
        None => {},
    }
    proof {
        assert(channels@ =~= dec(a.channels as int) + layout_suffix(opt_text(a.channel_layout)));
    }
    push_line(out, "    Channels:      ", channels.as_str());
    push_line(out, "    Sample format: ", a.sample_format.as_str());
    if a.bits_per_sample > 0 {
        push_line(out, "    Bit depth:     ", dec_i64(a.bits_per_sample as i64).as_str());
    }
    proof {
        assert(out@ =~= old(out)@ + audio_report(*a));
    }
}

/// The first line on a stream.
pub open spec fn stream_heading(s: StreamInfo) -> Seq<char> {
    "  Stream #"@ + dec(s.index as int) + " ("@ + s.codec_type@ + "): "@ + s.codec_name@ + " - "@
        + s.codec_long_name@ + layout_suffix(opt_text(s.profile)) + "\n"@
}

fn heading(s: &StreamInfo) -> (r: String)
    ensures
        r@ == stream_heading(*s),
{
    let mut out = "  Stream #".to_owned();
    out.append(dec_i64(s.index as i64).as_str());
    out.append(" (");
    out.append(s.codec_type.as_str());
    out.append("): ");
    out.append(s.codec_name.as_str());
    out.append(" - ");
    out.append(s.codec_long_name.as_str());
    let mut profile = String::new();
    match &s.profile {
        Some(p) => {
            profile.append(" (");
            profile.append(p.as_str());
            profile.append(")");
            proof {
                assert(profile@ =~= " ("@ + p@ + ")"@);
            }
        },
        None => {},
    }
    out.append(profile.as_str());
    out.append("\n");
    out
}

/// The lines on what a stream carries.
pub open spec fn stream_fields(s: StreamInfo) -> Seq<char> {
    (match s.video {
        Some(v) => video_report(v),
        None => Seq::empty(),
    }) + (match s.audio {
        Some(a) => audio_report(a),
        None => Seq::empty(),
    })
}

fn push_fields(out: &mut String, s: &StreamInfo)
    ensures
        final(out)@ == old(out)@ + stream_fields(*s),
{
    match &s.video {
        Some(v) => push_video(out, v),
        None => {},
    }
    match &s.audio {
        Some(a) => push_audio(out, a),
        None => {},
    }
    proof {
        assert(out@ =~= old(out)@ + stream_fields(*s));
    }
}

/// The lines on the rate and the duration of a stream.
pub open spec fn stream_numbers(s: StreamInfo, d: Option<DurationParts>) -> Seq<char> {
    (match s.bit_rate {
        Some(b) => rate_line("    Bitrate:       "@, b@),
        None => Seq::empty(),
    }) + (if s.duration is Some {
        duration_line("    Duration:      "@, d)
    } else {
        Seq::empty()
    })
}

fn push_numbers(out: &mut String, s: &StreamInfo, d: Option<DurationParts>)
    ensures
        final(out)@ == old(out)@ + stream_numbers(*s, d),
{
    match &s.bit_rate {
        Some(b) => push_rate_line(out, "    Bitrate:       ", b.as_str()),
        None => {},
    }
    if s.duration.is_some() {
        push_duration_line(out, "    Duration:      ", d);
    }
    proof {
        assert(out@ =~= old(out)@ + stream_numbers(*s, d));
    }
}

/// The part of the report on one stream; `d` is its duration, where that is positive.
pub open spec fn stream_report(s: StreamInfo, d: Option<DurationParts>) -> Seq<char> {
    stream_heading(s) + stream_fields(s) + stream_numbers(s, d) + tag_block(
        "    Tags:"@,
        "      "@,
        s.tags.sorted(),
    )
}

fn push_stream(out: &mut String, s: &StreamInfo, d: Option<DurationParts>)
    ensures
        final(out)@ == old(out)@ + stream_report(*s, d),
{
    out.append(heading(s).as_str());
    push_fields(out, s);
    push_numbers(out, s, d);
    push_tag_block(out, "    Tags:", "      ", &s.tags);
    proof {
        assert(out@ =~= old(out)@ + stream_report(*s, d));
    }
}

/// The duration that the texts give for stream `i`.
pub open spec fn duration_at(durations: Seq<Option<DurationParts>>, i: int) -> Option<
    DurationParts,
> {
    if 0 <= i < durations.len() {
        durations[i]
    } else {
        None
    }
}

/// The reports on the first `n` streams.
pub open spec fn streams_report(
    streams: Seq<StreamInfo>,
    durations: Seq<Option<DurationParts>>,
    n: nat,
) -> Seq<char>
    decreases n,
{
    if n == 0 {
        Seq::empty()
    } else {
        streams_report(streams, durations, (n - 1) as nat) + stream_report(
            streams[n - 1],
            duration_at(durations, n - 1),
        )
    }
}

/// The title of a chapter.
pub open spec fn chapter_title(c: ChapterInfo) -> Seq<char> {
    if c.tags@.dom().contains("title"@) {
        c.tags@["title"@]@
    } else {
        "(no title)"@
    }
}

pub open spec fn chapter_report(c: ChapterInfo) -> Seq<char> {
    "    #"@ + dec(c.id as int) + ": "@ + c.start_time@ + " → "@ + c.end_time@ + " ["@
        + chapter_title(c) + "]\n"@
}

fn chapter_line(c: &ChapterInfo) -> (r: String)
    requires
        c.tags.wf(),
    ensures
        r@ == chapter_report(*c),
{
    let mut out = "    #".to_owned();
    out.append(dec_i64(c.id).as_str());
    out.append(": ");
    out.append(c.start_time.as_str());
    out.append(" → ");
    out.append(c.end_time.as_str());
    out.append(" [");
    match c.tags.get("title") {
        Some(t) => out.append(t.as_str()),
        None => out.append("(no title)"),
    }
    out.append("]\n");
    out
}

/// The lines of the first `n` chapters.
pub open spec fn chapters_report(chapters: Seq<ChapterInfo>, n: nat) -> Seq<char>
    decreases n,
{
    if n == 0 {
        Seq::empty()
    } else {
        chapters_report(chapters, (n - 1) as nat) + chapter_report(chapters[n - 1])
    }
}

/// The whole report.
pub open spec fn media_report(info: MediaInfo, texts: ReportTexts) -> Seq<char> {
    format_report(info.format, texts) + streams_report(
        info.streams@,
        texts.stream_durations@,
        info.streams@.len(),
    ) + (if info.chapters@.len() == 0 {
        Seq::empty()
    } else {
        "\n  Chapters:\n"@ + chapters_report(info.chapters@, info.chapters@.len())
    })
}

/// The report of a probed file: what is printed for it.
pub fn print_info(info: &MediaInfo, texts: &ReportTexts) -> (r: String)
    requires
        forall|i: int|
            0 <= i < info.chapters@.len() ==> (#[trigger] info.chapters@[i]).tags.wf(),
    ensures
        r@ == media_report(*info, *texts),
{
    let mut out = String::new();
    push_format(&mut out, &info.format, texts);
    let ghost head = out@;
    proof {
        assert(head =~= format_report(info.format, *texts));
        assert(head =~= head + Seq::<char>::empty());
    }
    let mut i: usize = 0;
    while i < info.streams.len()
        invariant
            i <= info.streams@.len(),
            out@ == head + streams_report(info.streams@, texts.stream_durations@, i as nat),
        decreases info.streams@.len() - i,
    {
        let d = if i < texts.stream_durations.len() {
            texts.stream_durations[i]
        } else {
            None
        };
        push_stream(&mut out, &info.streams[i], d);
        i = i + 1;
        proof {
            assert(out@ =~= head + streams_report(
                info.streams@,
                texts.stream_durations@,
                i as nat,
            ));
        }
    }
    if info.chapters.len() > 0 {
        let ghost before = out@;
        out.append("\n  Chapters:\n");
        let ghost base = out@;
        proof {
            assert(base =~= base + Seq::<char>::empty());
        }
        let mut k: usize = 0;
        while k < info.chapters.len()
            invariant
                k <= info.chapters@.len(),
                forall|i: int|
                    0 <= i < info.chapters@.len() ==> (#[trigger] info.chapters@[i]).tags.wf(),
                out@ == base + chapters_report(info.chapters@, k as nat),
            decreases info.chapters@.len() - k,
        {
            proof {
                assert(info.chapters@[k as int].tags.wf());
            }
            out.append(chapter_line(&info.chapters[k]).as_str());
            k = k + 1;
            proof {
                assert(out@ =~= base + chapters_report(info.chapters@, k as nat));
            }
        }
        proof {
            assert(out@ =~= media_report(*info, *texts));
        }
    } else {
        proof {
            assert(out@ =~= media_report(*info, *texts));
        }
    }
    out
}

/// The report shows the bit rate that was probed: in whole kilobits where it is positive, and not
/// at all otherwise.
pub proof fn law_report_shows_the_probed_rate(label: Seq<char>, bit_rate: i64)
    ensures
        rate_line(label, dec(bit_rate as int)) == (if bit_rate > 0 {
            line(label, dec(bit_rate as int / 1000) + " kb/s"@)
        } else {
            Seq::empty()
        }),
{
    law_written_number_is_read_back(bit_rate as int, i64::MIN as int, i64::MAX as int);
}

/// A size that was probed is reported in gigabytes from 2^30 bytes on, in megabytes below, and not
/// at all where there are no bytes.
pub proof fn law_size_is_reported_in_its_unit(n: u64, number: Seq<char>)
    ensures
        n >= 1_073_741_824 ==> size_line(dec(n as int), number) == "  Size:       "@ + (number
            + " GB"@) + "\n"@,
        0 < n < 1_073_741_824 ==> size_line(dec(n as int), number) == "  Size:       "@ + (number
            + " MB"@) + "\n"@,
        n == 0 ==> size_line(dec(n as int), number).len() == 0,
{
    law_written_number_is_read_back(n as int, 0, u64::MAX as int);
}

/// The report on a file shows its name, its format, its duration and rate where it has them, and
/// the number of its streams, each on a line of its own.
pub proof fn law_file_is_reported(f: FormatInfo, texts: ReportTexts)
    ensures
        contains_text(format_report(f, texts), "Input: "@ + f.filename@ + "\n"@),
        contains_text(
            format_report(f, texts),
            "  Format:     "@ + (f.format_name@ + " ("@ + f.format_long_name@ + ")"@) + "\n"@,
        ),
        texts.duration is Some ==> contains_text(
            format_report(f, texts),
            "  Duration:   "@ + duration_text(texts.duration) + "\n"@,
        ),
        contains_text(format_report(f, texts), rate_line("  Bitrate:    "@, f.bit_rate@)),
        contains_text(format_report(f, texts), size_line(f.size@, texts.size_number@)),
        contains_text(
            format_report(f, texts),
            "  Streams:    "@ + dec(f.nb_streams as int) + "\n"@,
        ),
        contains_text(
            format_report(f, texts),
            tag_block("  Metadata:"@, "    "@, f.tags.sorted()),
        ),
{
    let l1 = line("Input: "@, f.filename@);
    let l2 = line("  Format:     "@, f.format_name@ + " ("@ + f.format_long_name@ + ")"@);
    let l3 = duration_line("  Duration:   "@, texts.duration);
    let l4 = rate_line("  Bitrate:    "@, f.bit_rate@);
    let l5 = size_line(f.size@, texts.size_number@);
    let l6 = line("  Streams:    "@, dec(f.nb_streams as int));
    let l7 = tag_block("  Metadata:"@, "    "@, f.tags.sorted());
    lemma_eight_parts(l1, l2, l3, l4, l5, l6, l7, "\n"@);
}

proof fn lemma_eight_parts(
    a: Seq<char>,
    b: Seq<char>,
    c: Seq<char>,
    d: Seq<char>,
    e: Seq<char>,
    f: Seq<char>,
    g: Seq<char>,
    h: Seq<char>,
)
    ensures
        contains_text(a + b + c + d + e + f + g + h, a),
        contains_text(a + b + c + d + e + f + g + h, b),
        contains_text(a + b + c + d + e + f + g + h, c),
        contains_text(a + b + c + d + e + f + g + h, d),
        contains_text(a + b + c + d + e + f + g + h, e),
        contains_text(a + b + c + d + e + f + g + h, f),
        contains_text(a + b + c + d + e + f + g + h, g),
{
    let p2 = a + b;
    let p3 = p2 + c;
    let p4 = p3 + d;
    let p5 = p4 + e;
    let p6 = p5 + f;
    let p7 = p6 + g;
    let whole = p7 + h;
    lemma_contains_head(p7, h);
    lemma_contains_head(p6, g);
    lemma_contains_through(whole, p7, p6);
    lemma_contains_head(p5, f);
    lemma_contains_through(whole, p6, p5);
    lemma_contains_head(p4, e);
    lemma_contains_through(whole, p5, p4);
    lemma_contains_head(p3, d);
    lemma_contains_through(whole, p4, p3);
    lemma_contains_head(p2, c);
    lemma_contains_through(whole, p3, p2);
    lemma_contains_head(a, b);
    lemma_contains_through(whole, p2, a);
    lemma_contains_tail(a, b);
    lemma_contains_through(whole, p2, b);
    lemma_contains_tail(p2, c);
    lemma_contains_through(whole, p3, c);
    lemma_contains_tail(p3, d);
    lemma_contains_through(whole, p4, d);
    lemma_contains_tail(p4, e);
    lemma_contains_through(whole, p5, e);
    lemma_contains_tail(p5, f);
    lemma_contains_through(whole, p6, f);
    lemma_contains_tail(p6, g);
    lemma_contains_through(whole, p7, g);
}

/// The report on a video stream shows its size, its pixel format with the bit depth, and the aspect
/// ratio and the colours that are known.
pub proof fn law_video_is_reported(v: VideoFields)
    ensures
        contains_text(
            video_report(v),
            "    Resolution:    "@ + (dec(v.width as int) + "x"@ + dec(v.height as int)) + "\n"@,
        ),
        contains_text(
            video_report(v),
            "    Pixel format:  "@ + (v.pixel_format@ + " ("@ + dec(v.bit_depth as int) + "-bit)"@)
                + "\n"@,
        ),
        v.display_aspect_ratio matches Some(t) ==> contains_text(
            video_report(v),
            "    Aspect ratio:  "@ + t@ + "\n"@,
        ),
        v.color_space matches Some(t) ==> contains_text(
            video_report(v),
            "    Color space:   "@ + t@ + "\n"@,
        ),
        v.color_range matches Some(t) ==> contains_text(
            video_report(v),
            "    Color range:   "@ + t@ + "\n"@,
        ),
        v.color_primaries matches Some(t) ==> contains_text(
            video_report(v),
            "    Color prims:   "@ + t@ + "\n"@,
        ),
        v.color_transfer matches Some(t) ==> contains_text(
            video_report(v),
            "    Color TRC:     "@ + t@ + "\n"@,
        ),
{
    let l1 = line("    Resolution:    "@, dec(v.width as int) + "x"@ + dec(v.height as int));
    let l2 = line(
        "    Pixel format:  "@,
        v.pixel_format@ + " ("@ + dec(v.bit_depth as int) + "-bit)"@,
    );
    let l3 = line_if("    Aspect ratio:  "@, opt_text(v.display_aspect_ratio));
    let l4 = line_if("    Color space:   "@, opt_text(v.color_space));
    let l5 = line_if("    Color range:   "@, opt_text(v.color_range));
    let l6 = line_if("    Color prims:   "@, opt_text(v.color_primaries));
    let l7 = line_if("    Color TRC:     "@, opt_text(v.color_transfer));
    let e = Seq::<char>::empty();
    lemma_eight_parts(l1, l2, l3, l4, l5, l6, l7, e);
    assert(video_report(v) + e =~= video_report(v));
}

/// The report on an audio stream shows its rate, its channels with their layout where it is known,
/// its sample format, and its bit depth where that is known.
pub proof fn law_audio_is_reported(a: AudioFields)
    ensures
        contains_text(
            audio_report(a),
            "    Sample rate:   "@ + (a.sample_rate@ + " Hz"@) + "\n"@,
        ),
        a.channel_layout matches Some(l) ==> contains_text(
            audio_report(a),
            "    Channels:      "@ + (dec(a.channels as int) + (" ("@ + l@ + ")"@)) + "\n"@,
        ),
        a.channel_layout is None ==> contains_text(
            audio_report(a),
            "    Channels:      "@ + dec(a.channels as int) + "\n"@,
        ),
        contains_text(audio_report(a), "    Sample format: "@ + a.sample_format@ + "\n"@),
        a.bits_per_sample > 0 ==> contains_text(
            audio_report(a),
            "    Bit depth:     "@ + dec(a.bits_per_sample as int) + "\n"@,
        ),
{
    let e = Seq::<char>::empty();
    let l1 = line("    Sample rate:   "@, a.sample_rate@ + " Hz"@);
    let l2 = line(
        "    Channels:      "@,
        dec(a.channels as int) + layout_suffix(opt_text(a.channel_layout)),
    );
    let l3 = line("    Sample format: "@, a.sample_format@);
    let l4 = line_if(
        "    Bit depth:     "@,
        if a.bits_per_sample > 0 {
            Some(dec(a.bits_per_sample as int))
        } else {
            None
        },
    );
    lemma_eight_parts(l1, l2, l3, l4, e, e, e, e);
    assert(audio_report(a) + e =~= audio_report(a));
    assert(dec(a.channels as int) + e =~= dec(a.channels as int));
}

/// The heading of a stream tells its number, its kind, its codec, and its profile where it has one.
pub proof fn law_heading_names_the_stream(s: StreamInfo)
    ensures
        s.profile is None ==> stream_heading(s) == "  Stream #"@ + dec(s.index as int) + " ("@
            + s.codec_type@ + "): "@ + s.codec_name@ + " - "@ + s.codec_long_name@ + "\n"@,
        s.profile matches Some(p) ==> stream_heading(s) == "  Stream #"@ + dec(s.index as int)
            + " ("@ + s.codec_type@ + "): "@ + s.codec_name@ + " - "@ + s.codec_long_name@ + (" ("@
            + p@ + ")"@) + "\n"@,
{
    let head = "  Stream #"@ + dec(s.index as int) + " ("@ + s.codec_type@ + "): "@ + s.codec_name@
        + " - "@ + s.codec_long_name@;
    assert(head + Seq::<char>::empty() =~= head);
}

/// The report on a stream shows its heading, its fields, its rate and duration where it has them,
/// and its tags.
pub proof fn law_stream_is_reported(s: StreamInfo, d: Option<DurationParts>)
    ensures
        contains_text(stream_report(s, d), stream_heading(s)),
        s.video matches Some(v) ==> contains_text(stream_report(s, d), video_report(v)),
        s.audio matches Some(a) ==> contains_text(stream_report(s, d), audio_report(a)),
        s.bit_rate matches Some(b) ==> contains_text(
            stream_report(s, d),
            rate_line("    Bitrate:       "@, b@),
        ),
        s.duration is Some && d is Some ==> contains_text(
            stream_report(s, d),
            "    Duration:      "@ + duration_text(d) + "\n"@,
        ),
        contains_text(stream_report(s, d), tag_block("    Tags:"@, "      "@, s.tags.sorted())),
{
    let e = Seq::<char>::empty();
    let whole = stream_report(s, d);
    let tags = tag_block("    Tags:"@, "      "@, s.tags.sorted());
    lemma_eight_parts(stream_heading(s), stream_fields(s), stream_numbers(s, d), tags, e, e, e, e);
    assert(whole + e =~= whole);
    let video = match s.video {
        Some(v) => video_report(v),
        None => e,
    };
    let audio = match s.audio {
        Some(a) => audio_report(a),
        None => e,
    };
    lemma_contains_head(video, audio);
    lemma_contains_tail(video, audio);
    lemma_contains_through(whole, stream_fields(s), video);
    lemma_contains_through(whole, stream_fields(s), audio);
    let rate = match s.bit_rate {
        Some(b) => rate_line("    Bitrate:       "@, b@),
        None => e,
    };
    let duration = if s.duration is Some {
        duration_line("    Duration:      "@, d)
    } else {
        e
    };
    lemma_contains_head(rate, duration);
    lemma_contains_tail(rate, duration);
    lemma_contains_through(whole, stream_numbers(s, d), rate);
    lemma_contains_through(whole, stream_numbers(s, d), duration);
}

proof fn lemma_streams_are_reported(
    streams: Seq<StreamInfo>,
    durations: Seq<Option<DurationParts>>,
    n: nat,
    i: int,
)
    requires
        0 <= i < n,
    ensures
        contains_text(
            streams_report(streams, durations, n),
            stream_report(streams[i], duration_at(durations, i)),
        ),
    decreases n,
{
    let before = streams_report(streams, durations, (n - 1) as nat);
    let last = stream_report(streams[n - 1], duration_at(durations, n - 1));
    if i < n - 1 {
        lemma_streams_are_reported(streams, durations, (n - 1) as nat, i);
        lemma_contains_head(before, last);
        lemma_contains_through(
            before + last,
            before,
            stream_report(streams[i], duration_at(durations, i)),
        );
    } else {
        lemma_contains_tail(before, last);
    }
}

proof fn lemma_chapters_are_reported(chapters: Seq<ChapterInfo>, n: nat, i: int)
    requires
        0 <= i < n,
    ensures
        contains_text(chapters_report(chapters, n), chapter_report(chapters[i])),
    decreases n,
{
    let before = chapters_report(chapters, (n - 1) as nat);
    let last = chapter_report(chapters[n - 1]);
    if i < n - 1 {
        lemma_chapters_are_reported(chapters, (n - 1) as nat, i);
        lemma_contains_head(before, last);
        lemma_contains_through(before + last, before, chapter_report(chapters[i]));
    } else {
        lemma_contains_tail(before, last);
    }
}

/// The report shows the file, every stream and every chapter; a file without chapters has no list
/// of them.
pub proof fn law_everything_is_reported(info: MediaInfo, texts: ReportTexts, i: int, k: int)
    ensures
        contains_text(media_report(info, texts), format_report(info.format, texts)),
        0 <= i < info.streams@.len() && i < texts.stream_durations@.len() ==> contains_text(
            media_report(info, texts),
            stream_report(info.streams@[i], texts.stream_durations@[i]),
        ),
        0 <= i < info.streams@.len() && i >= texts.stream_durations@.len() ==> contains_text(
            media_report(info, texts),
            stream_report(info.streams@[i], None),
        ),
        info.chapters@.len() > 0 ==> contains_text(
            media_report(info, texts),
            "\n  Chapters:\n"@,
        ),
        0 <= k < info.chapters@.len() ==> contains_text(
            media_report(info, texts),
            chapter_report(info.chapters@[k]),
        ),
        info.streams@.len() == 0 && info.chapters@.len() == 0 ==> media_report(info, texts)
            == format_report(info.format, texts),
{
    let e = Seq::<char>::empty();
    let whole = media_report(info, texts);
    let a = format_report(info.format, texts);
    let b = streams_report(info.streams@, texts.stream_durations@, info.streams@.len());
    let lines = chapters_report(info.chapters@, info.chapters@.len());
    let c = if info.chapters@.len() == 0 {
        e
    } else {
        "\n  Chapters:\n"@ + lines
    };
    lemma_eight_parts(a, b, c, e, e, e, e, e);
    assert(whole + e =~= whole);
    if 0 <= i < info.streams@.len() {
        lemma_streams_are_reported(
            info.streams@,
            texts.stream_durations@,
            info.streams@.len(),
            i,
        );
        lemma_contains_through(
            whole,
            b,
            stream_report(info.streams@[i], duration_at(texts.stream_durations@, i)),
        );
    }
    if info.chapters@.len() > 0 {
        lemma_contains_head("\n  Chapters:\n"@, lines);
        lemma_contains_through(whole, c, "\n  Chapters:\n"@);
    }
    if 0 <= k < info.chapters@.len() {
        lemma_chapters_are_reported(info.chapters@, info.chapters@.len(), k);
        lemma_contains_tail("\n  Chapters:\n"@, lines);
        lemma_contains_through(whole, c, lines);
        lemma_contains_through(whole, lines, chapter_report(info.chapters@[k]));
    }
    if info.streams@.len() == 0 && info.chapters@.len() == 0 {
        assert(whole =~= a);
    }
}

/// The line of a chapter tells its number, when it starts and ends, and its title where it has one.
pub proof fn law_chapter_is_reported(c: ChapterInfo)
    ensures
        c.tags@.dom().contains("title"@) ==> chapter_report(c) == "    #"@ + dec(c.id as int)
            + ": "@ + c.start_time@ + " \u{2192} "@ + c.end_time@ + " ["@ + c.tags@["title"@]@
            + "]\n"@,
        !c.tags@.dom().contains("title"@) ==> chapter_report(c) == "    #"@ + dec(c.id as int)
            + ": "@ + c.start_time@ + " \u{2192} "@ + c.end_time@ + " ["@ + "(no title)"@ + "]\n"@,
{
}

/// Each tag has a line of its own, in order, and a list of tags has a heading only where it has
/// tags.
pub proof fn law_tags_are_reported(
    heading: Seq<char>,
    indent: Seq<char>,
    tags: Seq<(Seq<char>, String)>,
    key: Seq<char>,
    value: String,
)
    ensures
        tag_block(heading, indent, Seq::empty()).len() == 0,
        tag_lines(indent, tags.push((key, value))) == tag_lines(indent, tags) + (indent + key
            + ": "@ + value@ + "\n"@),
        tags.len() > 0 ==> contains_text(tag_block(heading, indent, tags), heading + "\n"@)
            && contains_text(tag_block(heading, indent, tags), tag_lines(indent, tags)),
{
    assert(tags.push((key, value)).drop_last() =~= tags);
    if tags.len() > 0 {
        let head = line(heading, Seq::empty());
        assert(head =~= heading + "\n"@);
        lemma_contains_head(head, tag_lines(indent, tags));
        lemma_contains_tail(head, tag_lines(indent, tags));
    }
}

/// A size is told in gigabytes exactly from 2^30 bytes on.
pub proof fn law_gigabytes_start_at_their_size(size: u64, r: bool)
    requires
        call_ensures(size_in_gigabytes, (size,), r),
    ensures
        r <==> size >= 1_073_741_824,
{
}

} // verus!
