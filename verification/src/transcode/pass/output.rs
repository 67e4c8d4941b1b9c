//! The settings of the output container.

use crate::transcode::types::{HlsOptions, HlsSegmentType, TranscodeOptions};
use vstd::prelude::*;

verus! {

/// The settings of the output.
#[derive(Debug)]
pub struct OutputPlan {
    /// How long the muxer may hold packets back, in microseconds.
    pub max_delay: i32,
    /// The options of the muxer, as key and value, in the order in which they are set.
    pub mux_options: Vec<(String, String)>,
    /// What is added to all timestamps, in microseconds.
    pub output_ts_offset: Option<i64>,
}

/// The keys and values of a list of options.
pub open spec fn option_texts(options: Seq<(String, String)>) -> Seq<(Seq<char>, Seq<char>)> {
    options.map_values(|o: (String, String)| (o.0@, o.1@))
}

/// The options of HLS output.
pub open spec fn hls_option_texts(hls: HlsOptions) -> Seq<(Seq<char>, Seq<char>)> {
    let common = seq![
        ("hls_time"@, hls.segment_duration@),
        ("hls_list_size"@, "0"@),
        ("hls_playlist_type"@, hls.playlist_type@),
        ("hls_segment_filename"@, hls.segment_pattern@),
        ("start_number"@, hls.start_number@),
    ];
    common + match hls.segment_type {
        HlsSegmentType::Fmp4 => seq![
            ("hls_segment_type"@, "fmp4"@),
            ("hls_fmp4_init_filename"@, hls.init_filename@),
            ("hls_segment_options"@, "movflags=+frag_discont"@),
        ],
        HlsSegmentType::Mpegts => seq![("hls_segment_type"@, "mpegts"@)],
    }
}

/// The options of the muxer: the queue is longer for HLS, whose own options follow.
pub open spec fn mux_option_texts(hls: Option<HlsOptions>) -> Seq<(Seq<char>, Seq<char>)> {
    match hls {
        Some(h) => seq![("max_muxing_queue_size"@, "2048"@)] + hls_option_texts(h),
        None => seq![("max_muxing_queue_size"@, "128"@)],
    }
}

fn push_option(options: &mut Vec<(String, String)>, key: &str, value: &str)
    ensures
        option_texts(final(options)@) == option_texts(old(options)@).push((key@, value@)),
{
    options.push((key.to_owned(), value.to_owned()));
    proof {
        assert(option_texts(options@) =~= option_texts(old(options)@).push((key@, value@)));
    }
}

/// The settings of the output. An input that starts behind zero is moved back to zero, so that the
/// output starts near zero or near the position that was sought.
pub fn configure_output(opts: &TranscodeOptions, format_start_time: i64) -> (r: OutputPlan)
    ensures
        r.max_delay == 5_000_000,
        option_texts(r.mux_options@) == mux_option_texts(opts.hls),
        r.output_ts_offset == (if format_start_time > 0 {
            Some((-format_start_time) as i64)
        } else {
            None
        }),
{
    let mut options: Vec<(String, String)> = Vec::new();
    proof {
        assert(option_texts(options@) =~= Seq::<(Seq<char>, Seq<char>)>::empty());
    }
    match &opts.hls {
        Some(hls) => {
            push_option(&mut options, "max_muxing_queue_size", "2048");
            push_option(&mut options, "hls_time", hls.segment_duration.as_str());
            push_option(&mut options, "hls_list_size", "0");
            push_option(&mut options, "hls_playlist_type", hls.playlist_type.as_str());
            push_option(&mut options, "hls_segment_filename", hls.segment_pattern.as_str());
            push_option(&mut options, "start_number", hls.start_number.as_str());
            match hls.segment_type {
                HlsSegmentType::Fmp4 => {
                    push_option(&mut options, "hls_segment_type", "fmp4");
                    push_option(
                        &mut options,
                        "hls_fmp4_init_filename",
                        hls.init_filename.as_str(),
                    );
                    push_option(&mut options, "hls_segment_options", "movflags=+frag_discont");
                },
                HlsSegmentType::Mpegts => {
                    push_option(&mut options, "hls_segment_type", "mpegts");
                },
            }
        },
        None => {
            push_option(&mut options, "max_muxing_queue_size", "128");
        },
    }
    proof {
        assert(option_texts(options@) =~= mux_option_texts(opts.hls));
    }
    OutputPlan {
        max_delay: 5_000_000,
        mux_options: options,
        output_ts_offset: if format_start_time > 0 {
            Some(-format_start_time)
        } else {
            None
        },
    }
}

/// The options that were given for HLS reach the muxer, each under its key, and the segments are of
/// the asked kind.
pub proof fn law_hls_options_reach_the_muxer(hls: HlsOptions)
    ensures
        ({
            let t = mux_option_texts(Some(hls));
            &&& t.contains(("max_muxing_queue_size"@, "2048"@))
            &&& t.contains(("hls_time"@, hls.segment_duration@))
            &&& t.contains(("hls_list_size"@, "0"@))
            &&& t.contains(("hls_playlist_type"@, hls.playlist_type@))
            &&& t.contains(("hls_segment_filename"@, hls.segment_pattern@))
            &&& t.contains(("start_number"@, hls.start_number@))
            &&& hls.segment_type == HlsSegmentType::Fmp4 ==> t.len() == 9 && t.contains(
                ("hls_segment_type"@, "fmp4"@),
            ) && t.contains(("hls_fmp4_init_filename"@, hls.init_filename@)) && t.contains(
                ("hls_segment_options"@, "movflags=+frag_discont"@),
            )
            &&& hls.segment_type == HlsSegmentType::Mpegts ==> t.len() == 7 && t.contains(
                ("hls_segment_type"@, "mpegts"@),
            )
        }),
        mux_option_texts(None) == seq![("max_muxing_queue_size"@, "128"@)],
{
    let t = mux_option_texts(Some(hls));
    assert(t[0] == ("max_muxing_queue_size"@, "2048"@));
    assert(t[1] == ("hls_time"@, hls.segment_duration@));
    assert(t[2] == ("hls_list_size"@, "0"@));
    assert(t[3] == ("hls_playlist_type"@, hls.playlist_type@));
    assert(t[4] == ("hls_segment_filename"@, hls.segment_pattern@));
    assert(t[5] == ("start_number"@, hls.start_number@));
    match hls.segment_type {
        HlsSegmentType::Fmp4 => {
            assert(t[6] == ("hls_segment_type"@, "fmp4"@));
            assert(t[7] == ("hls_fmp4_init_filename"@, hls.init_filename@));
            assert(t[8] == ("hls_segment_options"@, "movflags=+frag_discont"@));
        },
        HlsSegmentType::Mpegts => {
            assert(t[6] == ("hls_segment_type"@, "mpegts"@));
        },
    }
}

/// The muxer may hold packets back for five seconds, and timestamps are moved back by the start of
/// the input where that is positive.
pub proof fn law_output_starts_at_zero(opts: TranscodeOptions, start: i64, r: OutputPlan)
    requires
        call_ensures(configure_output, (&opts, start), r),
    ensures
        r.max_delay == 5_000_000,
        start > 0 ==> r.output_ts_offset is Some && start + r.output_ts_offset->0 == 0,
        start <= 0 ==> r.output_ts_offset is None,
        option_texts(r.mux_options@) == mux_option_texts(opts.hls),
{
}

} // verus!
