//! The end of a pass: what is flushed, and whether a trailer is written.

use crate::transcode::types::StreamMapping;
use vstd::prelude::*;

verus! {

/// A stream whose decoder, filter and encoder are flushed.
#[derive(Clone, Copy, Debug, PartialEq, Eq, Structural)]
pub struct FlushStream {
    pub in_stream: usize,
    pub out_idx: usize,
}

/// What is done at the end of a pass, before everything is released.
#[derive(Debug)]
pub struct FlushPlan {
    pub streams: Vec<FlushStream>,
    pub write_trailer: bool,
}

/// The stream is flushed: it is encoded, and no thread has taken its decoder.
pub open spec fn is_flushed(mapping: StreamMapping, has_decoder: bool) -> bool {
    has_decoder && (mapping is Video || mapping is Audio)
}

/// The streams among the first `n` that are flushed, in order.
pub open spec fn flushed_streams(
    stream_map: Seq<StreamMapping>,
    has_decoder: Seq<bool>,
    n: nat,
) -> Seq<FlushStream>
    decreases n,
{
    if n == 0 {
        Seq::empty()
    } else {
        let before = flushed_streams(stream_map, has_decoder, (n - 1) as nat);
        if is_flushed(stream_map[n - 1], has_decoder[n - 1]) {
            before.push(
                FlushStream {
                    in_stream: (n - 1) as usize,
                    out_idx: stream_map[n - 1].spec_out_idx()->0,
                },
            )
        } else {
            before
        }
    }
}

/// What is done at the end of a pass. A pass that was cancelled flushes nothing and writes no
/// trailer.
pub fn flush_and_finalize(
    stream_map: &Vec<StreamMapping>,
    has_decoder: &Vec<bool>,
    was_cancelled: bool,
) -> (r: FlushPlan)
    requires
        stream_map@.len() == has_decoder@.len(),
    ensures
        r.write_trailer == !was_cancelled,
        r.streams@ == (if was_cancelled {
            Seq::empty()
        } else {
            flushed_streams(stream_map@, has_decoder@, stream_map@.len())
        }),
{
    let mut streams: Vec<FlushStream> = Vec::new();
    if was_cancelled {
        return FlushPlan { streams, write_trailer: false };
    }
    let mut i: usize = 0;
    while i < stream_map.len()
        invariant
            i <= stream_map@.len(),
            stream_map@.len() == has_decoder@.len(),
            streams@ == flushed_streams(stream_map@, has_decoder@, i as nat),
        decreases stream_map@.len() - i,
    {
        match stream_map[i] {
            StreamMapping::Video { out_idx, .. } => {
                if has_decoder[i] {
                    streams.push(FlushStream { in_stream: i, out_idx });
                }
            },
            StreamMapping::Audio { out_idx } => {
                if has_decoder[i] {
                    streams.push(FlushStream { in_stream: i, out_idx });
                }
            },
            StreamMapping::Copy { .. } | StreamMapping::Ignore => {},
        }
        i = i + 1;
    }
    FlushPlan { streams, write_trailer: true }
}

/// At the end of a pass, an encoded stream whose decoder no thread has taken is flushed to its own
/// output; no other stream is flushed, and none twice.
pub proof fn law_every_inline_stream_is_flushed(
    stream_map: Seq<StreamMapping>,
    has_decoder: Seq<bool>,
    n: nat,
    i: int,
)
    requires
        n <= stream_map.len(),
        stream_map.len() <= usize::MAX,
        0 <= i < n,
    ensures
        forall|o: usize|
            flushed_streams(stream_map, has_decoder, n).contains(
                FlushStream { in_stream: i as usize, out_idx: o },
            ) <==> has_decoder[i] && (stream_map[i] == (StreamMapping::Audio { out_idx: o }) || (
            stream_map[i] matches StreamMapping::Video { out_idx, .. } && out_idx == o)),
        forall|j: int, k: int|
            0 <= j < k < flushed_streams(stream_map, has_decoder, n).len() ==> (
            #[trigger] flushed_streams(stream_map, has_decoder, n)[j]).in_stream < (
            #[trigger] flushed_streams(stream_map, has_decoder, n)[k]).in_stream,
{
    lemma_flushed_below(stream_map, has_decoder, n);
    lemma_flushed(stream_map, has_decoder, n, i);
}

proof fn lemma_flushed_below(stream_map: Seq<StreamMapping>, has_decoder: Seq<bool>, n: nat)
    requires
        n <= stream_map.len(),
        stream_map.len() <= usize::MAX,
    ensures
        forall|j: int|
            0 <= j < flushed_streams(stream_map, has_decoder, n).len() ==> (
            #[trigger] flushed_streams(stream_map, has_decoder, n)[j]).in_stream < n,
        forall|j: int, k: int|
            0 <= j < k < flushed_streams(stream_map, has_decoder, n).len() ==> (
            #[trigger] flushed_streams(stream_map, has_decoder, n)[j]).in_stream < (
            #[trigger] flushed_streams(stream_map, has_decoder, n)[k]).in_stream,
    decreases n,
{
    if n > 0 {
        let m = (n - 1) as nat;
        lemma_flushed_below(stream_map, has_decoder, m);
        let before = flushed_streams(stream_map, has_decoder, m);
        let after = flushed_streams(stream_map, has_decoder, n);
        assert forall|j: int, k: int| 0 <= j < k < after.len() implies (#[trigger] after[j]).in_stream
            < (#[trigger] after[k]).in_stream by {
            assert(before[j] == after[j]);
            if k < before.len() {
                assert(before[k] == after[k]);
            }
        }
        assert forall|j: int| 0 <= j < after.len() implies (#[trigger] after[j]).in_stream < n by {
            if j < before.len() {
                assert(before[j] == after[j]);
            }
        }
    }
}

proof fn lemma_flushed(
    stream_map: Seq<StreamMapping>,
    has_decoder: Seq<bool>,
    n: nat,
    i: int,
)
    requires
        n <= stream_map.len(),
        stream_map.len() <= usize::MAX,
        0 <= i < n,
    ensures
        forall|o: usize|
            flushed_streams(stream_map, has_decoder, n).contains(
                FlushStream { in_stream: i as usize, out_idx: o },
            ) <==> has_decoder[i] && (stream_map[i] == (StreamMapping::Audio { out_idx: o }) || (
            stream_map[i] matches StreamMapping::Video { out_idx, .. } && out_idx == o)),
    decreases n,
{
    let m = (n - 1) as nat;
    let before = flushed_streams(stream_map, has_decoder, m);
    let after = flushed_streams(stream_map, has_decoder, n);
    lemma_flushed_below(stream_map, has_decoder, m);
    assert forall|o: usize|
        after.contains(FlushStream { in_stream: i as usize, out_idx: o }) <==> has_decoder[i] && (
        stream_map[i] == (StreamMapping::Audio { out_idx: o }) || (stream_map[i] matches StreamMapping::Video {
            out_idx,
            ..
        } && out_idx == o)) by {
        let f = FlushStream { in_stream: i as usize, out_idx: o };
        if i < m {
            lemma_flushed(stream_map, has_decoder, m, i);
            assert(before.contains(f) <==> has_decoder[i] && (stream_map[i]
                == (StreamMapping::Audio { out_idx: o }) || (
            stream_map[i] matches StreamMapping::Video { out_idx, .. } && out_idx == o)));
            if before.contains(f) {
                let k = choose|k: int| 0 <= k < before.len() && before[k] == f;
                assert(after[k] == f);
            }
            if after.contains(f) {
                let k = choose|k: int| 0 <= k < after.len() && after[k] == f;
                if k < before.len() {
                    assert(before[k] == f);
                }
            }
        } else {
            if after.len() > before.len() {
                assert(after[before.len() as int].in_stream == i);
                if after[before.len() as int] == f {
                    assert(after.contains(f));
                }
            }
            if after.contains(f) {
                let k = choose|k: int| 0 <= k < after.len() && after[k] == f;
                if k < before.len() {
                    assert(before[k] == after[k]);
                    assert(before[k].in_stream < m);
                }
            }
        }
    }
}

/// A cancelled pass flushes nothing and writes no trailer; any other flushes its streams and ends
/// the file.
pub proof fn law_cancelled_passes_are_left(
    stream_map: Vec<StreamMapping>,
    has_decoder: Vec<bool>,
    cancelled: FlushPlan,
    ended: FlushPlan,
)
    requires
        call_ensures(flush_and_finalize, (&stream_map, &has_decoder, true), cancelled),
        call_ensures(flush_and_finalize, (&stream_map, &has_decoder, false), ended),
    ensures
        !cancelled.write_trailer,
        cancelled.streams@.len() == 0,
        ended.write_trailer,
        ended.streams@ == flushed_streams(stream_map@, has_decoder@, stream_map@.len()),
{
}

} // verus!
