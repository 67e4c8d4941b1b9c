//! Keeps the output streams together: a stream that is too far ahead waits.

use crate::model::{Rational, NO_PTS};
use vstd::prelude::*;

verus! {

/// How far, in microseconds, a stream may be ahead of the slowest other stream.
pub const SCHEDULE_TOLERANCE_US: i64 = 100_000;

/// The last DTS of every output stream, and which streams have ended.
#[derive(Debug)]
pub struct MuxScheduler {
    /// Last DTS written to each output stream, in microseconds.
    stream_dts: Vec<i64>,
    /// Set when a stream has no more packets.
    stream_finished: Vec<bool>,
}

/// A stream as the scheduler sees it.
pub struct StreamState {
    /// Its last DTS, `None` before the first one.
    pub dts: Option<int>,
    pub finished: bool,
}

/// Stream `i` counts when a stream other than it is to be written.
pub open spec fn counts(s: Seq<StreamState>, skip: int, i: int) -> bool {
    0 <= i < s.len() && i != skip && !s[i].finished
}

/// Some other active stream has not reported a DTS, or there is no other active stream.
pub open spec fn nothing_to_wait_for(s: Seq<StreamState>, skip: int) -> bool {
    ||| exists|i: int| #[trigger] counts(s, skip, i) && s[i].dts is None
    ||| forall|i: int| !#[trigger] counts(s, skip, i)
}

/// `dts` is the smallest last DTS of the other active streams.
pub open spec fn is_trailing(s: Seq<StreamState>, skip: int, dts: int) -> bool {
    &&& exists|i: int| #[trigger] counts(s, skip, i) && s[i].dts == Some(dts)
    &&& forall|i: int| #[trigger] counts(s, skip, i) ==> s[i].dts is Some && dts <= s[i].dts->0
}

/// Stream `idx` may write a packet with `dts` now: nothing is to be waited for, or the packet is
/// not more than the tolerance ahead of any other active stream.
pub open spec fn may_write(s: Seq<StreamState>, idx: int, dts: i64) -> bool {
    ||| dts == NO_PTS
    ||| nothing_to_wait_for(s, idx)
    ||| forall|i: int| #[trigger] counts(s, idx, i) ==> dts - s[i].dts->0 <= SCHEDULE_TOLERANCE_US
}

impl View for MuxScheduler {
    type V = Seq<StreamState>;

    closed spec fn view(&self) -> Seq<StreamState> {
        Seq::new(
            self.stream_dts@.len(),
            |i: int|
                StreamState {
                    dts: if self.stream_dts@[i] == NO_PTS {
                        None
                    } else {
                        Some(self.stream_dts@[i] as int)
                    },
                    finished: self.stream_finished@[i],
                },
        )
    }
}

impl MuxScheduler {
    /// Each stream has one DTS and one mark.
    pub closed spec fn wf(&self) -> bool {
        self.stream_dts@.len() == self.stream_finished@.len()
    }

    /// A scheduler whose streams have not reported anything.
    pub fn new(num_output_streams: usize) -> (r: Self)
        ensures
            r.wf(),
            r@.len() == num_output_streams,
            forall|i: int|
                0 <= i < num_output_streams ==> #[trigger] r@[i] == (StreamState {
                    dts: None,
                    finished: false,
                }),
    {
        let mut stream_dts: Vec<i64> = Vec::new();
        let mut stream_finished: Vec<bool> = Vec::new();
        let mut i: usize = 0;
        while i < num_output_streams
            invariant
                i <= num_output_streams,
                stream_dts@.len() == i,
                stream_finished@.len() == i,
                forall|k: int| 0 <= k < i ==> stream_dts@[k] == NO_PTS,
                forall|k: int| 0 <= k < i ==> !stream_finished@[k],
            decreases num_output_streams - i,
        {
            stream_dts.push(NO_PTS);
            stream_finished.push(false);
            i = i + 1;
        }
        MuxScheduler { stream_dts, stream_finished }
    }

    /// Records the last DTS, in microseconds, of a stream; an unknown DTS changes nothing.
    pub fn report_dts(&mut self, out_stream_idx: usize, dts_us: i64)
        requires
            old(self).wf(),
            dts_us != NO_PTS ==> out_stream_idx < old(self)@.len(),
        ensures
            final(self).wf(),
            final(self)@ == (if dts_us == NO_PTS {
                old(self)@
            } else {
                old(self)@.update(
                    out_stream_idx as int,
                    (StreamState {
                        dts: Some(dts_us as int),
                        finished: old(self)@[out_stream_idx as int].finished,
                    }),
                )
            }),
    {
        if dts_us == NO_PTS {
            return;
        }
        self.stream_dts.set(out_stream_idx, dts_us);
        proof {
            assert(self@ =~= old(self)@.update(
                out_stream_idx as int,
                (StreamState {
                    dts: Some(dts_us as int),
                    finished: old(self)@[out_stream_idx as int].finished,
                }),
            ));
        }
    }

    /// Marks a stream as finished: no stream waits for it any more.
    pub fn mark_finished(&mut self, out_stream_idx: usize)
        requires
            old(self).wf(),
            out_stream_idx < old(self)@.len(),
        ensures
            final(self).wf(),
            final(self)@ == old(self)@.update(
                out_stream_idx as int,
                (StreamState { dts: old(self)@[out_stream_idx as int].dts, finished: true }),
            ),
    {
        self.stream_finished.set(out_stream_idx, true);
        proof {
            assert(self@ =~= old(self)@.update(
                out_stream_idx as int,
                (StreamState { dts: old(self)@[out_stream_idx as int].dts, finished: true }),
            ));
        }
    }

    /// The smallest last DTS of the active streams other than `skip_idx`; `None` where one of
    /// them has not reported yet, or where there is no other active stream.
    pub fn trailing_dts(&self, skip_idx: usize) -> (r: Option<i64>)
        requires
            self.wf(),
        ensures
            match r {
                None => nothing_to_wait_for(self@, skip_idx as int),
                Some(d) => is_trailing(self@, skip_idx as int, d as int),
            },
    {
        let mut min: Option<i64> = None;
        let mut i: usize = 0;
        while i < self.stream_dts.len()
            invariant
                self.wf(),
                i <= self.stream_dts@.len(),
                self@.len() == self.stream_dts@.len(),
                match min {
                    None => forall|k: int| #[trigger] counts(self@, skip_idx as int, k) ==> k >= i,
                    Some(d) => {
                        &&& exists|k: int| #[trigger]
                            counts(self@, skip_idx as int, k) && self@[k].dts == Some(d as int)
                        &&& forall|k: int| #[trigger]
                            counts(self@, skip_idx as int, k) && k < i ==> self@[k].dts is Some && d
                                <= self@[k].dts->0
                    },
                },
            decreases self.stream_dts@.len() - i,
        {
            if i != skip_idx && !self.stream_finished[i] {
                let dts: i64 = self.stream_dts[i];
                proof {
                    assert(counts(self@, skip_idx as int, i as int));
                }
                if dts == NO_PTS {
                    return None;
                }
                min = match min {
                    None => Some(dts),
                    Some(d) => if dts < d {
                        Some(dts)
                    } else {
                        Some(d)
                    },
                };
            }
            i = i + 1;
        }
        min
    }

    /// Whether stream `out_stream_idx` may write a packet with `dts_us` now. Where it may not, the
    /// writer waits for the next report and asks again.
    pub fn throttle(&self, out_stream_idx: usize, dts_us: i64) -> (r: bool)
        requires
            self.wf(),
        ensures
            r == may_write(self@, out_stream_idx as int, dts_us),
    {
        if dts_us == NO_PTS {
            return true;
        }
        self.gap_ok(out_stream_idx, dts_us)
    }

    /// Whether a packet with `dts_us` keeps the tolerance.
    fn gap_ok(&self, out_stream_idx: usize, dts_us: i64) -> (r: bool)
        requires
            self.wf(),
            dts_us != NO_PTS,
        ensures
            r == may_write(self@, out_stream_idx as int, dts_us),
    {
        match self.trailing_dts(out_stream_idx) {
            None => true,
            Some(trailing) => {
                let r = dts_us as i128 - trailing as i128 <= SCHEDULE_TOLERANCE_US as i128;
                proof {
                    let s = self@;
                    let skip = out_stream_idx as int;
                    let k = choose|k: int| #[trigger]
                        counts(s, skip, k) && s[k].dts == Some(trailing as int);
                    assert(counts(s, skip, k));
                    assert(!nothing_to_wait_for(s, skip));
                }
                r
            },
        }
    }
}

/// The slowest stream is never held back: a stream whose last DTS is not above that of any other
/// active stream may write a packet that is at most the tolerance after its last one.
pub proof fn law_slowest_stream_proceeds(s: Seq<StreamState>, idx: int, dts: i64)
    requires
        0 <= idx < s.len(),
        s[idx].dts is Some,
        dts - s[idx].dts->0 <= SCHEDULE_TOLERANCE_US,
        forall|i: int| #[trigger] counts(s, idx, i) ==> s[i].dts is Some && s[idx].dts->0
            <= s[i].dts->0,
    ensures
        may_write(s, idx, dts),
{
}

/// A stream that may write a known DTS while there are others to wait for stays within the
/// tolerance of each of them.
pub proof fn law_writer_stays_within_tolerance(s: Seq<StreamState>, idx: int, dts: i64, other: int)
    requires
        dts != NO_PTS,
        may_write(s, idx, dts),
        !nothing_to_wait_for(s, idx),
        counts(s, idx, other),
    ensures
        s[other].dts is Some,
        dts - s[other].dts->0 <= SCHEDULE_TOLERANCE_US,
{
}

/// Once every other stream has finished, a stream is never held back.
pub proof fn law_last_active_stream_is_free(s: Seq<StreamState>, idx: int, dts: i64)
    requires
        forall|i: int| 0 <= i < s.len() && i != idx ==> (#[trigger] s[i]).finished,
    ensures
        may_write(s, idx, dts),
{
    assert forall|i: int| !#[trigger] counts(s, idx, i) by {
        if 0 <= i < s.len() && i != idx {
            assert(s[i].finished);
        }
    }
}

/// A later report of another stream never holds back a packet that may be written: where `other`
/// has reported before, moving its DTS forward keeps the permission.
pub proof fn law_progress_keeps_permission(
    s: Seq<StreamState>,
    idx: int,
    dts: i64,
    other: int,
    newer: int,
)
    requires
        0 <= other < s.len(),
        other != idx,
        s[other].dts is Some,
        s[other].dts->0 <= newer,
        may_write(s, idx, dts),
    ensures
        may_write(
            s.update(other, (StreamState { dts: Some(newer), finished: s[other].finished })),
            idx,
            dts,
        ),
{
    let t = s.update(other, (StreamState { dts: Some(newer), finished: s[other].finished }));
    assert forall|i: int| #[trigger] counts(t, idx, i) == counts(s, idx, i) by {}
    if exists|i: int| #[trigger] counts(s, idx, i) && s[i].dts is None {
        let i = choose|i: int| #[trigger] counts(s, idx, i) && s[i].dts is None;
        assert(counts(t, idx, i) && t[i].dts is None);
    } else if dts != NO_PTS && !(forall|i: int| !#[trigger] counts(s, idx, i)) {
        assert forall|i: int| #[trigger] counts(t, idx, i) implies dts - t[i].dts->0
            <= SCHEDULE_TOLERANCE_US by {
            assert(counts(s, idx, i));
        }
    }
}

/// The quotient without its fraction.
pub open spec fn truncated_div(a: int, b: int) -> int {
    if (a < 0) == (b < 0) {
        abs(a) / abs(b)
    } else {
        -(abs(a) / abs(b))
    }
}

pub open spec fn abs(a: int) -> int {
    if a < 0 {
        -a
    } else {
        a
    }
}

/// The number of 64 bits, in two's complement, that agrees with `n` modulo 2^64.
pub open spec fn wrapped_i64(n: int) -> int {
    let low = n % 0x1_0000_0000_0000_0000;
    if low >= 0x8000_0000_0000_0000 {
        low - 0x1_0000_0000_0000_0000
    } else {
        low
    }
}

/// A DTS in microseconds; unknown where the DTS is unknown or the time base has no denominator.
pub open spec fn microseconds(dts: i64, tb: Rational) -> int {
    if dts == NO_PTS || tb.den == 0 {
        NO_PTS as int
    } else {
        wrapped_i64(truncated_div(dts * tb.num * 1_000_000, tb.den as int))
    }
}

fn magnitude(n: i128) -> (r: u128)
    requires
        n > i128::MIN,
    ensures
        r == abs(n as int),
{
    if n < 0 {
        (-n) as u128
    } else {
        n as u128
    }
}

/// A DTS of the time base `tb` in microseconds, rounded toward zero. The result is exact wherever
/// it fits in 64 bits.
pub fn dts_to_us(dts: i64, tb: Rational) -> (r: i64)
    ensures
        r as int == microseconds(dts, tb),
        dts != NO_PTS && tb.den != 0 && i64::MIN <= truncated_div(
            dts * tb.num * 1_000_000,
            tb.den as int,
        ) <= i64::MAX ==> r as int == truncated_div(dts * tb.num * 1_000_000, tb.den as int),
{
    if dts == NO_PTS || tb.den == 0 {
        return NO_PTS;
    }
    let limit: Ghost<int> = Ghost(0x4000_0000_0000_0000_0000_0000);
    proof {
        assert(-limit@ <= dts * tb.num <= limit@) by (nonlinear_arith)
            requires
                -0x8000_0000_0000_0000 <= dts <= 0x7fff_ffff_ffff_ffff,
                -0x8000_0000 <= tb.num <= 0x7fff_ffff,
                limit@ == 0x4000_0000_0000_0000_0000_0000,
        ;
    }
    let scaled: i128 = (dts as i128) * (tb.num as i128) * 1_000_000;
    let den: u128 = magnitude(tb.den as i128);
    let quotient: u128 = magnitude(scaled) / den;
    let negative = (scaled < 0) != (tb.den < 0);
    let low: u128 = quotient % 0x1_0000_0000_0000_0000;
    let wrapped: u128 = if negative && low != 0 {
        0x1_0000_0000_0000_0000 - low
    } else {
        low
    };
    proof {
        let q = truncated_div(dts * tb.num * 1_000_000, tb.den as int);
        let m = 0x1_0000_0000_0000_0000int;
        assert(q == if negative { -(quotient as int) } else { quotient as int });
        if negative {
            let k = quotient as int / m;
            assert(quotient == k * m + low);
            if low == 0 {
                vstd::arithmetic::div_mod::lemma_mod_multiples_vanish(-k, 0, m);
                assert(-(quotient as int) == m * (-k) + 0);
            } else {
                vstd::arithmetic::div_mod::lemma_mod_multiples_vanish(-k - 1, m - low, m);
                assert(-(quotient as int) == m * (-k - 1) + (m - low));
                vstd::arithmetic::div_mod::lemma_small_mod((m - low) as nat, m as nat);
            }
        }
        assert(wrapped == q % m);
        if i64::MIN <= q <= i64::MAX {
            if q < 0 {
                vstd::arithmetic::div_mod::lemma_mod_multiples_vanish(-1, q + m, m);
                assert(q == m * (-1) + (q + m));
                vstd::arithmetic::div_mod::lemma_small_mod((q + m) as nat, m as nat);
            } else {
                vstd::arithmetic::div_mod::lemma_small_mod(q as nat, m as nat);
            }
        }
    }
    if wrapped >= 0x8000_0000_0000_0000 {
        (wrapped as i128 - 0x1_0000_0000_0000_0000) as i64
    } else {
        wrapped as i64
    }
}

/// A packet that is more than a tenth of a second ahead of an active stream waits, where every other
/// active stream has reported; a packet that is not so far ahead of any of them is written.
pub proof fn law_far_ahead_waits(s: Seq<StreamState>, idx: int, dts: i64, other: int)
    requires
        dts != NO_PTS,
        0 <= other < s.len(),
        other != idx,
        !s[other].finished,
        forall|i: int|
            0 <= i < s.len() && i != idx && !(#[trigger] s[i]).finished ==> s[i].dts is Some,
    ensures
        dts - s[other].dts->0 > 100_000 ==> !may_write(s, idx, dts),
        (forall|i: int|
            0 <= i < s.len() && i != idx && !(#[trigger] s[i]).finished ==> dts - s[i].dts->0
                <= 100_000) ==> may_write(s, idx, dts),
{
    assert(counts(s, idx, other));
}

/// A packet is written at once where its DTS is unknown, or where another active stream has not
/// reported yet.
pub proof fn law_unknown_times_do_not_wait(s: Seq<StreamState>, idx: int, dts: i64, other: int)
    ensures
        may_write(s, idx, NO_PTS),
        0 <= other < s.len() && other != idx && !s[other].finished && s[other].dts is None
            ==> may_write(s, idx, dts),
{
    if 0 <= other < s.len() && other != idx && !s[other].finished && s[other].dts is None {
        assert(counts(s, idx, other));
    }
}

/// A DTS in microseconds is its time in seconds times a million, rounded down where it is not
/// negative, and the mirror image of that where it is negative.
pub proof fn law_microseconds_are_the_time(dts: i64, tb: Rational)
    requires
        0 <= dts,
        0 <= tb.num,
        0 < tb.den,
        dts * tb.num * 1_000_000 < 0x8000_0000_0000_0000 * tb.den,
    ensures
        microseconds(dts, tb) * tb.den <= dts * tb.num * 1_000_000 < (microseconds(dts, tb) + 1)
            * tb.den,
        microseconds((-dts) as i64, tb) == -microseconds(dts, tb),
{
    let x = dts * tb.num * 1_000_000;
    let d = tb.den as int;
    let q = x / d;
    let m = 0x1_0000_0000_0000_0000int;
    assert(0 <= x) by (nonlinear_arith)
        requires
            x == dts * tb.num * 1_000_000,
            0 <= dts,
            0 <= tb.num,
    ;
    assert(0 <= q < 0x8000_0000_0000_0000 && q * d <= x < (q + 1) * d) by (nonlinear_arith)
        requires
            q == x / d,
            0 <= x,
            0 < d,
            x < 0x8000_0000_0000_0000 * d,
    ;
    vstd::arithmetic::div_mod::lemma_small_mod(q as nat, m as nat);
    assert(microseconds(dts, tb) == q);
    let neg = (-dts) as i64;
    assert(neg * tb.num * 1_000_000 == -x) by (nonlinear_arith)
        requires
            neg == -dts,
            x == dts * tb.num * 1_000_000,
    ;
    if x > 0 {
        assert(truncated_div(-x, d) == -q);
        if q > 0 {
            vstd::arithmetic::div_mod::lemma_mod_multiples_vanish(-1, m - q, m);
            assert(m * (-1) + (m - q) == -q);
            vstd::arithmetic::div_mod::lemma_small_mod((m - q) as nat, m as nat);
        }
    }
}

/// A DTS that is not known, or whose time base has no denominator, is not known in microseconds.
pub proof fn law_unknown_stays_unknown(dts: i64, tb: Rational)
    ensures
        microseconds(NO_PTS, tb) == NO_PTS,
        tb.den == 0 ==> microseconds(dts, tb) == NO_PTS,
{
}

/// A report sets the time of its own stream, and one without a time changes nothing; a stream that
/// ends keeps its time. No other stream is touched.
pub proof fn law_reports_touch_their_own_stream(
    a: &mut MuxScheduler,
    b: &mut MuxScheduler,
    idx: usize,
    dts_us: i64,
    r: (),
    q: (),
    other: int,
)
    requires
        call_ensures(MuxScheduler::report_dts, (a, idx, dts_us), r),
        call_ensures(MuxScheduler::mark_finished, (b, idx), q),
        idx < old(a)@.len(),
        idx < old(b)@.len(),
    ensures
        dts_us == NO_PTS ==> final(a)@ == old(a)@,
        dts_us != NO_PTS ==> final(a)@[idx as int].dts == Some(dts_us as int),
        final(a)@[idx as int].finished == old(a)@[idx as int].finished,
        0 <= other < old(a)@.len() && other != idx ==> final(a)@[other] == old(a)@[other],
        final(b)@[idx as int].finished,
        final(b)@[idx as int].dts == old(b)@[idx as int].dts,
        0 <= other < old(b)@.len() && other != idx ==> final(b)@[other] == old(b)@[other],
{
}

} // verus!
