//! Encoder options and the texts that they are given in.

use crate::error::{fails_with, Error};
use crate::model::{Rational, NO_PTS};
use crate::text::{
    chars_of, dec, digit_value, is_space, join_text, law_trim_drops_surrounding_space,
    law_written_number_is_read_back, lemma_dec_is_digits, lemma_split_join, lemma_trim_nothing,
    parse_int,
    parsed_int, scan_digits, split, split_text, string_of, texts, trim, trim_text, IntError,
};
use crate::transcode::decimal::{
    exact_product, float_literal, is_digits, is_float, lemma_fraction, lemma_half_product,
    lemma_whole_product, multiply_exactly,
};
use vstd::prelude::*;

verus! {

/// What a pull from a decoder, encoder or filter sink gave.
#[derive(Clone, Copy, Debug, PartialEq, Eq, Structural)]
pub enum PullOutcome {
    /// An item.
    Ready,
    /// Nothing until more is sent.
    Drained,
    /// Nothing any more.
    Flushed,
    /// A failure.
    Failed,
}

/// What follows a pull.
#[derive(Clone, Copy, Debug, PartialEq, Eq, Structural)]
pub enum PullStep {
    /// Use the item and pull again.
    Use,
    /// Stop pulling.
    Stop,
    /// Give up with the failure.
    Fail,
}

/// Pulling goes on while there are items; running dry is its regular end.
pub fn pull_step(outcome: PullOutcome) -> (r: PullStep)
    ensures
        r == PullStep::Use <==> outcome == PullOutcome::Ready,
        r == PullStep::Fail <==> outcome == PullOutcome::Failed,
{
    match outcome {
        PullOutcome::Ready => PullStep::Use,
        PullOutcome::Drained | PullOutcome::Flushed => PullStep::Stop,
        PullOutcome::Failed => PullStep::Fail,
    }
}

/// Whether the timestamp of a filtered frame is converted to the encoder's time base: it is
/// known, and the two time bases differ.
pub fn needs_rescale(pts: i64, filter_tb: Rational, enc_tb: Rational) -> (r: bool)
    ensures
        r == (pts != NO_PTS && filter_tb != enc_tb),
{
    pts != NO_PTS && (filter_tb.num != enc_tb.num || filter_tb.den != enc_tb.den)
}

/// The capability of a codec whose output comes later than its input.
pub const CODEC_CAP_DELAY: i32 = 0x20;

/// Whether an encoder is sent the end of its input: only one that delays its output is.
pub fn flush_needed(capabilities: i32) -> (r: bool)
    ensures
        r == (capabilities & CODEC_CAP_DELAY != 0),
{
    capabilities & CODEC_CAP_DELAY != 0
}

/// Options of a video encoder; what is `None` keeps the encoder's own value.
#[derive(Debug)]
pub struct VideoEncoderOptions {
    pub rc_max_rate: Option<i64>,
    pub rc_buffer_size: Option<i32>,
    pub gop: Option<i32>,
    pub keyint_min: Option<i32>,
    pub profile: Option<String>,
}

/// The number of 32 bits, in two's complement, that agrees with `n` modulo 2^32.
pub open spec fn wrapped_i32(n: int) -> int {
    let low = n % 0x1_0000_0000;
    if low >= 0x8000_0000 {
        low - 0x1_0000_0000
    } else {
        low
    }
}

fn low_i32(n: i64) -> (r: i32)
    ensures
        r as int == wrapped_i32(n as int),
        i32::MIN <= n <= i32::MAX ==> r == n,
{
    let shifted: i128 = n as i128 + 0x1_0000_0000_0000_0000;
    let low: i128 = shifted % 0x1_0000_0000;
    proof {
        vstd::arithmetic::div_mod::lemma_mod_multiples_vanish(
            0x1_0000_0000,
            n as int,
            0x1_0000_0000,
        );
    }
    if low >= 0x8000_0000 {
        (low - 0x1_0000_0000) as i32
    } else {
        low as i32
    }
}

/// The common options of a video encoder, given the values of the rates. The buffer size keeps
/// the low 32 bits of its rate.
pub fn apply_video_encoder_options(
    maxrate: Option<i64>,
    bufsize: Option<i64>,
    gop: Option<i32>,
    keyint_min: Option<i32>,
    profile: Option<&str>,
) -> (r: VideoEncoderOptions)
    ensures
        r.rc_max_rate == maxrate,
        match (r.rc_buffer_size, bufsize) {
            (Some(size), Some(rate)) => size as int == wrapped_i32(rate as int),
            (None, None) => true,
            _ => false,
        },
        r.gop == gop,
        r.keyint_min == keyint_min,
        match (r.profile, profile) {
            (Some(a), Some(b)) => a@ == b@,
            (None, None) => true,
            _ => false,
        },
{
    VideoEncoderOptions {
        rc_max_rate: maxrate,
        rc_buffer_size: match bufsize {
            Some(rate) => Some(low_i32(rate)),
            None => None,
        },
        gop,
        keyint_min,
        profile: match profile {
            Some(p) => Some(p.to_owned()),
            None => None,
        },
    }
}

/// The integer of a part of a resolution.
pub open spec fn dimension(s: Seq<char>) -> Result<int, IntError> {
    parsed_int(s, i32::MIN as int, i32::MAX as int)
}

/// The size that `s` writes as `WxH`, or the message of why it writes none.
pub open spec fn resolution_of(s: Seq<char>) -> Result<(int, int), Seq<char>> {
    let parts = split_text(s, 'x');
    if parts.len() != 2 {
        Err("Invalid resolution format '"@ + s + "', expected WxH (e.g. 1920x1080)"@)
    } else {
        match (dimension(parts[0]), dimension(parts[1])) {
            (Err(e), _) => Err("Invalid width: "@ + e.text()),
            (Ok(_), Err(e)) => Err("Invalid height: "@ + e.text()),
            (Ok(w), Ok(h)) => if w <= 0 || h <= 0 {
                Err("Resolution dimensions must be positive"@)
            } else {
                Ok((w, h))
            },
        }
    }
}

fn prefixed(prefix: &str, e: IntError) -> (r: Error)
    ensures
        r.text() == prefix@ + e.text(),
{
    let mut message = prefix.to_owned();
    message.append(e.message().as_str());
    Error::Other(message)
}

/// Parses a resolution written as `WxH`.
pub fn parse_resolution(s: &str) -> (r: Result<(i32, i32), Error>)
    ensures
        match resolution_of(s@) {
            Ok((w, h)) => r matches Ok((rw, rh)) && rw == w && rh == h,
            Err(text) => fails_with(r, text),
        },
{
    let parts = split(s, 'x');
    proof {
        assert(texts(parts@).len() == parts@.len());
    }
    if parts.len() != 2 {
        let mut message = "Invalid resolution format '".to_owned();
        message.append(s);
        message.append("', expected WxH (e.g. 1920x1080)");
        return Err(Error::Other(message));
    }
    proof {
        assert(texts(parts@)[0] == parts@[0]@);
        assert(texts(parts@)[1] == parts@[1]@);
    }
    let w: i64 = match parse_int(parts[0].as_str(), i32::MIN as i64, i32::MAX as i64) {
        Ok(w) => w,
        Err(e) => return Err(prefixed("Invalid width: ", e)),
    };
    let h: i64 = match parse_int(parts[1].as_str(), i32::MIN as i64, i32::MAX as i64) {
        Ok(h) => h,
        Err(e) => return Err(prefixed("Invalid height: ", e)),
    };
    if w <= 0 || h <= 0 {
        return Err(Error::other("Resolution dimensions must be positive"));
    }
    Ok((w as i32, h as i32))
}

/// A bit rate as it was written.
#[derive(Debug)]
pub enum Bitrate {
    /// The rate, in bits per second.
    Exact(i64),
    /// A floating point literal whose product with `factor` is rounded, in units of `factor` bits
    /// per second.
    Scaled { number: String, factor: i64 },
}

/// The number and the unit of a bit rate: a final `k` or `K` counts thousands, a final `M` or `m`
/// millions, and white space around the whole is dropped.
pub open spec fn bitrate_parts(s: Seq<char>) -> (Seq<char>, int) {
    let t = trim_text(s);
    if t.len() > 0 && (t.last() == 'k' || t.last() == 'K') {
        (t.drop_last(), 1000)
    } else if t.len() > 0 && (t.last() == 'M' || t.last() == 'm') {
        (t.drop_last(), 1_000_000)
    } else {
        (t, 1)
    }
}

/// What a text says as a bit rate.
pub enum BitrateText {
    Exact(int),
    Scaled(Seq<char>, int),
    Fails(Seq<char>),
}

/// What a text says as a bit rate. Without a unit it must be a whole number. With a unit it must
/// be a floating point literal; where literal and product are exact in binary, the product without
/// its fraction is the rate, and else the literal is handed on with its unit.
pub open spec fn bitrate_of(s: Seq<char>) -> BitrateText {
    let (number, factor) = bitrate_parts(s);
    if factor == 1 {
        match parsed_int(number, i64::MIN as int, i64::MAX as int) {
            Ok(n) => BitrateText::Exact(n),
            Err(e) => BitrateText::Fails("Invalid bitrate: "@ + e.text()),
        }
    } else if number.len() == 0 {
        BitrateText::Fails("Invalid bitrate: cannot parse float from empty string"@)
    } else if !is_float(number) {
        BitrateText::Fails("Invalid bitrate: invalid float literal"@)
    } else {
        match exact_product(number, factor) {
            Some(n) => BitrateText::Exact(n),
            None => BitrateText::Scaled(number, factor),
        }
    }
}

/// Parses a bit rate.
pub fn parse_bitrate(s: &str) -> (r: Result<Bitrate, Error>)
    ensures
        match bitrate_of(s@) {
            BitrateText::Exact(n) => r matches Ok(Bitrate::Exact(v)) && v == n,
            BitrateText::Scaled(number, factor) => r matches Ok(
                Bitrate::Scaled { number: t, factor: f },
            ) && t@ == number && f == factor,
            BitrateText::Fails(text) => fails_with(r, text),
        },
{
    let t = trim(s);
    let chars = chars_of(t.as_str());
    let len: usize = chars.len();
    let mut factor: i64 = 1;
    if len > 0 {
        let last = chars[len - 1];
        if last == 'k' || last == 'K' {
            factor = 1000;
        } else if last == 'M' || last == 'm' {
            factor = 1_000_000;
        }
    }
    if factor == 1 {
        return match parse_int(t.as_str(), i64::MIN, i64::MAX) {
            Ok(n) => Ok(Bitrate::Exact(n)),
            Err(e) => Err(prefixed("Invalid bitrate: ", e)),
        };
    }
    let number = string_of(&chars, 0, len - 1);
    proof {
        assert(number@ =~= t@.drop_last());
    }
    let literal = chars_of(number.as_str());
    if literal.len() == 0 {
        return Err(Error::other("Invalid bitrate: cannot parse float from empty string"));
    }
    if !float_literal(&literal) {
        return Err(Error::other("Invalid bitrate: invalid float literal"));
    }
    match multiply_exactly(&literal, factor) {
        Some(n) => Ok(Bitrate::Exact(n)),
        None => Ok(Bitrate::Scaled { number, factor }),
    }
}

/// What a unit counts.
pub open spec fn unit_factor(unit: char) -> Option<int> {
    if unit == 'k' || unit == 'K' {
        Some(1000)
    } else if unit == 'm' || unit == 'M' {
        Some(1_000_000)
    } else {
        None
    }
}

proof fn lemma_parts_with_unit(number: Seq<char>, unit: char)
    requires
        unit_factor(unit) is Some,
        number.len() > 0 ==> !is_space(number[0]),
    ensures
        bitrate_parts(number.push(unit)) == (number, unit_factor(unit)->0),
{
    let t = number.push(unit);
    if number.len() > 0 {
        assert(t[0] == number[0]);
    }
    lemma_trim_nothing(t);
    assert(t.drop_last() =~= number);
}

/// White space around a bit rate does not matter.
pub proof fn law_space_around_a_bitrate(a: Seq<char>, s: Seq<char>, b: Seq<char>)
    requires
        forall|i: int| 0 <= i < a.len() ==> is_space(#[trigger] a[i]),
        forall|i: int| 0 <= i < b.len() ==> is_space(#[trigger] b[i]),
    ensures
        bitrate_of(a + s + b) == bitrate_of(s),
{
    law_trim_drops_surrounding_space(a, s, b);
}

/// A whole number stands for itself, and with a unit for so many thousands or millions.
pub proof fn law_whole_bitrate(n: u32, unit: char)
    requires
        unit_factor(unit) is Some,
    ensures
        bitrate_of(dec(n as int)) == BitrateText::Exact(n as int),
        bitrate_of(dec(n as int).push(unit)) == BitrateText::Exact(n * unit_factor(unit)->0),
{
    let s = dec(n as int);
    lemma_dec_is_digits(n as nat);
    assert(digit_value(s[0]) is Some);
    assert(digit_value(s[s.len() - 1]) is Some);
    lemma_trim_nothing(s);
    law_written_number_is_read_back(n as int, i64::MIN as int, i64::MAX as int);
    lemma_parts_with_unit(s, unit);
    lemma_whole_product(n as nat, unit_factor(unit)->0);
}

/// A number and a half with a unit: `1.5M` is a million and a half.
pub proof fn law_half_bitrate(n: u32, unit: char)
    requires
        unit_factor(unit) is Some,
    ensures
        bitrate_of((dec(n as int) + seq!['.'] + seq!['5']).push(unit)) == BitrateText::Exact(
            n * unit_factor(unit)->0 + unit_factor(unit)->0 / 2,
        ),
{
    let s = dec(n as int) + seq!['.'] + seq!['5'];
    lemma_dec_is_digits(n as nat);
    assert(s[0] == dec(n as int)[0]);
    assert(digit_value(dec(n as int)[0]) is Some);
    lemma_parts_with_unit(s, unit);
    lemma_half_product(n as nat, unit_factor(unit)->0);
}

/// A fraction is taken with a unit and refused without one.
pub proof fn law_fraction_needs_a_unit(whole: Seq<char>, fraction: Seq<char>, unit: char)
    requires
        is_digits(whole),
        is_digits(fraction),
        whole.len() + fraction.len() >= 1,
        unit_factor(unit) is Some,
    ensures
        !(bitrate_of((whole + seq!['.'] + fraction).push(unit)) is Fails),
        bitrate_of(whole + seq!['.'] + fraction) is Fails,
{
    let s = whole + seq!['.'] + fraction;
    lemma_fraction(whole, fraction);
    let p = whole.len() as int;
    assert(s[p] == '.');
    if p > 0 {
        assert(digit_value(whole[0]) is Some);
        assert(s[0] == whole[0]);
    }
    lemma_parts_with_unit(s, unit);
    if fraction.len() > 0 {
        assert(digit_value(fraction[fraction.len() - 1]) is Some);
        assert(s.last() == fraction.last());
    } else {
        assert(s.last() == '.');
    }
    lemma_trim_nothing(s);
    assert(bitrate_parts(s) == (s, 1int));
    lemma_scanned_are_digits(s, false, i64::MIN as int, i64::MAX as int, p);
}

proof fn lemma_scanned_are_digits(s: Seq<char>, negative: bool, lo: int, hi: int, i: int)
    requires
        0 <= i < s.len(),
        digit_value(s[i]) is None,
    ensures
        scan_digits(s, negative, lo, hi) is Err,
    decreases s.len(),
{
    if i < s.len() - 1 {
        assert(s.drop_last()[i] == s[i]);
        lemma_scanned_are_digits(s.drop_last(), negative, lo, hi, i);
    }
}

/// Nothing, and a unit alone, is no bit rate.
pub proof fn law_empty_bitrate_fails(unit: char)
    requires
        unit_factor(unit) is Some,
    ensures
        bitrate_of(Seq::empty()) is Fails,
        bitrate_of(seq![unit]) is Fails,
{
    lemma_parts_with_unit(Seq::empty(), unit);
    assert(Seq::<char>::empty().push(unit) =~= seq![unit]);
}

/// Keeping the low 32 bits changes no number that fits in them, and otherwise only by multiples of
/// 2^32.
pub proof fn law_low_bits(n: int)
    ensures
        i32::MIN <= n <= i32::MAX ==> wrapped_i32(n) == n,
        i32::MIN <= wrapped_i32(n) <= i32::MAX,
        (n - wrapped_i32(n)) % 0x1_0000_0000 == 0,
{
}

/// A resolution that is written as width, `x` and height is read back.
pub proof fn law_resolution_is_read_back(w: i32, h: i32)
    requires
        w > 0,
        h > 0,
    ensures
        resolution_of(dec(w as int) + seq!['x'] + dec(h as int)) == Ok::<(int, int), Seq<char>>(
            (w as int, h as int),
        ),
{
    let a = dec(w as int);
    let b = dec(h as int);
    let s = a + seq!['x'] + b;
    lemma_dec_is_digits(w as nat);
    lemma_dec_is_digits(h as nat);
    let parts = seq![a, b];
    assert forall|i: int| 0 <= i < parts.len() implies !(#[trigger] parts[i]).contains('x') by {
        if parts[i].contains('x') {
            let k = choose|k: int| 0 <= k < parts[i].len() && parts[i][k] == 'x';
            assert(digit_value(parts[i][k]) is Some);
        }
    }
    lemma_split_join(parts, 'x');
    assert(parts.drop_last() =~= seq![a]);
    reveal_with_fuel(join_text, 3);
    assert(join_text(parts, seq!['x']) =~= s);
    law_written_number_is_read_back(w as int, i32::MIN as int, i32::MAX as int);
    law_written_number_is_read_back(h as int, i32::MIN as int, i32::MAX as int);
}

/// A text is a resolution only if it has exactly one `x` with a positive number on either side.
pub proof fn law_resolutions_are_positive(s: Seq<char>)
    ensures
        resolution_of(s) matches Ok((w, h)) ==> 0 < w <= i32::MAX && 0 < h <= i32::MAX
            && split_text(s, 'x').len() == 2,
{
    let parts = split_text(s, 'x');
    if parts.len() == 2 {
        lemma_scan_in_range(parts[0], false, i32::MIN as int, i32::MAX as int);
        lemma_scan_in_range(parts[0].drop_first(), false, i32::MIN as int, i32::MAX as int);
        lemma_scan_in_range(parts[0].drop_first(), true, i32::MIN as int, i32::MAX as int);
        lemma_scan_in_range(parts[1], false, i32::MIN as int, i32::MAX as int);
        lemma_scan_in_range(parts[1].drop_first(), false, i32::MIN as int, i32::MAX as int);
        lemma_scan_in_range(parts[1].drop_first(), true, i32::MIN as int, i32::MAX as int);
    }
}

proof fn lemma_scan_in_range(s: Seq<char>, negative: bool, lo: int, hi: int)
    requires
        lo <= 0 <= hi,
    ensures
        scan_digits(s, negative, lo, hi) matches Ok(v) ==> lo <= v <= hi,
    decreases s.len(),
{
    if s.len() > 0 {
        lemma_scan_in_range(s.drop_last(), negative, lo, hi);
    }
}

/// A frame is brought to the encoder's time base exactly if its timestamp is known and the time
/// bases differ, and an encoder is sent the end of its input exactly if it delays its output.
pub proof fn law_rescaling_and_flushing(
    pts: i64,
    filter_tb: Rational,
    enc_tb: Rational,
    capabilities: i32,
    rescale: bool,
    flush: bool,
)
    requires
        call_ensures(needs_rescale, (pts, filter_tb, enc_tb), rescale),
        call_ensures(flush_needed, (capabilities,), flush),
    ensures
        pts == NO_PTS ==> !rescale,
        filter_tb == enc_tb ==> !rescale,
        pts != NO_PTS && (filter_tb.num != enc_tb.num || filter_tb.den != enc_tb.den) ==> rescale,
        flush <==> capabilities & 0x20 != 0,
{
}

/// Pulling goes on exactly after an item, ends without an error where the source ran dry, and fails
/// with the source.
pub proof fn law_pulling_ends_when_dry(outcome: PullOutcome, step: PullStep)
    requires
        call_ensures(pull_step, (outcome,), step),
    ensures
        outcome == PullOutcome::Ready ==> step == PullStep::Use,
        outcome == PullOutcome::Drained || outcome == PullOutcome::Flushed ==> step
            == PullStep::Stop,
        outcome == PullOutcome::Failed ==> step == PullStep::Fail,
{
}

/// A rate without a unit counts bits, one with `k` or `K` thousands of bits and one with `m` or `M`
/// millions.
pub proof fn law_units_count_thousands_and_millions(n: u32)
    ensures
        bitrate_of(dec(n as int)) == BitrateText::Exact(n as int),
        bitrate_of(dec(n as int).push('k')) == BitrateText::Exact(n * 1000),
        bitrate_of(dec(n as int).push('K')) == BitrateText::Exact(n * 1000),
        bitrate_of(dec(n as int).push('m')) == BitrateText::Exact(n * 1_000_000),
        bitrate_of(dec(n as int).push('M')) == BitrateText::Exact(n * 1_000_000),
{
    law_whole_bitrate(n, 'k');
    law_whole_bitrate(n, 'K');
    law_whole_bitrate(n, 'm');
    law_whole_bitrate(n, 'M');
    let s = dec(n as int);
    lemma_dec_is_digits(n as nat);
    assert forall|i: int| 0 <= i < s.len() implies !is_space(#[trigger] s[i]) by {
        assert(digit_value(s[i]) is Some);
    }
    lemma_trim_nothing(s);
    assert(digit_value(s[s.len() - 1]) is Some);
    law_written_number_is_read_back(n as int, i64::MIN as int, i64::MAX as int);
}

/// A text that is not two numbers around one `x` is no resolution, and the message says why.
pub proof fn law_other_texts_are_no_resolution(s: Seq<char>)
    ensures
        split_text(s, 'x').len() != 2 ==> resolution_of(s) == Err::<(int, int), Seq<char>>(
            "Invalid resolution format '"@ + s + "', expected WxH (e.g. 1920x1080)"@,
        ),
        split_text(s, 'x').len() == 2 ==> match (
            parsed_int(split_text(s, 'x')[0], i32::MIN as int, i32::MAX as int),
            parsed_int(split_text(s, 'x')[1], i32::MIN as int, i32::MAX as int),
        ) {
            (Err(e), _) => resolution_of(s) == Err::<(int, int), Seq<char>>(
                "Invalid width: "@ + e.text(),
            ),
            (Ok(_), Err(e)) => resolution_of(s) == Err::<(int, int), Seq<char>>(
                "Invalid height: "@ + e.text(),
            ),
            (Ok(w), Ok(h)) => w < 1 || h < 1 ==> resolution_of(s) == Err::<(int, int), Seq<char>>(
                "Resolution dimensions must be positive"@,
            ),
        },
{
}

/// The options of an encoder are those that were given; the buffer size is its rate where that fits
/// in 32 bits.
pub proof fn law_encoder_options_are_passed_on(
    maxrate: Option<i64>,
    bufsize: Option<i64>,
    gop: Option<i32>,
    keyint_min: Option<i32>,
    profile: Option<&str>,
    r: VideoEncoderOptions,
)
    requires
        call_ensures(
            apply_video_encoder_options,
            (maxrate, bufsize, gop, keyint_min, profile),
            r,
        ),
    ensures
        r.rc_max_rate == maxrate,
        r.gop == gop,
        r.keyint_min == keyint_min,
        bufsize is None <==> r.rc_buffer_size is None,
        bufsize is Some && i32::MIN <= bufsize->0 <= i32::MAX ==> r.rc_buffer_size->0 == bufsize->0,
        profile is None <==> r.profile is None,
        profile is Some ==> r.profile->0@ == profile->0@,
{
    if bufsize is Some {
        law_low_bits(bufsize->0 as int);
    }
}

} // verus!
