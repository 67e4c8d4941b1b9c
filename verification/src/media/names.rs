//! How numbers of a container are written as names and texts.

use crate::collections::{entry_map, SortedMap};
use crate::model::{MediaType, Rational};
use crate::text::{
    dec, dec_i64, dec_u64, hex, hex_u128, law_padding_adds_zeros, pad_zeros, zero_padded,
};
use vstd::arithmetic::div_mod::{lemma_fundamental_div_mod, lemma_mod_bound};
use vstd::prelude::*;

verus! {

/// The characters of an optional string.
pub open spec fn opt_text(o: Option<String>) -> Option<Seq<char>> {
    match o {
        Some(s) => Some(s@),
        None => None,
    }
}

fn some_text(s: &str) -> (r: Option<String>)
    ensures
        opt_text(r) == Some(s@),
{
    Some(s.to_owned())
}

/// The whole seconds and the milliseconds of a duration.
#[derive(Clone, Copy, Debug, PartialEq, Eq, Structural)]
pub struct DurationParts {
    pub total_secs: u64,
    pub millis: u64,
}

/// `n` in decimal, with zeros before it up to `width` digits.
pub open spec fn dec_padded(n: int, width: nat) -> Seq<char> {
    zero_padded(dec(n), width)
}

/// `hh:mm:ss.mmm`, or `N/A` where there is no duration.
pub open spec fn duration_text(d: Option<DurationParts>) -> Seq<char> {
    match d {
        None => "N/A"@,
        Some(p) => dec_padded(p.total_secs as int / 3600, 2) + ":"@ + dec_padded(
            (p.total_secs as int % 3600) / 60,
            2,
        ) + ":"@ + dec_padded(p.total_secs as int % 60, 2) + "."@ + dec_padded(p.millis as int, 3),
    }
}

fn padded(n: u64, width: usize) -> (r: String)
    ensures
        r@ == dec_padded(n as int, width as nat),
{
    pad_zeros(dec_u64(n).as_str(), width)
}

/// A duration as `hh:mm:ss.mmm`; `None` stands for a negative one.
pub fn format_duration(d: Option<DurationParts>) -> (r: String)
    ensures
        r@ == duration_text(d),
{
    match d {
        None => "N/A".to_owned(),
        Some(p) => {
            let hours: u64 = p.total_secs / 3600;
            let mins: u64 = (p.total_secs % 3600) / 60;
            let secs: u64 = p.total_secs % 60;
            let mut out = padded(hours, 2);
            out.append(":");
            out.append(padded(mins, 2).as_str());
            out.append(":");
            out.append(padded(secs, 2).as_str());
            out.append(".");
            out.append(padded(p.millis, 3).as_str());
            out
        },
    }
}

pub open spec fn media_type_text(t: MediaType) -> Seq<char> {
    match t {
        MediaType::Video => "video"@,
        MediaType::Audio => "audio"@,
        MediaType::Subtitle => "subtitle"@,
        MediaType::Data => "data"@,
        MediaType::Attachment => "attachment"@,
        MediaType::Other => "unknown"@,
    }
}

/// The name of a media type.
pub fn media_type_name(codec_type: MediaType) -> (r: &'static str)
    ensures
        r@ == media_type_text(codec_type),
{
    match codec_type {
        MediaType::Video => "video",
        MediaType::Audio => "audio",
        MediaType::Subtitle => "subtitle",
        MediaType::Data => "data",
        MediaType::Attachment => "attachment",
        MediaType::Other => "unknown",
    }
}

pub open spec fn color_space_text(cs: i32) -> Option<Seq<char>> {
    if cs == 1 { Some("bt709"@) }
    else if cs == 5 { Some("bt470bg"@) }
    else if cs == 6 { Some("smpte170m"@) }
    else if cs == 7 { Some("smpte240m"@) }
    else if cs == 8 { Some("ycgco"@) }
    else if cs == 9 { Some("bt2020nc"@) }
    else if cs == 10 { Some("bt2020c"@) }
    else if cs == 12 { Some("ictcp"@) }
    else { None }
}

/// The name of a colour space number.
pub fn color_space_name(cs: i32) -> (r: Option<String>)
    ensures
        opt_text(r) == color_space_text(cs),
{
    match cs {
        1 => some_text("bt709"),
        5 => some_text("bt470bg"),
        6 => some_text("smpte170m"),
        7 => some_text("smpte240m"),
        8 => some_text("ycgco"),
        9 => some_text("bt2020nc"),
        10 => some_text("bt2020c"),
        12 => some_text("ictcp"),
        _ => None,
    }
}

pub open spec fn color_range_text(cr: i32) -> Option<Seq<char>> {
    if cr == 1 { Some("tv"@) } else if cr == 2 { Some("pc"@) } else { None }
}

/// The name of a colour range number.
pub fn color_range_name(cr: i32) -> (r: Option<String>)
    ensures
        opt_text(r) == color_range_text(cr),
{
    match cr {
        1 => some_text("tv"),
        2 => some_text("pc"),
        _ => None,
    }
}

pub open spec fn color_primaries_text(cp: i32) -> Option<Seq<char>> {
    if cp == 1 { Some("bt709"@) }
    else if cp == 4 { Some("bt470m"@) }
    else if cp == 5 { Some("bt470bg"@) }
    else if cp == 6 { Some("smpte170m"@) }
    else if cp == 7 { Some("smpte240m"@) }
    else if cp == 9 { Some("bt2020"@) }
    else if cp == 11 { Some("smpte428"@) }
    else if cp == 12 { Some("smpte431"@) }
    else if cp == 13 { Some("smpte432"@) }
    else { None }
}

/// The name of a colour primaries number.
pub fn color_primaries_name(cp: i32) -> (r: Option<String>)
    ensures
        opt_text(r) == color_primaries_text(cp),
{
    match cp {
        1 => some_text("bt709"),
        4 => some_text("bt470m"),
        5 => some_text("bt470bg"),
        6 => some_text("smpte170m"),
        7 => some_text("smpte240m"),
        9 => some_text("bt2020"),
        11 => some_text("smpte428"),
        12 => some_text("smpte431"),
        13 => some_text("smpte432"),
        _ => None,
    }
}

pub open spec fn color_transfer_text(ct: i32) -> Option<Seq<char>> {
    if ct == 1 { Some("bt709"@) }
    else if ct == 4 { Some("gamma22"@) }
    else if ct == 5 { Some("gamma28"@) }
    else if ct == 6 { Some("smpte170m"@) }
    else if ct == 7 { Some("smpte240m"@) }
    else if ct == 8 { Some("linear"@) }
    else if ct == 14 { Some("bt2020-10"@) }
    else if ct == 15 { Some("bt2020-12"@) }
    else if ct == 16 { Some("smpte2084"@) }
    else if ct == 18 { Some("arib-std-b67"@) }
    else { None }
}

/// The name of a transfer characteristic number.
pub fn color_transfer_name(ct: i32) -> (r: Option<String>)
    ensures
        opt_text(r) == color_transfer_text(ct),
{
    match ct {
        1 => some_text("bt709"),
        4 => some_text("gamma22"),
        5 => some_text("gamma28"),
        6 => some_text("smpte170m"),
        7 => some_text("smpte240m"),
        8 => some_text("linear"),
        14 => some_text("bt2020-10"),
        15 => some_text("bt2020-12"),
        16 => some_text("smpte2084"),
        18 => some_text("arib-std-b67"),
        _ => None,
    }
}

pub open spec fn field_order_text(order: i32) -> Option<Seq<char>> {
    if order == 1 { Some("progressive"@) }
    else if order == 2 { Some("tt"@) }
    else if order == 3 { Some("bb"@) }
    else if order == 4 { Some("tb"@) }
    else if order == 5 { Some("bt"@) }
    else { None }
}

/// The name of a field order number.
pub fn field_order_name(order: i32) -> (r: Option<String>)
    ensures
        opt_text(r) == field_order_text(order),
{
    match order {
        1 => some_text("progressive"),
        2 => some_text("tt"),
        3 => some_text("bb"),
        4 => some_text("tb"),
        5 => some_text("bt"),
        _ => None,
    }
}

pub open spec fn chroma_location_text(loc: i32) -> Option<Seq<char>> {
    if loc == 1 { Some("left"@) }
    else if loc == 2 { Some("center"@) }
    else if loc == 3 { Some("topleft"@) }
    else if loc == 4 { Some("top"@) }
    else if loc == 5 { Some("bottomleft"@) }
    else if loc == 6 { Some("bottom"@) }
    else { None }
}

/// The name of a chroma location number.
pub fn chroma_location_name(loc: i32) -> (r: Option<String>)
    ensures
        opt_text(r) == chroma_location_text(loc),
{
    match loc {
        1 => some_text("left"),
        2 => some_text("center"),
        3 => some_text("topleft"),
        4 => some_text("top"),
        5 => some_text("bottomleft"),
        6 => some_text("bottom"),
        _ => None,
    }
}

/// The disposition flags and their names.
pub open spec fn disposition_table() -> Seq<(i32, Seq<char>)> {
    seq![
        (0x0001i32, "default"@),
        (0x0002i32, "dub"@),
        (0x0004i32, "original"@),
        (0x0008i32, "comment"@),
        (0x0010i32, "lyrics"@),
        (0x0020i32, "karaoke"@),
        (0x0040i32, "forced"@),
        (0x0080i32, "hearing_impaired"@),
        (0x0100i32, "visual_impaired"@),
        (0x0200i32, "clean_effects"@),
        (0x0400i32, "attached_pic"@),
        (0x0800i32, "timed_thumbnails"@),
        (0x1000i32, "non_diegetic"@),
        (0x10000i32, "captions"@),
        (0x20000i32, "descriptions"@),
        (0x40000i32, "metadata"@),
        (0x80000i32, "dependent"@),
        (0x0010_0000i32, "still_image"@),
        (0x0020_0000i32, "multilayer"@),
    ]
}

/// 1 where `flags` holds `flag`, else 0.
pub open spec fn flag_value(flags: i32, flag: i32) -> i32 {
    if flags & flag != 0 {
        1
    } else {
        0
    }
}

/// Each name of the table with 1 where its flag is set and 0 where it is not.
pub open spec fn disposition_map(flags: i32) -> Map<Seq<char>, i32> {
    entry_map(
        disposition_table().map_values(|e: (i32, Seq<char>)| (e.1, flag_value(flags, e.0))),
    )
}

/// The disposition flags by name.
pub fn decode_disposition(flags: i32) -> (r: SortedMap<i32>)
    ensures
        r.wf(),
        r@ == disposition_map(flags),
{
    let checks: [(i32, &'static str); 19] = [
        (0x0001, "default"),
        (0x0002, "dub"),
        (0x0004, "original"),
        (0x0008, "comment"),
        (0x0010, "lyrics"),
        (0x0020, "karaoke"),
        (0x0040, "forced"),
        (0x0080, "hearing_impaired"),
        (0x0100, "visual_impaired"),
        (0x0200, "clean_effects"),
        (0x0400, "attached_pic"),
        (0x0800, "timed_thumbnails"),
        (0x1000, "non_diegetic"),
        (0x10000, "captions"),
        (0x20000, "descriptions"),
        (0x40000, "metadata"),
        (0x80000, "dependent"),
        (0x0010_0000, "still_image"),
        (0x0020_0000, "multilayer"),
    ];
    let ghost entries = disposition_table().map_values(
        |e: (i32, Seq<char>)| (e.1, flag_value(flags, e.0)),
    );
    let mut map: SortedMap<i32> = SortedMap::new();
    let mut i: usize = 0;
    proof {
        assert(entries.take(0) =~= Seq::<(Seq<char>, i32)>::empty());
        assert(checks@.map_values(|e: (i32, &'static str)| (e.0, e.1@)) =~= disposition_table());
    }
    while i < 19
        invariant
            i <= 19,
            map.wf(),
            entries == disposition_table().map_values(
                |e: (i32, Seq<char>)| (e.1, flag_value(flags, e.0)),
            ),
            checks@.map_values(|e: (i32, &'static str)| (e.0, e.1@)) == disposition_table(),
            map@ == entry_map(entries.take(i as int)),
        decreases 19 - i,
    {
        let (flag, name) = checks[i];
        proof {
            assert(disposition_table()[i as int] == (flag, name@));
            assert(entries[i as int] == (name@, flag_value(flags, flag)));
            assert(entries.take(i + 1).drop_last() =~= entries.take(i as int));
        }
        let value: i32 = if flags & flag != 0 {
            1
        } else {
            0
        };
        map.insert(name.to_owned(), value);
        i = i + 1;
    }
    proof {
        assert(entries.take(19) =~= entries);
    }
    map
}

pub open spec fn rational_text(r: Rational) -> Seq<char> {
    if r.den == 0 {
        "0/0"@
    } else {
        dec(r.num as int) + "/"@ + dec(r.den as int)
    }
}

/// `num/den`, or `0/0` where the denominator is zero.
pub fn rational_to_string(r: Rational) -> (s: String)
    ensures
        s@ == rational_text(r),
{
    if r.den == 0 {
        "0/0".to_owned()
    } else {
        ratio_string(r.num as i64, "/", r.den as i64)
    }
}

/// `a`, the mark, `b`.
pub fn ratio_string(a: i64, mark: &str, b: i64) -> (s: String)
    ensures
        s@ == dec(a as int) + mark@ + dec(b as int),
{
    let mut out = dec_i64(a);
    out.append(mark);
    out.append(dec_i64(b).as_str());
    out
}

/// `d` divides `n`.
pub open spec fn divides(d: int, n: int) -> bool {
    exists|q: int| #[trigger] (d * q) == n
}

/// `g` divides both numbers, and every common divisor divides `g`.
pub open spec fn is_gcd(g: int, a: int, b: int) -> bool {
    &&& g >= 0
    &&& divides(g, a)
    &&& divides(g, b)
    &&& forall|d: int| #[trigger] divides(d, a) && divides(d, b) ==> divides(d, g)
}

proof fn lemma_divides_combination(d: int, a: int, b: int, q: int)
    requires
        divides(d, a),
        divides(d, b),
    ensures
        divides(d, a + q * b),
        divides(d, a - q * b),
{
    let x = choose|x: int| #[trigger] (d * x) == a;
    let y = choose|y: int| #[trigger] (d * y) == b;
    assert(d * (x + q * y) == a + q * b) by (nonlinear_arith)
        requires
            d * x == a,
            d * y == b,
    ;
    assert(d * (x - q * y) == a - q * b) by (nonlinear_arith)
        requires
            d * x == a,
            d * y == b,
    ;
}

proof fn lemma_gcd_step(g: int, a: int, b: int)
    requires
        a >= 0,
        b > 0,
        is_gcd(g, b, a % b),
    ensures
        is_gcd(g, a, b),
{
    let q = a / b;
    lemma_fundamental_div_mod(a, b);
    assert(a == a % b + q * b) by (nonlinear_arith)
        requires
            a == b * q + a % b,
    ;
    lemma_divides_combination(g, a % b, b, q);
    assert forall|d: int| #[trigger] divides(d, a) && divides(d, b) implies divides(d, g) by {
        lemma_divides_combination(d, a, b, q);
        assert(divides(d, a % b));
        assert(divides(d, b) && divides(d, a % b) ==> divides(d, g));
    }
}

/// The greatest common divisor, by Euclid's algorithm.
pub open spec fn gcd_of(a: nat, b: nat) -> nat
    decreases b,
    via gcd_shrinks
{
    if b == 0 {
        a
    } else {
        gcd_of(b, a % b)
    }
}

#[via_fn]
proof fn gcd_shrinks(a: nat, b: nat) {
    if b != 0 {
        lemma_mod_bound(a as int, b as int);
    }
}

/// Euclid's algorithm gives the greatest common divisor.
pub proof fn law_gcd_is_the_greatest(a: nat, b: nat)
    ensures
        is_gcd(gcd_of(a, b) as int, a as int, b as int),
    decreases b,
{
    if b == 0 {
        assert(a as int * 1 == a as int);
        assert(a as int * 0 == 0);
        assert(divides(a as int, a as int));
        assert(divides(a as int, 0));
    } else {
        lemma_mod_bound(a as int, b as int);
        law_gcd_is_the_greatest(b, a % b);
        lemma_gcd_step(gcd_of(b, a % b) as int, a as int, b as int);
    }
}

/// The greatest common divisor.
pub fn gcd(a: u64, b: u64) -> (r: u64)
    ensures
        r == gcd_of(a as nat, b as nat),
        is_gcd(r as int, a as int, b as int),
{
    let mut x: u64 = a;
    let mut y: u64 = b;
    while y != 0
        invariant
            gcd_of(x as nat, y as nat) == gcd_of(a as nat, b as nat),
        decreases y,
    {
        let t: u64 = y;
        y = x % y;
        x = t;
    }
    proof {
        law_gcd_is_the_greatest(a as nat, b as nat);
    }
    x
}

proof fn lemma_divisor_bound(d: int, n: int)
    requires
        d >= 0,
        n > 0,
        divides(d, n),
    ensures
        0 < d <= n,
{
    let q = choose|q: int| #[trigger] (d * q) == n;
    assert(0 < d <= n) by (nonlinear_arith)
        requires
            d >= 0,
            n > 0,
            d * q == n,
    ;
}

/// `n`, or 1 where `n` is not positive.
pub open spec fn positive_or_one(n: i32) -> int {
    if n > 0 {
        n as int
    } else {
        1
    }
}

/// The ratio of two positive numbers in lowest terms, as `x:y`.
pub open spec fn ratio_text(num: int, den: int) -> Seq<char> {
    let g = gcd_of(num as nat, den as nat) as int;
    dec(num / g) + ":"@ + dec(den / g)
}

/// The display aspect ratio of a picture, where it is not empty. A sample aspect ratio part that
/// is not positive counts as 1.
pub open spec fn dar_text(w: i32, h: i32, sar: Rational) -> Option<Seq<char>> {
    if w > 0 && h > 0 {
        Some(ratio_text(w * positive_or_one(sar.num), h * positive_or_one(sar.den)))
    } else {
        None
    }
}

/// The display aspect ratio in lowest terms; there is none for an empty picture. A sample aspect
/// ratio part that is not positive counts as 1.
pub fn compute_dar(w: i32, h: i32, sar: Rational) -> (r: Option<String>)
    ensures
        opt_text(r) == dar_text(w, h, sar),
{
    if w <= 0 || h <= 0 {
        return None;
    }
    let sar_num: i32 = if sar.num > 0 {
        sar.num
    } else {
        1
    };
    let sar_den: i32 = if sar.den > 0 {
        sar.den
    } else {
        1
    };
    proof {
        assert(0 < w * sar_num <= 0x3fff_ffff_ffff_ffff) by (nonlinear_arith)
            requires
                0 < w <= 0x7fff_ffff,
                0 < sar_num <= 0x7fff_ffff,
        ;
        assert(0 < h * sar_den <= 0x3fff_ffff_ffff_ffff) by (nonlinear_arith)
            requires
                0 < h <= 0x7fff_ffff,
                0 < sar_den <= 0x7fff_ffff,
        ;
    }
    let num: u64 = (w as u64) * (sar_num as u64);
    let den: u64 = (h as u64) * (sar_den as u64);
    let g: u64 = gcd(num, den);
    proof {
        lemma_divisor_bound(g as int, num as int);
        lemma_divisor_bound(g as int, den as int);
        lemma_exact_quotient(g as int, num as int);
        lemma_exact_quotient(g as int, den as int);
    }
    let x: u64 = num / g;
    let y: u64 = den / g;
    Some(ratio_string(x as i64, ":", y as i64))
}

proof fn lemma_exact_quotient(d: int, n: int)
    requires
        d > 0,
        n > 0,
        divides(d, n),
    ensures
        d * (n / d) == n,
        0 <= n / d <= n,
{
    let q = choose|q: int| #[trigger] (d * q) == n;
    vstd::arithmetic::div_mod::lemma_div_multiples_vanish(q, d);
    assert((d * q) / d == q);
    assert(0 <= q <= n) by (nonlinear_arith)
        requires
            d > 0,
            n > 0,
            d * q == n,
    ;
}

/// A display ratio is the ratio of the two numbers, written in lowest terms: no number above 1
/// divides both of its sides.
pub proof fn law_display_ratio_in_lowest_terms(num: int, den: int, d: int)
    requires
        num > 0,
        den > 0,
        d > 0,
        divides(d, num / gcd_of(num as nat, den as nat) as int),
        divides(d, den / gcd_of(num as nat, den as nat) as int),
    ensures
        num * (den / gcd_of(num as nat, den as nat) as int) == den * (num / gcd_of(
            num as nat,
            den as nat,
        ) as int),
        d == 1,
{
    let g = gcd_of(num as nat, den as nat) as int;
    let x = num / g;
    let y = den / g;
    law_gcd_is_the_greatest(num as nat, den as nat);
    lemma_divisor_bound(g, num);
    lemma_exact_quotient(g, num);
    lemma_exact_quotient(g, den);
    assert(num * y == den * x) by (nonlinear_arith)
        requires
            g * x == num,
            g * y == den,
    ;
    let p = choose|p: int| #[trigger] (d * p) == x;
    let q = choose|q: int| #[trigger] (d * q) == y;
    assert((g * d) * p == num) by (nonlinear_arith)
        requires
            d * p == x,
            g * x == num,
    ;
    assert((g * d) * q == den) by (nonlinear_arith)
        requires
            d * q == y,
            g * y == den,
    ;
    assert(divides(g * d, num));
    assert(divides(g * d, den));
    assert(divides(g * d, g));
    let k = choose|k: int| #[trigger] ((g * d) * k) == g;
    assert(d == 1) by (nonlinear_arith)
        requires
            (g * d) * k == g,
            g > 0,
            d > 0,
    ;
}

proof fn lemma_last_entry_wins<V>(entries: Seq<(Seq<char>, V)>, i: int)
    requires
        0 <= i < entries.len(),
        forall|j: int| i < j < entries.len() ==> #[trigger] entries[j].0 != entries[i].0,
    ensures
        entry_map(entries).dom().contains(entries[i].0),
        entry_map(entries)[entries[i].0] == entries[i].1,
    decreases entries.len(),
{
    if i < entries.len() - 1 {
        let before = entries.drop_last();
        assert forall|j: int| i < j < before.len() implies #[trigger] before[j].0
            != before[i].0 by {
            assert(entries[j].0 != entries[i].0);
        }
        lemma_last_entry_wins(before, i);
        assert(entries[entries.len() - 1].0 != entries[i].0);
    }
}

proof fn lemma_disposition_names_differ(i: int, j: int)
    requires
        0 <= i < j < 19,
    ensures
        disposition_table()[i].1 != disposition_table()[j].1,
{
    reveal_strlit("default");
    reveal_strlit("dub");
    reveal_strlit("original");
    reveal_strlit("comment");
    reveal_strlit("lyrics");
    reveal_strlit("karaoke");
    reveal_strlit("forced");
    reveal_strlit("hearing_impaired");
    reveal_strlit("visual_impaired");
    reveal_strlit("clean_effects");
    reveal_strlit("attached_pic");
    reveal_strlit("timed_thumbnails");
    reveal_strlit("non_diegetic");
    reveal_strlit("captions");
    reveal_strlit("descriptions");
    reveal_strlit("metadata");
    reveal_strlit("dependent");
    reveal_strlit("still_image");
    reveal_strlit("multilayer");
    let a = disposition_table()[i].1;
    let b = disposition_table()[j].1;
    assert(a.len() != b.len() || a[0] != b[0] || a[2] != b[2]);
}

/// Every name of the disposition table tells whether its own flag is set.
pub proof fn law_disposition_names_their_flags(flags: i32, i: int)
    requires
        0 <= i < disposition_table().len(),
    ensures
        disposition_map(flags).dom().contains(disposition_table()[i].1),
        disposition_map(flags)[disposition_table()[i].1] == flag_value(
            flags,
            disposition_table()[i].0,
        ),
{
    let entries = disposition_table().map_values(
        |e: (i32, Seq<char>)| (e.1, flag_value(flags, e.0)),
    );
    assert forall|j: int| i < j < entries.len() implies #[trigger] entries[j].0
        != entries[i].0 by {
        lemma_disposition_names_differ(i, j);
    }
    lemma_last_entry_wins(entries, i);
}

/// The number `k` byte of `tag`, counted from the low end.
pub open spec fn tag_byte(tag: u32, k: nat) -> u8 {
    if k == 0 {
        (tag % 256) as u8
    } else if k == 1 {
        (tag / 0x100 % 256) as u8
    } else if k == 2 {
        (tag / 0x1_0000 % 256) as u8
    } else {
        (tag / 0x100_0000 % 256) as u8
    }
}

/// A visible ASCII byte as its character, any other byte as its number in square brackets.
pub open spec fn tag_byte_text(b: u8) -> Seq<char> {
    if 0x20 < b < 0x7f {
        seq![b as char]
    } else {
        "["@ + dec(b as int) + "]"@
    }
}

pub open spec fn fourcc_text(tag: u32) -> Seq<char> {
    tag_byte_text(tag_byte(tag, 0)) + tag_byte_text(tag_byte(tag, 1)) + tag_byte_text(
        tag_byte(tag, 2),
    ) + tag_byte_text(tag_byte(tag, 3))
}

fn tag_byte_string(b: u8) -> (r: String)
    ensures
        r@ == tag_byte_text(b),
{
    if b > 0x20 && b < 0x7f {
        let mut out = String::new();
        out.push(b as char);
        proof {
            assert(out@ =~= seq![b as char]);
        }
        out
    } else {
        let mut out = "[".to_owned();
        out.append(dec_u64(b as u64).as_str());
        out.append("]");
        out
    }
}

/// A codec tag as text, low byte first.
pub fn fourcc_to_string(tag: u32) -> (r: String)
    ensures
        r@ == fourcc_text(tag),
{
    let b0: u8 = (tag % 256) as u8;
    let b1: u8 = (tag / 0x100 % 256) as u8;
    let b2: u8 = (tag / 0x1_0000 % 256) as u8;
    let b3: u8 = (tag / 0x100_0000 % 256) as u8;
    let mut out = tag_byte_string(b0);
    out.append(tag_byte_string(b1).as_str());
    out.append(tag_byte_string(b2).as_str());
    out.append(tag_byte_string(b3).as_str());
    out
}

/// `0x` and at least `width` hexadecimal digits.
pub open spec fn hex_text(n: u32, width: nat) -> Seq<char> {
    "0x"@ + zero_padded(hex(n as nat), width)
}

/// `0x` and at least `width` hexadecimal digits.
pub fn hex_string(n: u32, width: usize) -> (r: String)
    ensures
        r@ == hex_text(n, width as nat),
{
    let mut out = "0x".to_owned();
    out.append(pad_zeros(hex_u128(n as u128).as_str(), width).as_str());
    out
}

/// The bits of `n` as an unsigned number.
pub open spec fn bits_of(n: i32) -> u32 {
    if n < 0 {
        (n + 0x1_0000_0000) as u32
    } else {
        n as u32
    }
}

/// The bits of `n` as an unsigned number.
pub fn unsigned_bits(n: i32) -> (r: u32)
    ensures
        r == bits_of(n),
{
    if n < 0 {
        (n as i64 + 0x1_0000_0000) as u32
    } else {
        n as u32
    }
}

/// `unknown(` number `)`.
pub open spec fn unknown_text(n: int) -> Seq<char> {
    "unknown("@ + dec(n) + ")"@
}

/// The name where there is one, else `unknown(` number `)`.
pub fn name_or_unknown(name: &Option<String>, number: i64) -> (r: String)
    ensures
        r@ == (match opt_text(*name) {
            Some(s) => s,
            None => unknown_text(number as int),
        }),
{
    match name {
        Some(s) => s.clone(),
        None => {
            let mut out = "unknown(".to_owned();
            out.append(dec_i64(number).as_str());
            out.append(")");
            out
        },
    }
}

/// A colour space number has the name of that colour space, and every other number has none.
pub proof fn law_color_spaces_have_their_names(cs: i32)
    ensures
        cs == 1 ==> color_space_text(cs) == Some("bt709"@),
        cs == 5 ==> color_space_text(cs) == Some("bt470bg"@),
        cs == 6 ==> color_space_text(cs) == Some("smpte170m"@),
        cs == 7 ==> color_space_text(cs) == Some("smpte240m"@),
        cs == 8 ==> color_space_text(cs) == Some("ycgco"@),
        cs == 9 ==> color_space_text(cs) == Some("bt2020nc"@),
        cs == 10 ==> color_space_text(cs) == Some("bt2020c"@),
        cs == 12 ==> color_space_text(cs) == Some("ictcp"@),
        cs != 1 && cs != 5 && cs != 6 && cs != 7 && cs != 8 && cs != 9 && cs != 10 && cs != 12 ==> color_space_text(cs) is None,
{
}

/// Limited range is `tv`, full range is `pc`, and nothing else has a name.
pub proof fn law_color_ranges_have_their_names(cr: i32)
    ensures
        cr == 1 ==> color_range_text(cr) == Some("tv"@),
        cr == 2 ==> color_range_text(cr) == Some("pc"@),
        cr != 1 && cr != 2 ==> color_range_text(cr) is None,
{
}

/// A colour primaries number has the name of those primaries, and every other number has none.
pub proof fn law_color_primaries_have_their_names(cp: i32)
    ensures
        cp == 1 ==> color_primaries_text(cp) == Some("bt709"@),
        cp == 4 ==> color_primaries_text(cp) == Some("bt470m"@),
        cp == 5 ==> color_primaries_text(cp) == Some("bt470bg"@),
        cp == 6 ==> color_primaries_text(cp) == Some("smpte170m"@),
        cp == 7 ==> color_primaries_text(cp) == Some("smpte240m"@),
        cp == 9 ==> color_primaries_text(cp) == Some("bt2020"@),
        cp == 11 ==> color_primaries_text(cp) == Some("smpte428"@),
        cp == 12 ==> color_primaries_text(cp) == Some("smpte431"@),
        cp == 13 ==> color_primaries_text(cp) == Some("smpte432"@),
        cp != 1 && cp != 4 && cp != 5 && cp != 6 && cp != 7 && cp != 9 && cp != 11 && cp != 12 && cp != 13 ==> color_primaries_text(cp) is None,
{
}

/// A transfer number has the name of that characteristic, and every other number has none.
pub proof fn law_color_transfers_have_their_names(ct: i32)
    ensures
        ct == 1 ==> color_transfer_text(ct) == Some("bt709"@),
        ct == 4 ==> color_transfer_text(ct) == Some("gamma22"@),
        ct == 5 ==> color_transfer_text(ct) == Some("gamma28"@),
        ct == 6 ==> color_transfer_text(ct) == Some("smpte170m"@),
        ct == 7 ==> color_transfer_text(ct) == Some("smpte240m"@),
        ct == 8 ==> color_transfer_text(ct) == Some("linear"@),
        ct == 14 ==> color_transfer_text(ct) == Some("bt2020-10"@),
        ct == 15 ==> color_transfer_text(ct) == Some("bt2020-12"@),
        ct == 16 ==> color_transfer_text(ct) == Some("smpte2084"@),
        ct == 18 ==> color_transfer_text(ct) == Some("arib-std-b67"@),
        ct != 1 && ct != 4 && ct != 5 && ct != 6 && ct != 7 && ct != 8 && ct != 14 && ct != 15 && ct != 16 && ct != 18 ==> color_transfer_text(ct) is None,
{
}

/// A field order number has the name of that order, and every other number has none.
pub proof fn law_field_orders_have_their_names(order: i32)
    ensures
        order == 1 ==> field_order_text(order) == Some("progressive"@),
        order == 2 ==> field_order_text(order) == Some("tt"@),
        order == 3 ==> field_order_text(order) == Some("bb"@),
        order == 4 ==> field_order_text(order) == Some("tb"@),
        order == 5 ==> field_order_text(order) == Some("bt"@),
        order != 1 && order != 2 && order != 3 && order != 4 && order != 5 ==> field_order_text(order) is None,
{
}

/// A chroma location number has the name of that place, and every other number has none.
pub proof fn law_chroma_locations_have_their_names(loc: i32)
    ensures
        loc == 1 ==> chroma_location_text(loc) == Some("left"@),
        loc == 2 ==> chroma_location_text(loc) == Some("center"@),
        loc == 3 ==> chroma_location_text(loc) == Some("topleft"@),
        loc == 4 ==> chroma_location_text(loc) == Some("top"@),
        loc == 5 ==> chroma_location_text(loc) == Some("bottomleft"@),
        loc == 6 ==> chroma_location_text(loc) == Some("bottom"@),
        loc != 1 && loc != 2 && loc != 3 && loc != 4 && loc != 5 && loc != 6 ==> chroma_location_text(loc) is None,
{
}

/// Each disposition name tells whether its bit is set.
pub proof fn law_disposition_bits(flags: i32)
    ensures
        disposition_map(flags)["default"@] == (if flags & 0x1 != 0 {
            1i32
        } else {
            0
        }),
        disposition_map(flags)["dub"@] == (if flags & 0x2 != 0 {
            1i32
        } else {
            0
        }),
        disposition_map(flags)["original"@] == (if flags & 0x4 != 0 {
            1i32
        } else {
            0
        }),
        disposition_map(flags)["comment"@] == (if flags & 0x8 != 0 {
            1i32
        } else {
            0
        }),
        disposition_map(flags)["lyrics"@] == (if flags & 0x10 != 0 {
            1i32
        } else {
            0
        }),
        disposition_map(flags)["karaoke"@] == (if flags & 0x20 != 0 {
            1i32
        } else {
            0
        }),
        disposition_map(flags)["forced"@] == (if flags & 0x40 != 0 {
            1i32
        } else {
            0
        }),
        disposition_map(flags)["hearing_impaired"@] == (if flags & 0x80 != 0 {
            1i32
        } else {
            0
        }),
        disposition_map(flags)["visual_impaired"@] == (if flags & 0x100 != 0 {
            1i32
        } else {
            0
        }),
        disposition_map(flags)["clean_effects"@] == (if flags & 0x200 != 0 {
            1i32
        } else {
            0
        }),
        disposition_map(flags)["attached_pic"@] == (if flags & 0x400 != 0 {
            1i32
        } else {
            0
        }),
        disposition_map(flags)["timed_thumbnails"@] == (if flags & 0x800 != 0 {
            1i32
        } else {
            0
        }),
        disposition_map(flags)["non_diegetic"@] == (if flags & 0x1000 != 0 {
            1i32
        } else {
            0
        }),
        disposition_map(flags)["captions"@] == (if flags & 0x10000 != 0 {
            1i32
        } else {
            0
        }),
        disposition_map(flags)["descriptions"@] == (if flags & 0x20000 != 0 {
            1i32
        } else {
            0
        }),
        disposition_map(flags)["metadata"@] == (if flags & 0x40000 != 0 {
            1i32
        } else {
            0
        }),
        disposition_map(flags)["dependent"@] == (if flags & 0x80000 != 0 {
            1i32
        } else {
            0
        }),
        disposition_map(flags)["still_image"@] == (if flags & 0x100000 != 0 {
            1i32
        } else {
            0
        }),
        disposition_map(flags)["multilayer"@] == (if flags & 0x200000 != 0 {
            1i32
        } else {
            0
        }),
{
    law_disposition_names_their_flags(flags, 0);
    law_disposition_names_their_flags(flags, 1);
    law_disposition_names_their_flags(flags, 2);
    law_disposition_names_their_flags(flags, 3);
    law_disposition_names_their_flags(flags, 4);
    law_disposition_names_their_flags(flags, 5);
    law_disposition_names_their_flags(flags, 6);
    law_disposition_names_their_flags(flags, 7);
    law_disposition_names_their_flags(flags, 8);
    law_disposition_names_their_flags(flags, 9);
    law_disposition_names_their_flags(flags, 10);
    law_disposition_names_their_flags(flags, 11);
    law_disposition_names_their_flags(flags, 12);
    law_disposition_names_their_flags(flags, 13);
    law_disposition_names_their_flags(flags, 14);
    law_disposition_names_their_flags(flags, 15);
    law_disposition_names_their_flags(flags, 16);
    law_disposition_names_their_flags(flags, 17);
    law_disposition_names_their_flags(flags, 18);
}

/// A duration of so many hours, minutes, seconds and milliseconds is written as those numbers.
pub proof fn law_duration_is_told_in_its_parts(p: DurationParts, h: nat, m: nat, s: nat)
    requires
        p.total_secs == h * 3600 + m * 60 + s,
        m < 60,
        s < 60,
    ensures
        duration_text(Some(p)) == zero_padded(dec(h as int), 2) + ":"@ + zero_padded(
            dec(m as int),
            2,
        ) + ":"@ + zero_padded(dec(s as int), 2) + "."@ + zero_padded(dec(p.millis as int), 3),
        duration_text(None) == "N/A"@,
{
    assert(p.total_secs as int / 3600 == h);
    assert(p.total_secs as int % 3600 == m * 60 + s);
    assert((p.total_secs as int % 3600) / 60 == m);
    assert(p.total_secs as int % 60 == s);
}

/// A media type is named after itself.
pub proof fn law_media_types_have_their_names(t: MediaType)
    ensures
        t == MediaType::Video ==> media_type_text(t) == "video"@,
        t == MediaType::Audio ==> media_type_text(t) == "audio"@,
        t == MediaType::Subtitle ==> media_type_text(t) == "subtitle"@,
        t == MediaType::Data ==> media_type_text(t) == "data"@,
        t == MediaType::Attachment ==> media_type_text(t) == "attachment"@,
        t == MediaType::Other ==> media_type_text(t) == "unknown"@,
{
}

/// A fraction is written as its numerator and its denominator; without a denominator it is none.
pub proof fn law_fraction_is_written(r: Rational)
    ensures
        r.den != 0 ==> rational_text(r) == dec(r.num as int) + "/"@ + dec(r.den as int),
        r.den == 0 ==> rational_text(r) == "0/0"@,
{
}

/// The display aspect ratio is the ratio of the sides, each times its part of the sample aspect
/// ratio, in lowest terms; a picture without pixels has none.
pub proof fn law_display_ratio_is_that_of_the_sides(w: i32, h: i32, sar: Rational)
    ensures
        w <= 0 || h <= 0 ==> dar_text(w, h, sar) is None,
        w > 0 && h > 0 && sar.num > 0 && sar.den > 0 ==> exists|x: int, y: int|
            #![trigger dec(x), dec(y)]
            0 < x && 0 < y && dar_text(w, h, sar) == Some(dec(x) + ":"@ + dec(y)) && (w * sar.num)
                * y == (h * sar.den) * x && forall|d: int|
                d > 0 && #[trigger] divides(d, x) && divides(d, y) ==> d == 1,
        w > 0 && h > 0 && sar.num <= 0 && sar.den <= 0 ==> dar_text(w, h, sar) == dar_text(
            w,
            h,
            (Rational { num: 1, den: 1 }),
        ),
{
    if w > 0 && h > 0 && sar.num > 0 && sar.den > 0 {
        let num = w * sar.num;
        let den = h * sar.den;
        assert(num > 0 && den > 0) by (nonlinear_arith)
            requires
                num == w * sar.num,
                den == h * sar.den,
                w > 0,
                h > 0,
                sar.num > 0,
                sar.den > 0,
        ;
        let g = gcd_of(num as nat, den as nat) as int;
        law_gcd_is_the_greatest(num as nat, den as nat);
        lemma_divisor_bound(g, num);
        lemma_exact_quotient(g, num);
        lemma_exact_quotient(g, den);
        let x = num / g;
        let y = den / g;
        assert(x > 0 && y > 0) by (nonlinear_arith)
            requires
                g > 0,
                g * x == num,
                g * y == den,
                num > 0,
                den > 0,
        ;
        assert(num * y == den * x) by (nonlinear_arith)
            requires
                g * x == num,
                g * y == den,
        ;
        assert forall|d: int| d > 0 && #[trigger] divides(d, x) && divides(d, y) implies d == 1 by {
            law_display_ratio_in_lowest_terms(num, den, d);
        }
        assert(dar_text(w, h, sar) == Some(dec(x) + ":"@ + dec(y)));
    }
}

proof fn lemma_bytes_of_tag(tag: u32, a: u8, b: u8, c: u8, d: u8)
    requires
        tag == a + b * 0x100 + c * 0x1_0000 + d * 0x100_0000,
    ensures
        tag_byte(tag, 0) == a,
        tag_byte(tag, 1) == b,
        tag_byte(tag, 2) == c,
        tag_byte(tag, 3) == d,
{
    assert(tag % 256 == a);
    assert(tag / 0x100 == b + c * 0x100 + d * 0x1_0000);
    assert(tag / 0x100 % 256 == b);
    assert(tag / 0x1_0000 == c + d * 0x100);
    assert(tag / 0x1_0000 % 256 == c);
    assert(tag / 0x100_0000 == d);
}

/// A tag is written byte by byte, the low byte first: a visible character stands for itself, any
/// other byte is told as a number in brackets.
pub proof fn law_tag_is_written_byte_by_byte(tag: u32, a: u8, b: u8, c: u8, d: u8)
    requires
        tag == a + b * 0x100 + c * 0x1_0000 + d * 0x100_0000,
    ensures
        fourcc_text(tag) == tag_byte_text(a) + tag_byte_text(b) + tag_byte_text(c) + tag_byte_text(
            d,
        ),
        0x21 <= a <= 0x7e ==> tag_byte_text(a) == seq![a as char],
        a <= 0x20 || a >= 0x7f ==> tag_byte_text(a) == "["@ + dec(a as int) + "]"@,
{
    lemma_bytes_of_tag(tag, a, b, c, d);
}

/// A number in hexadecimal is written behind `0x`, in as many digits as asked for at least.
pub proof fn law_hexadecimal_is_marked(n: u32, width: nat)
    ensures
        hex_text(n, width).len() >= 2 + width,
        hex_text(n, width)[0] == '0',
        hex_text(n, width)[1] == 'x',
        hex(n as nat).len() >= width ==> hex_text(n, width) == "0x"@ + hex(n as nat),
        hex(n as nat).len() < width ==> hex_text(n, width).len() == 2 + width && forall|i: int|
            2 <= i < 2 + width ==> #[trigger] hex_text(n, width)[i] == (if i < 2 + width - hex(
                n as nat,
            ).len() {
                '0'
            } else {
                hex(n as nat)[i - 2 - (width - hex(n as nat).len())]
            }),
{
    reveal_strlit("0x");
    assert forall|i: int| 2 <= i < hex_text(n, width).len() implies #[trigger] hex_text(
        n,
        width,
    )[i] == zero_padded(hex(n as nat), width)[i - 2] by {}
    if hex(n as nat).len() < width {
        assert forall|i: int| 2 <= i < 2 + width implies #[trigger] hex_text(n, width)[i] == (if i
            < 2 + width - hex(n as nat).len() {
            '0'
        } else {
            hex(n as nat)[i - 2 - (width - hex(n as nat).len())]
        }) by {
            law_padding_adds_zeros(hex(n as nat), width, i - 2);
        }
    } else {
        assert(hex_text(n, width) =~= "0x"@ + hex(n as nat));
    }
}

/// The bits of a number are those of the number itself, up to a multiple of 2^32.
pub proof fn law_bits_are_kept(n: i32)
    ensures
        n >= 0 ==> bits_of(n) == n,
        n < 0 ==> bits_of(n) - n == 0x1_0000_0000,
{
}

/// A name is used where there is one, and a number without a name is told as unknown.
pub proof fn law_unknown_numbers_are_told(name: Option<String>, number: i64, r: String)
    requires
        call_ensures(name_or_unknown, (&name, number), r),
    ensures
        name matches Some(s) ==> r@ == s@,
        name is None ==> r@ == "unknown("@ + dec(number as int) + ")"@,
{
}

} // verus!
