//! Decimal numbers as texts: which texts are numbers, and which of them are exact in binary.

use crate::text::{
    dec, digit_value, digits, lemma_dec_is_digits, lemma_digit_round_trip, same_but_case,
    same_ignoring_case, string_of,
};
use vstd::arithmetic::div_mod::{lemma_div_denominator, lemma_div_multiples_vanish};
use vstd::prelude::*;

verus! {

/// All characters are decimal digits.
pub open spec fn is_digits(s: Seq<char>) -> bool {
    forall|i: int| 0 <= i < s.len() ==> digit_value(#[trigger] s[i]) is Some
}

/// The number of digits that a text begins with.
pub open spec fn digits_before(s: Seq<char>) -> nat
    decreases s.len(),
{
    if s.len() > 0 && digit_value(s[0]) is Some {
        1 + digits_before(s.drop_first())
    } else {
        0
    }
}

/// The number of characters before the first `e` or `E`.
pub open spec fn exponent_mark(s: Seq<char>) -> nat
    decreases s.len(),
{
    if s.len() > 0 && s[0] != 'e' && s[0] != 'E' {
        1 + exponent_mark(s.drop_first())
    } else {
        0
    }
}

/// The text without its sign, where it has one.
pub open spec fn without_sign(s: Seq<char>) -> Seq<char> {
    if s.len() > 0 && (s[0] == '+' || s[0] == '-') {
        s.drop_first()
    } else {
        s
    }
}

/// Digits with at most one point among them, and at least one digit.
pub open spec fn is_mantissa(s: Seq<char>) -> bool {
    let p = digits_before(s) as int;
    if p == s.len() {
        p >= 1
    } else {
        s[p] == '.' && is_digits(s.skip(p + 1)) && s.len() >= 2
    }
}

/// An optional sign and at least one digit.
pub open spec fn is_exponent(s: Seq<char>) -> bool {
    without_sign(s).len() >= 1 && is_digits(without_sign(s))
}

/// A mantissa, and an exponent behind `e` or `E` where there is one.
pub open spec fn is_number(s: Seq<char>) -> bool {
    let e = exponent_mark(s) as int;
    if e == s.len() {
        is_mantissa(s)
    } else {
        is_mantissa(s.take(e)) && is_exponent(s.skip(e + 1))
    }
}

/// A floating point literal: an optional sign, then a number, an infinity or a NaN.
pub open spec fn is_float(s: Seq<char>) -> bool {
    let u = without_sign(s);
    is_number(u) || same_but_case(u, "inf"@) || same_but_case(u, "infinity"@) || same_but_case(
        u,
        "nan"@,
    )
}

/// The number that decimal digits write.
pub open spec fn digits_number(s: Seq<char>) -> nat
    decreases s.len(),
{
    if s.len() == 0 {
        0
    } else {
        digits_number(s.drop_last()) * 10 + (match digit_value(s.last()) {
            Some(d) => d as nat,
            None => 0,
        })
    }
}

/// A decimal number: its digits without the point, and how many of them stand behind the point.
pub struct Decimal {
    pub negative: bool,
    pub digits: nat,
    pub places: nat,
}

/// The decimal number that a text writes, where it writes one without an exponent.
pub open spec fn decimal_of(s: Seq<char>) -> Option<Decimal> {
    let u = without_sign(s);
    let p = digits_before(u) as int;
    if !is_mantissa(u) {
        None
    } else if p == u.len() {
        Some(
            Decimal {
                negative: s[0] == '-',
                digits: digits_number(u),
                places: 0,
            },
        )
    } else {
        Some(
            Decimal {
                negative: s[0] == '-',
                digits: digits_number(u.take(p) + u.skip(p + 1)),
                places: (u.len() - p - 1) as nat,
            },
        )
    }
}

pub open spec fn power(base: nat, n: nat) -> nat
    decreases n,
{
    if n == 0 {
        1
    } else {
        base * power(base, (n - 1) as nat)
    }
}

/// The largest magnitude up to which whole numbers are exact in a double: 2^53.
pub const EXACT_LIMIT: i64 = 9_007_199_254_740_992;

/// How many places behind the point are looked at.
pub const EXACT_PLACES: usize = 15;

/// `number * factor` without its fraction, where the number and the product are exact in binary
/// floating point: the number is a whole number divided by a power of two, and that whole number
/// times the factor is not above 2^53.
pub open spec fn exact_product(number: Seq<char>, factor: int) -> Option<int> {
    match decimal_of(number) {
        Some(d) if d.places <= EXACT_PLACES && d.digits % power(5, d.places) == 0 && (d.digits
            / power(5, d.places)) * factor <= EXACT_LIMIT => {
            let magnitude = d.digits * factor / power(10, d.places) as int;
            Some(
                if d.negative {
                    -magnitude
                } else {
                    magnitude
                },
            )
        },
        _ => None,
    }
}

fn digit(c: char) -> (r: bool)
    ensures
        r == (digit_value(c) is Some),
{
    '0' <= c && c <= '9'
}

/// The characters `from..to`.
fn part(chars: &Vec<char>, from: usize, to: usize) -> (r: Vec<char>)
    requires
        from <= to <= chars@.len(),
    ensures
        r@ == chars@.subrange(from as int, to as int),
{
    let mut out: Vec<char> = Vec::new();
    let mut i: usize = from;
    while i < to
        invariant
            from <= i <= to <= chars@.len(),
            out@ == chars@.subrange(from as int, i as int),
        decreases to - i,
    {
        out.push(chars[i]);
        i = i + 1;
        proof {
            assert(out@ =~= chars@.subrange(from as int, i as int));
        }
    }
    out
}

fn all_digits(chars: &Vec<char>) -> (r: bool)
    ensures
        r == is_digits(chars@),
{
    let mut i: usize = 0;
    while i < chars.len()
        invariant
            i <= chars@.len(),
            forall|k: int| 0 <= k < i ==> digit_value(#[trigger] chars@[k]) is Some,
        decreases chars@.len() - i,
    {
        if !digit(chars[i]) {
            proof {
                assert(digit_value(chars@[i as int]) is None);
            }
            return false;
        }
        i = i + 1;
    }
    true
}

proof fn lemma_digits_before(s: Seq<char>, p: int)
    requires
        0 <= p <= s.len(),
        forall|k: int| 0 <= k < p ==> digit_value(#[trigger] s[k]) is Some,
        p < s.len() ==> digit_value(s[p]) is None,
    ensures
        digits_before(s) == p,
    decreases p,
{
    if p > 0 {
        assert(digit_value(s[0]) is Some);
        let rest = s.drop_first();
        assert forall|k: int| 0 <= k < p - 1 implies digit_value(#[trigger] rest[k]) is Some by {
            assert(digit_value(s[k + 1]) is Some);
        }
        lemma_digits_before(rest, p - 1);
    }
}

fn count_digits(chars: &Vec<char>) -> (r: usize)
    ensures
        r == digits_before(chars@),
        r <= chars@.len(),
{
    let mut i: usize = 0;
    while i < chars.len() && digit(chars[i])
        invariant
            i <= chars@.len(),
            forall|k: int| 0 <= k < i ==> digit_value(#[trigger] chars@[k]) is Some,
        decreases chars@.len() - i,
    {
        i = i + 1;
    }
    proof {
        lemma_digits_before(chars@, i as int);
    }
    i
}

proof fn lemma_exponent_mark(s: Seq<char>, p: int)
    requires
        0 <= p <= s.len(),
        forall|k: int| 0 <= k < p ==> #[trigger] s[k] != 'e' && s[k] != 'E',
        p < s.len() ==> s[p] == 'e' || s[p] == 'E',
    ensures
        exponent_mark(s) == p,
    decreases p,
{
    if p > 0 {
        assert(s[0] != 'e' && s[0] != 'E');
        let rest = s.drop_first();
        assert forall|k: int| 0 <= k < p - 1 implies #[trigger] rest[k] != 'e' && rest[k] != 'E' by {
            assert(s[k + 1] != 'e' && s[k + 1] != 'E');
        }
        lemma_exponent_mark(rest, p - 1);
    }
}

fn mantissa(chars: &Vec<char>) -> (r: bool)
    ensures
        r == is_mantissa(chars@),
{
    let len: usize = chars.len();
    let p: usize = count_digits(chars);
    if p == len {
        return p >= 1;
    }
    let tail = part(chars, p + 1, len);
    proof {
        assert(tail@ =~= chars@.skip(p + 1));
    }
    chars[p] == '.' && all_digits(&tail) && len >= 2
}

fn unsigned_part(chars: &Vec<char>) -> (r: Vec<char>)
    ensures
        r@ == without_sign(chars@),
{
    let len: usize = chars.len();
    let r = if len > 0 && (chars[0] == '+' || chars[0] == '-') {
        part(chars, 1, len)
    } else {
        part(chars, 0, len)
    };
    proof {
        assert(r@ =~= without_sign(chars@));
    }
    r
}

fn number(chars: &Vec<char>) -> (r: bool)
    ensures
        r == is_number(chars@),
{
    let len: usize = chars.len();
    let mut e: usize = 0;
    while e < len && chars[e] != 'e' && chars[e] != 'E'
        invariant
            e <= len == chars@.len(),
            forall|k: int| 0 <= k < e ==> #[trigger] chars@[k] != 'e' && chars@[k] != 'E',
        decreases len - e,
    {
        e = e + 1;
    }
    proof {
        lemma_exponent_mark(chars@, e as int);
    }
    if e == len {
        return mantissa(chars);
    }
    let head = part(chars, 0, e);
    let tail = part(chars, e + 1, len);
    let exponent = unsigned_part(&tail);
    proof {
        assert(head@ =~= chars@.take(e as int));
        assert(tail@ =~= chars@.skip(e + 1));
    }
    mantissa(&head) && exponent.len() >= 1 && all_digits(&exponent)
}

/// Whether a text is a floating point literal.
pub fn float_literal(chars: &Vec<char>) -> (r: bool)
    ensures
        r == is_float(chars@),
{
    let u = unsigned_part(chars);
    let text = string_of(&u, 0, u.len());
    proof {
        assert(text@ =~= u@);
    }
    number(&u) || same_ignoring_case(text.as_str(), "inf") || same_ignoring_case(
        text.as_str(),
        "infinity",
    ) || same_ignoring_case(text.as_str(), "nan")
}

/// Beyond this, no number of the looked-at places is exact.
pub const DIGITS_LIMIT: u128 = 1_000_000_000_000_000_000_000_000_000_000;

/// The number that digits write; `None` where it is above the limit.
fn digits_value(chars: &Vec<char>) -> (r: Option<u128>)
    requires
        is_digits(chars@),
    ensures
        match r {
            Some(v) => v == digits_number(chars@) && v <= DIGITS_LIMIT,
            None => digits_number(chars@) > DIGITS_LIMIT,
        },
{
    let mut v: u128 = 0;
    let mut i: usize = 0;
    proof {
        assert(chars@.take(0) =~= Seq::<char>::empty());
    }
    while i < chars.len()
        invariant
            is_digits(chars@),
            i <= chars@.len(),
            v == digits_number(chars@.take(i as int)),
            v <= DIGITS_LIMIT,
        decreases chars@.len() - i,
    {
        let c = chars[i];
        proof {
            assert(digit_value(chars@[i as int]) is Some);
            assert(chars@.take(i + 1).drop_last() =~= chars@.take(i as int));
            assert(chars@.take(i + 1).last() == c);
        }
        v = v * 10 + (c as u32 - '0' as u32) as u128;
        i = i + 1;
        if v > DIGITS_LIMIT {
            proof {
                lemma_digits_number_grows(chars@, i as int);
            }
            return None;
        }
    }
    proof {
        assert(chars@.take(i as int) =~= chars@);
    }
    Some(v)
}

proof fn lemma_digits_number_grows(s: Seq<char>, i: int)
    requires
        0 <= i <= s.len(),
    ensures
        digits_number(s.take(i)) <= digits_number(s),
    decreases s.len() - i,
{
    if i == s.len() {
        assert(s.take(i) =~= s);
    } else {
        lemma_digits_number_grows(s, i + 1);
        assert(s.take(i + 1).drop_last() =~= s.take(i));
    }
}

proof fn lemma_power_ten(n: nat)
    ensures
        power(10, n) == power(5, n) * power(2, n),
        power(5, n) >= 1,
        power(2, n) >= 1,
    decreases n,
{
    if n > 0 {
        let m = (n - 1) as nat;
        lemma_power_ten(m);
        let (f, t) = (power(5, m) as int, power(2, m) as int);
        let (g, u) = (power(5, n) as int, power(2, n) as int);
        assert(power(10, m) == f * t);
        assert(10 * (f * t) == g * u) by (nonlinear_arith)
            requires
                g == 5 * f,
                u == 2 * t,
        ;
    } else {
        let (g, u) = (power(5, n) as int, power(2, n) as int);
        assert(g * u == 1) by (nonlinear_arith)
            requires
                g == 1,
                u == 1,
        ;
    }
}

proof fn lemma_exact_quotient(m: nat, factor: int, n: nat)
    requires
        m % power(5, n) == 0,
        factor >= 0,
    ensures
        m * factor / power(10, n) as int == (m / power(5, n)) * factor / power(2, n) as int,
{
    lemma_power_ten(n);
    let five = power(5, n) as int;
    let two = power(2, n) as int;
    let q = m as int / five;
    vstd::arithmetic::div_mod::lemma_fundamental_div_mod(m as int, five);
    assert(m * factor == five * (q * factor)) by (nonlinear_arith)
        requires
            m == five * q,
    ;
    assert(m * factor >= 0) by (nonlinear_arith)
        requires
            factor >= 0,
    ;
    lemma_div_denominator(m * factor, five, two);
    lemma_div_multiples_vanish(q * factor, five);
}

fn small_power(base: u128, n: usize) -> (r: u128)
    requires
        base == 2 || base == 5,
        n <= EXACT_PLACES,
    ensures
        r == power(base as nat, n as nat),
        1 <= r <= 30_517_578_125,
{
    let mut r: u128 = 1;
    let mut i: usize = 0;
    proof {
        lemma_small_powers();
    }
    while i < n
        invariant
            base == 2 || base == 5,
            i <= n <= EXACT_PLACES,
            r == power(base as nat, i as nat),
            r >= 1,
            forall|k: nat| k <= EXACT_PLACES ==> #[trigger] power(2, k) <= 30_517_578_125,
            forall|k: nat| k <= EXACT_PLACES ==> #[trigger] power(5, k) <= 30_517_578_125,
        decreases n - i,
    {
        proof {
            assert(power(base as nat, i as nat) <= 30_517_578_125);
            assert(power(base as nat, (i + 1) as nat) == base as nat * power(base as nat, i as nat));
        }
        r = r * base;
        i = i + 1;
    }
    proof {
        assert(power(base as nat, n as nat) <= 30_517_578_125);
    }
    r
}

proof fn lemma_small_powers()
    ensures
        forall|k: nat| k <= EXACT_PLACES ==> #[trigger] power(2, k) <= 30_517_578_125,
        forall|k: nat| k <= EXACT_PLACES ==> #[trigger] power(5, k) <= 30_517_578_125,
{
    reveal_with_fuel(power, 16);
    assert(power(5, 15) == 30_517_578_125);
    assert forall|k: nat| k <= EXACT_PLACES implies #[trigger] power(2, k) <= 30_517_578_125 by {
        lemma_power_monotone(2, k, 15);
    }
    assert forall|k: nat| k <= EXACT_PLACES implies #[trigger] power(5, k) <= 30_517_578_125 by {
        lemma_power_monotone(5, k, 15);
    }
}

proof fn lemma_power_monotone(base: nat, i: nat, j: nat)
    requires
        base >= 1,
        i <= j,
    ensures
        power(base, i) <= power(base, j),
    decreases j,
{
    if i < j {
        lemma_power_monotone(base, i, (j - 1) as nat);
        let p = power(base, (j - 1) as nat) as int;
        assert(p <= base * p) by (nonlinear_arith)
            requires
                base >= 1,
                p >= 0,
        ;
    }
}

/// `number * factor` without its fraction, where the number and the product are exact in binary
/// floating point.
pub fn multiply_exactly(chars: &Vec<char>, factor: i64) -> (r: Option<i64>)
    requires
        1 <= factor <= 1_000_000,
    ensures
        (match r {
            Some(v) => Some(v as int),
            None => None,
        }) == exact_product(chars@, factor as int),
{
    let u = unsigned_part(chars);
    if !mantissa(&u) {
        return None;
    }
    let len: usize = u.len();
    let p: usize = count_digits(&u);
    let negative = chars[0] == '-';
    let mut digits = part(&u, 0, p);
    let places: usize = if p == len {
        0
    } else {
        len - p - 1
    };
    if p < len {
        let mut tail = part(&u, p + 1, len);
        proof {
            assert(digits@ =~= u@.take(p as int));
            assert(tail@ =~= u@.skip(p + 1));
        }
        digits.append(&mut tail);
    } else {
        proof {
            assert(digits@ =~= u@);
        }
    }
    proof {
        lemma_prefix_is_digits(u@);
        assert(is_digits(digits@));
    }
    if places > EXACT_PLACES {
        return None;
    }
    let ghost f = power(5, places as nat);
    let five: u128 = small_power(5, places);
    let two: u128 = small_power(2, places);
    let m: u128 = match digits_value(&digits) {
        Some(m) => m,
        None => {
            proof {
                let big = digits_number(digits@);
                assert(big / f > 9_007_199_254_740_992) by (nonlinear_arith)
                    requires
                        big > 1_000_000_000_000_000_000_000_000_000_000,
                        1 <= f <= 30_517_578_125,
                ;
                assert((big / f) * factor > 9_007_199_254_740_992) by (nonlinear_arith)
                    requires
                        big / f > 9_007_199_254_740_992,
                        factor >= 1,
                ;
            }
            return None;
        },
    };
    if m % five != 0 {
        return None;
    }
    let q: u128 = m / five;
    proof {
        assert(q <= m) by (nonlinear_arith)
            requires
                q == m / five,
                five >= 1,
        ;
        assert(0 <= q * factor <= 1_000_000_000_000_000_000_000_000_000_000 * 1_000_000)
            by (nonlinear_arith)
            requires
                0 <= q <= 1_000_000_000_000_000_000_000_000_000_000,
                0 <= factor <= 1_000_000,
        ;
    }
    let product: u128 = q * (factor as u128);
    if product > EXACT_LIMIT as u128 {
        return None;
    }
    let magnitude: u128 = product / two;
    proof {
        lemma_exact_quotient(m as nat, factor as int, places as nat);
        assert(magnitude <= product) by (nonlinear_arith)
            requires
                magnitude == product / two,
                two >= 1,
        ;
    }
    if negative {
        Some(-(magnitude as i64))
    } else {
        Some(magnitude as i64)
    }
}

proof fn lemma_prefix_is_digits(s: Seq<char>)
    ensures
        digits_before(s) <= s.len(),
        is_digits(s.take(digits_before(s) as int)),
        digits_before(s) < s.len() ==> digit_value(s[digits_before(s) as int]) is None,
    decreases s.len(),
{
    if s.len() > 0 && digit_value(s[0]) is Some {
        let rest = s.drop_first();
        lemma_prefix_is_digits(rest);
        let p = digits_before(rest) as int;
        assert forall|i: int| 0 <= i < p + 1 implies digit_value(#[trigger] s.take(p + 1)[i]) is Some by {
            if i > 0 {
                assert(digit_value(rest.take(p)[i - 1]) is Some);
                assert(rest.take(p)[i - 1] == s[i]);
            }
        }
    }
}

/// The digits of a written number write that number.
pub proof fn lemma_digits_number_of_dec(n: nat)
    ensures
        digits_number(digits(n, 10)) == n,
    decreases n,
{
    let s = digits(n, 10);
    if n < 10 {
        lemma_digit_round_trip(n as int);
        assert(s.drop_last() =~= Seq::<char>::empty());
        reveal_with_fuel(digits_number, 2);
    } else {
        lemma_digits_number_of_dec(n / 10);
        lemma_digit_round_trip((n % 10) as int);
        assert(s.drop_last() =~= digits(n / 10, 10));
    }
}

/// Digits, a point and digits are a decimal number, and a floating point literal.
pub proof fn lemma_fraction(whole: Seq<char>, fraction: Seq<char>)
    requires
        is_digits(whole),
        is_digits(fraction),
        whole.len() + fraction.len() >= 1,
    ensures
        ({
            let s = whole + seq!['.'] + fraction;
            &&& without_sign(s) == s
            &&& digits_before(s) == whole.len()
            &&& is_mantissa(s)
            &&& is_float(s)
            &&& decimal_of(s) == Some(
                Decimal {
                    negative: false,
                    digits: digits_number(whole + fraction),
                    places: fraction.len(),
                },
            )
        }),
{
    let s = whole + seq!['.'] + fraction;
    let p = whole.len() as int;
    assert forall|k: int| 0 <= k < p implies digit_value(#[trigger] s[k]) is Some by {
        assert(digit_value(whole[k]) is Some);
    }
    assert(s[p] == '.');
    if p > 0 {
        assert(digit_value(whole[0]) is Some);
    }
    lemma_digits_before(s, p);
    assert(s.skip(p + 1) =~= fraction);
    assert(s.take(p) =~= whole);
    assert forall|k: int| 0 <= k < s.len() implies #[trigger] s[k] != 'e' && s[k] != 'E' by {
        if k < p {
            assert(digit_value(whole[k]) is Some);
        } else if k > p {
            assert(digit_value(fraction[k - p - 1]) is Some);
        }
    }
    lemma_exponent_mark(s, s.len() as int);
}

/// Digits are a decimal number, and a floating point literal.
pub proof fn lemma_whole(s: Seq<char>)
    requires
        is_digits(s),
        s.len() >= 1,
    ensures
        without_sign(s) == s,
        is_float(s),
        decimal_of(s) == Some(Decimal { negative: false, digits: digits_number(s), places: 0 }),
{
    assert(digit_value(s[0]) is Some);
    lemma_digits_before(s, s.len() as int);
    assert forall|k: int| 0 <= k < s.len() implies #[trigger] s[k] != 'e' && s[k] != 'E' by {
        assert(digit_value(s[k]) is Some);
    }
    lemma_exponent_mark(s, s.len() as int);
}

/// The product of a whole number and a factor is exact as long as it is not above 2^53.
pub proof fn lemma_whole_product(n: nat, factor: int)
    requires
        factor >= 1,
        n * factor <= EXACT_LIMIT,
    ensures
        exact_product(dec(n as int), factor) == Some(n * factor),
        is_float(dec(n as int)),
{
    lemma_dec_is_digits(n);
    lemma_whole(dec(n as int));
    lemma_digits_number_of_dec(n);
    assert(power(5, 0) == 1 && power(10, 0) == 1);
    assert(n % 1 == 0 && n / 1 == n);
    assert((n * factor) / 1 == n * factor);
}

/// The product of a number and a half with an even factor is exact as long as it stays small.
pub proof fn lemma_half_product(n: nat, factor: int)
    requires
        factor >= 2,
        factor % 2 == 0,
        (2 * n + 1) * factor <= EXACT_LIMIT,
    ensures
        ({
            let s = dec(n as int) + seq!['.'] + seq!['5'];
            &&& exact_product(s, factor) == Some(n * factor + factor / 2)
            &&& is_float(s)
        }),
{
    let whole = dec(n as int);
    lemma_dec_is_digits(n);
    lemma_digits_number_of_dec(n);
    lemma_fraction(whole, seq!['5']);
    let all = whole + seq!['5'];
    assert(all.drop_last() =~= whole);
    assert(all.last() == '5');
    let m = digits_number(all);
    assert(m == n * 10 + 5);
    reveal_with_fuel(power, 2);
    assert(power(5, 1) == 5 && power(10, 1) == 10);
    assert(m % 5 == 0 && m / 5 == 2 * n + 1);
    let h = factor / 2;
    assert(m * factor == 10 * (n * factor + h)) by (nonlinear_arith)
        requires
            m == n * 10 + 5,
            factor == 2 * h,
    ;
}

/// An exact product is the number times the factor, cut off at the point, with the sign of the
/// number.
pub proof fn law_product_is_cut_at_the_point(number: Seq<char>, factor: int, d: Decimal)
    requires
        decimal_of(number) == Some(d),
        factor >= 1,
    ensures
        exact_product(number, factor) matches Some(v) ==> {
            let m: int = if d.negative {
                -v
            } else {
                v
            };
            m >= 0 && m * power(10, d.places) <= d.digits * factor < (m + 1) * power(10, d.places)
        },
{
    if exact_product(number, factor) is Some {
        let p = power(10, d.places) as int;
        let x = d.digits * factor;
        lemma_power_positive(10, d.places);
        let q = x / p;
        assert(0 <= x) by (nonlinear_arith)
            requires
                x == d.digits * factor,
                d.digits >= 0,
                factor >= 1,
        ;
        assert(0 <= q && q * p <= x < (q + 1) * p) by (nonlinear_arith)
            requires
                q == x / p,
                0 <= x,
                p > 0,
        ;
    }
}

proof fn lemma_power_positive(base: nat, n: nat)
    requires
        base > 0,
    ensures
        power(base, n) > 0,
    decreases n,
{
    if n > 0 {
        lemma_power_positive(base, (n - 1) as nat);
        let p = power(base, (n - 1) as nat);
        assert(base * p > 0) by (nonlinear_arith)
            requires
                base > 0,
                p > 0,
        ;
    }
}

/// A product is exact just where no digit behind the point is lost in binary, and where it stays
/// within 2^53.
pub proof fn law_exact_products_are_small(number: Seq<char>, factor: int, d: Decimal)
    requires
        decimal_of(number) == Some(d),
    ensures
        exact_product(number, factor) is Some <==> d.places <= 15 && d.digits % power(5, d.places)
            == 0 && (d.digits / power(5, d.places)) * factor <= 9_007_199_254_740_992,
{
}

/// A power multiplies its base once for each step.
pub proof fn law_power_steps(base: nat, n: nat)
    ensures
        power(base, 0) == 1,
        power(base, n + 1) == base * power(base, n),
{
}

/// A sign changes neither the digits of a number nor whether it is one; a minus sign makes it
/// negative.
pub proof fn law_sign_of_a_number(s: Seq<char>)
    requires
        s.len() > 0,
        s[0] != '+',
        s[0] != '-',
    ensures
        is_float(seq!['-'] + s) == is_float(s),
        is_float(seq!['+'] + s) == is_float(s),
        decimal_of(s) is Some <==> decimal_of(seq!['-'] + s) is Some,
        decimal_of(s) is Some <==> decimal_of(seq!['+'] + s) is Some,
        decimal_of(s) matches Some(d) ==> !d.negative && decimal_of(seq!['+'] + s) == Some(d)
            && decimal_of(seq!['-'] + s) == Some(
            Decimal { negative: true, digits: d.digits, places: d.places },
        ),
{
    assert((seq!['-'] + s).drop_first() =~= s);
    assert((seq!['+'] + s).drop_first() =~= s);
}

proof fn lemma_mark_within(s: Seq<char>)
    ensures
        exponent_mark(s) <= s.len(),
    decreases s.len(),
{
    if s.len() > 0 && s[0] != 'e' && s[0] != 'E' {
        lemma_mark_within(s.drop_first());
    }
}

/// Digits with an exponent behind `e` or `E` are a floating point literal, and a text that is empty
/// or begins with another letter is none.
pub proof fn law_exponents_are_read(whole: Seq<char>, exponent: Seq<char>, mark: char, s: Seq<char>)
    requires
        is_digits(whole),
        is_digits(exponent),
        whole.len() >= 1,
        exponent.len() >= 1,
        mark == 'e' || mark == 'E',
    ensures
        is_float(whole + seq![mark] + exponent),
        is_float(whole + seq![mark] + (seq!['-'] + exponent)),
        !is_float(whole + seq![mark]),
        !is_float(Seq::empty()),
        s.len() > 0 && ('a' <= s[0] <= 'z' || 'A' <= s[0] <= 'Z') && s[0] != 'i' && s[0] != 'I'
            && s[0] != 'n' && s[0] != 'N' ==> !is_float(s),
{
    let p = whole.len() as int;
    assert(digit_value(whole[0]) is Some);
    let a = whole + seq![mark] + exponent;
    let b = whole + seq![mark] + (seq!['-'] + exponent);
    let c = whole + seq![mark];
    assert forall|k: int| 0 <= k < p implies #[trigger] whole[k] != 'e' && whole[k] != 'E' by {
        assert(digit_value(whole[k]) is Some);
    }
    assert(digit_value(exponent[0]) is Some);
    lemma_digits_before(whole, p);
    assert(a.take(p) =~= whole && b.take(p) =~= whole && c.take(p) =~= whole);
    assert(a[p] == mark && b[p] == mark && c[p] == mark);
    lemma_exponent_mark(a, p);
    lemma_exponent_mark(b, p);
    lemma_exponent_mark(c, p);
    assert(a.skip(p + 1) =~= exponent);
    assert(b.skip(p + 1) =~= seq!['-'] + exponent);
    assert((seq!['-'] + exponent).drop_first() =~= exponent);
    assert(c.skip(p + 1) =~= Seq::<char>::empty());
    reveal_strlit("inf");
    reveal_strlit("infinity");
    reveal_strlit("nan");
    assert("inf"@[0] == 'i' && "infinity"@[0] == 'i' && "nan"@[0] == 'n');
    assert("inf"@.len() == 3 && "infinity"@.len() == 8 && "nan"@.len() == 3);
    if s.len() > 0 && ('a' <= s[0] <= 'z' || 'A' <= s[0] <= 'Z') && s[0] != 'i' && s[0] != 'I'
        && s[0] != 'n' && s[0] != 'N' {
        assert(digit_value(s[0]) is None);
        assert(digits_before(s) == 0);
        lemma_mark_within(s);
        let e = exponent_mark(s) as int;
        if e > 0 {
            assert(s.take(e)[0] == s[0]);
            assert(digits_before(s.take(e)) == 0);
        }
    }
}

} // verus!
