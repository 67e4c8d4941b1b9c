//! Text as sequences of characters: searching, splitting, number formatting and parsing.

use vstd::prelude::*;
use vstd::utf8::encode_utf8;

verus! {

/// `String::push` appends one character to the end of the string.
pub assume_specification[ String::push ](s: &mut String, c: char)
    ensures
        final(s)@ == old(s)@.push(c),
;

/// The characters of `s`, in order.
pub fn chars_of(s: &str) -> (r: Vec<char>)
    ensures
        r@ == s@,
{
    let mut out: Vec<char> = Vec::new();
    for c in it: s.chars()
        invariant
            it.seq() == s@,
            out@ == s@.take(it.index() as int),
    {
        out.push(c);
    }
    out
}

/// The characters `from..to` as a string.
pub fn string_of(chars: &Vec<char>, from: usize, to: usize) -> (r: String)
    requires
        from <= to <= chars@.len(),
    ensures
        r@ == chars@.subrange(from as int, to as int),
{
    let mut out = String::new();
    let mut i: usize = from;
    while i < to
        invariant
            from <= i <= to <= chars@.len(),
            out@ == chars@.subrange(from as int, i as int),
        decreases to - i,
    {
        out.push(chars[i]);
        i = i + 1;
        proof {
            assert(chars@.subrange(from as int, i as int) =~= chars@.subrange(
                from as int,
                i - 1,
            ).push(chars@[i - 1]));
        }
    }
    out
}

/// Whether two strings hold the same characters.
pub fn same(a: &str, b: &str) -> (r: bool)
    ensures
        r == (a@ == b@),
{
    broadcast use vstd::utf8::encode_utf8_decode_utf8;

    let x: &[u8] = a.as_bytes();
    let y: &[u8] = b.as_bytes();
    if x.len() != y.len() {
        return false;
    }
    let mut i: usize = 0;
    while i < x.len()
        invariant
            i <= x@.len(),
            x@.len() == y@.len(),
            x@ == encode_utf8(a@),
            y@ == encode_utf8(b@),
            forall|k: int| 0 <= k < i ==> x@[k] == y@[k],
        decreases x@.len() - i,
    {
        if x[i] != y[i] {
            return false;
        }
        i = i + 1;
    }
    proof {
        assert(x@ =~= y@);
        assert(vstd::utf8::decode_utf8(encode_utf8(a@)) == a@);
        assert(vstd::utf8::decode_utf8(encode_utf8(b@)) == b@);
    }
    true
}

/// The lower case of an ASCII letter; any other character as it is.
pub open spec fn ascii_lower(c: char) -> char {
    if 'A' <= c <= 'Z' {
        (c as u8 + 32) as char
    } else {
        c
    }
}

/// The two texts agree but for the case of ASCII letters.
pub open spec fn same_but_case(a: Seq<char>, b: Seq<char>) -> bool {
    a.len() == b.len() && forall|i: int|
        0 <= i < a.len() ==> ascii_lower(#[trigger] a[i]) == ascii_lower(b[i])
}

fn lower(c: char) -> (r: char)
    ensures
        r == ascii_lower(c),
{
    if 'A' <= c && c <= 'Z' {
        (c as u8 + 32) as char
    } else {
        c
    }
}

/// Whether two texts agree but for the case of ASCII letters.
pub fn same_ignoring_case(a: &str, b: &str) -> (r: bool)
    ensures
        r == same_but_case(a@, b@),
{
    let x = chars_of(a);
    let y = chars_of(b);
    if x.len() != y.len() {
        return false;
    }
    let mut i: usize = 0;
    while i < x.len()
        invariant
            x@ == a@,
            y@ == b@,
            x@.len() == y@.len(),
            i <= x@.len(),
            forall|k: int| 0 <= k < i ==> ascii_lower(#[trigger] a@[k]) == ascii_lower(b@[k]),
        decreases x@.len() - i,
    {
        if lower(x[i]) != lower(y[i]) {
            proof {
                assert(ascii_lower(a@[i as int]) != ascii_lower(b@[i as int]));
            }
            return false;
        }
        i = i + 1;
    }
    true
}

/// Whether `text` is one of `names`.
pub open spec fn one_of(text: Seq<char>, names: Seq<Seq<char>>) -> bool {
    exists|i: int| 0 <= i < names.len() && #[trigger] names[i] == text
}

/// Whether `part` stands in `whole` at position `at`.
pub open spec fn occurs_at(whole: Seq<char>, part: Seq<char>, at: int) -> bool {
    &&& 0 <= at <= whole.len() - part.len()
    &&& whole.subrange(at, at + part.len()) == part
}

/// Whether `part` stands anywhere in `whole`.
pub open spec fn contains_text(whole: Seq<char>, part: Seq<char>) -> bool {
    exists|at: int| occurs_at(whole, part, at)
}

/// Whether `whole` begins with `prefix`.
pub open spec fn starts_with_text(whole: Seq<char>, prefix: Seq<char>) -> bool {
    occurs_at(whole, prefix, 0)
}

fn occurs_here(whole: &Vec<char>, part: &Vec<char>, at: usize) -> (r: bool)
    requires
        at + part@.len() <= whole@.len(),
    ensures
        r == occurs_at(whole@, part@, at as int),
{
    let mut k: usize = 0;
    while k < part.len()
        invariant
            k <= part@.len(),
            at + part@.len() <= whole.len(),
            forall|j: int| 0 <= j < k ==> whole@[at + j] == part@[j],
        decreases part@.len() - k,
    {
        if whole[at + k] != part[k] {
            proof {
                assert(whole@.subrange(at as int, at + part@.len())[k as int] != part@[k as int]);
            }
            return false;
        }
        k = k + 1;
    }
    proof {
        assert(whole@.subrange(at as int, at + part@.len()) =~= part@);
    }
    true
}

/// Whether `part` stands anywhere in `whole`.
pub fn contains(whole: &str, part: &str) -> (r: bool)
    ensures
        r == contains_text(whole@, part@),
{
    let w = chars_of(whole);
    let p = chars_of(part);
    if p.len() > w.len() {
        return false;
    }
    let last: usize = w.len() - p.len();
    let mut at: usize = 0;
    while at <= last
        invariant
            w@ == whole@,
            p@ == part@,
            last == w@.len() - p@.len(),
            at <= last + 1,
            forall|i: int| 0 <= i < at ==> !occurs_at(whole@, part@, i),
        decreases last + 1 - at,
    {
        if occurs_here(&w, &p, at) {
            return true;
        }
        if at == last {
            return false;
        }
        at = at + 1;
    }
    false
}

/// Whether `whole` begins with `prefix`.
pub fn starts_with(whole: &str, prefix: &str) -> (r: bool)
    ensures
        r == starts_with_text(whole@, prefix@),
{
    let w = chars_of(whole);
    let p = chars_of(prefix);
    if p.len() > w.len() {
        return false;
    }
    occurs_here(&w, &p, 0)
}

/// The pieces of `s` between the occurrences of `sep`; there is one more piece than separators.
pub open spec fn split_text(s: Seq<char>, sep: char) -> Seq<Seq<char>>
    decreases s.len(),
{
    if s.len() == 0 {
        seq![Seq::<char>::empty()]
    } else {
        let before = split_text(s.drop_last(), sep);
        if s.last() == sep {
            before.push(Seq::empty())
        } else {
            before.drop_last().push(before.last().push(s.last()))
        }
    }
}

/// The pieces, with `sep` between each two neighbours.
pub open spec fn join_text(parts: Seq<Seq<char>>, sep: Seq<char>) -> Seq<char>
    decreases parts.len(),
{
    if parts.len() == 0 {
        Seq::empty()
    } else if parts.len() == 1 {
        parts[0]
    } else {
        join_text(parts.drop_last(), sep) + sep + parts.last()
    }
}

/// The views of a list of strings.
pub open spec fn texts(v: Seq<String>) -> Seq<Seq<char>> {
    v.map_values(|s: String| s@)
}

pub proof fn lemma_split_nonempty(s: Seq<char>, sep: char)
    ensures
        split_text(s, sep).len() >= 1,
    decreases s.len(),
{
    if s.len() > 0 {
        lemma_split_nonempty(s.drop_last(), sep);
    }
}

/// Joining the pieces of a split with the same separator gives the text back.
pub proof fn lemma_join_split(s: Seq<char>, sep: char)
    ensures
        join_text(split_text(s, sep), seq![sep]) == s,
    decreases s.len(),
{
    let parts = split_text(s, sep);
    if s.len() == 0 {
        assert(parts.len() == 1);
    } else {
        let before = split_text(s.drop_last(), sep);
        lemma_join_split(s.drop_last(), sep);
        lemma_split_nonempty(s.drop_last(), sep);
        if s.last() == sep {
            assert(parts.drop_last() =~= before);
            assert(join_text(parts, seq![sep]) =~= s.drop_last() + seq![sep]);
            assert(s =~= s.drop_last() + seq![sep]);
        } else {
            assert(parts.drop_last() =~= before.drop_last());
            if before.len() == 1 {
                assert(join_text(parts, seq![sep]) =~= before[0].push(s.last()));
            } else {
                assert(join_text(parts, seq![sep]) =~= join_text(before, seq![sep]).push(s.last()));
            }
            assert(s =~= s.drop_last().push(s.last()));
        }
    }
}

/// No piece of a split holds the separator.
pub proof fn lemma_split_pieces(s: Seq<char>, sep: char, i: int)
    requires
        0 <= i < split_text(s, sep).len(),
    ensures
        !split_text(s, sep)[i].contains(sep),
    decreases s.len(),
{
    if s.len() > 0 {
        let before = split_text(s.drop_last(), sep);
        lemma_split_nonempty(s.drop_last(), sep);
        if i < before.len() {
            lemma_split_pieces(s.drop_last(), sep, i);
            if s.last() != sep && i == before.len() - 1 {
                let piece = before.last().push(s.last());
                assert forall|k: int| 0 <= k < piece.len() implies piece[k] != sep by {
                    if k < before.last().len() {
                        assert(before.last()[k] != sep);
                    }
                }
            }
        }
    }
}

proof fn lemma_split_after_sep(a: Seq<char>, b: Seq<char>, sep: char)
    requires
        !b.contains(sep),
    ensures
        split_text(a.push(sep) + b, sep) == split_text(a, sep).push(b),
    decreases b.len(),
{
    let whole = a.push(sep) + b;
    if b.len() == 0 {
        assert(whole =~= a.push(sep));
        assert(whole.drop_last() =~= a);
        assert(b =~= Seq::<char>::empty());
    } else {
        let rest = b.drop_last();
        assert forall|k: int| 0 <= k < rest.len() implies rest[k] != sep by {
            assert(b[k] != sep);
        }
        lemma_split_after_sep(a, rest, sep);
        assert(whole.drop_last() =~= a.push(sep) + rest);
        assert(b[b.len() - 1] != sep);
        assert(split_text(a, sep).push(rest).drop_last() =~= split_text(a, sep));
        assert(rest.push(b.last()) =~= b);
    }
}

proof fn lemma_split_without_sep(b: Seq<char>, sep: char)
    requires
        !b.contains(sep),
    ensures
        split_text(b, sep) == seq![b],
    decreases b.len(),
{
    if b.len() == 0 {
        assert(b =~= Seq::<char>::empty());
    } else {
        let rest = b.drop_last();
        assert forall|k: int| 0 <= k < rest.len() implies rest[k] != sep by {
            assert(b[k] != sep);
        }
        lemma_split_without_sep(rest, sep);
        assert(b[b.len() - 1] != sep);
        assert(rest.push(b.last()) =~= b);
        assert(split_text(b, sep) =~= seq![b]);
    }
}

/// Splitting joined pieces that hold no separator gives the pieces back.
pub proof fn lemma_split_join(parts: Seq<Seq<char>>, sep: char)
    requires
        parts.len() >= 1,
        forall|i: int| 0 <= i < parts.len() ==> !(#[trigger] parts[i]).contains(sep),
    ensures
        split_text(join_text(parts, seq![sep]), sep) == parts,
    decreases parts.len(),
{
    if parts.len() == 1 {
        lemma_split_without_sep(parts[0], sep);
        assert(parts =~= seq![parts[0]]);
    } else {
        let before = parts.drop_last();
        assert forall|i: int| 0 <= i < before.len() implies !(#[trigger] before[i]).contains(
            sep,
        ) by {
            assert(before[i] == parts[i]);
        }
        lemma_split_join(before, sep);
        let a = join_text(before, seq![sep]);
        assert(a + seq![sep] + parts.last() =~= a.push(sep) + parts.last());
        assert(!parts[parts.len() - 1].contains(sep));
        lemma_split_after_sep(a, parts.last(), sep);
        assert(before.push(parts.last()) =~= parts);
    }
}

/// Splits `s` at every `sep`.
pub fn split(s: &str, sep: char) -> (r: Vec<String>)
    ensures
        texts(r@) == split_text(s@, sep),
{
    let chars = chars_of(s);
    let mut out: Vec<String> = Vec::new();
    let mut piece = String::new();
    let mut i: usize = 0;
    proof {
        assert(texts(out@).push(piece@) =~= seq![Seq::<char>::empty()]);
        assert(s@.take(0) =~= Seq::<char>::empty());
    }
    while i < chars.len()
        invariant
            chars@ == s@,
            i <= chars@.len(),
            texts(out@).push(piece@) == split_text(s@.take(i as int), sep),
        decreases chars@.len() - i,
    {
        let c = chars[i];
        let ghost done = out@;
        let ghost word = piece@;
        proof {
            assert(s@.take(i + 1).drop_last() =~= s@.take(i as int));
            assert(s@.take(i + 1).last() == c);
            assert(texts(done).push(word).drop_last() =~= texts(done));
        }
        if c == sep {
            out.push(piece);
            piece = String::new();
            proof {
                assert(texts(out@) =~= texts(done).push(word));
            }
        } else {
            piece.push(c);
        }
        i = i + 1;
    }
    let ghost done = out@;
    let ghost word = piece@;
    out.push(piece);
    proof {
        assert(texts(out@) =~= texts(done).push(word));
        assert(s@.take(s@.len() as int) =~= s@);
    }
    out
}

/// Joins `parts` with `sep` between neighbours.
pub fn join(parts: &Vec<String>, sep: &str) -> (r: String)
    ensures
        r@ == join_text(texts(parts@), sep@),
{
    let mut out = String::new();
    let mut i: usize = 0;
    while i < parts.len()
        invariant
            i <= parts@.len(),
            out@ == join_text(texts(parts@).take(i as int), sep@),
        decreases parts@.len() - i,
    {
        proof {
            let upto = texts(parts@).take(i + 1);
            assert(upto.drop_last() =~= texts(parts@).take(i as int));
            assert(upto.last() == parts@[i as int]@);
        }
        if i > 0 {
            out.append(sep);
        }
        out.append(parts[i].as_str());
        proof {
            assert(out@ =~= join_text(texts(parts@).take(i + 1), sep@));
        }
        i = i + 1;
    }
    proof {
        assert(texts(parts@).take(parts@.len() as int) =~= texts(parts@));
    }
    out
}

/// The characters with the Unicode property White_Space.
pub open spec fn is_space(c: char) -> bool {
    ||| '\u{9}' <= c <= '\u{d}'
    ||| c == '\u{20}' || c == '\u{85}' || c == '\u{a0}' || c == '\u{1680}'
    ||| '\u{2000}' <= c <= '\u{200a}'
    ||| c == '\u{2028}' || c == '\u{2029}' || c == '\u{202f}' || c == '\u{205f}' || c == '\u{3000}'
}

fn space(c: char) -> (r: bool)
    ensures
        r == is_space(c),
{
    ('\u{9}' <= c && c <= '\u{d}') || c == '\u{20}' || c == '\u{85}' || c == '\u{a0}' || c
        == '\u{1680}' || ('\u{2000}' <= c && c <= '\u{200a}') || c == '\u{2028}' || c == '\u{2029}'
        || c == '\u{202f}' || c == '\u{205f}' || c == '\u{3000}'
}

pub open spec fn trim_start_text(s: Seq<char>) -> Seq<char>
    decreases s.len(),
{
    if s.len() > 0 && is_space(s[0]) {
        trim_start_text(s.drop_first())
    } else {
        s
    }
}

pub open spec fn trim_end_text(s: Seq<char>) -> Seq<char>
    decreases s.len(),
{
    if s.len() > 0 && is_space(s.last()) {
        trim_end_text(s.drop_last())
    } else {
        s
    }
}

/// `s` without the white space at its two ends.
pub open spec fn trim_text(s: Seq<char>) -> Seq<char> {
    trim_end_text(trim_start_text(s))
}

/// Removes the white space at the two ends of `s`.
pub fn trim(s: &str) -> (r: String)
    ensures
        r@ == trim_text(s@),
{
    let chars = chars_of(s);
    let mut from: usize = 0;
    proof {
        assert(s@.subrange(0, s@.len() as int) =~= s@);
    }
    while from < chars.len() && space(chars[from])
        invariant
            chars@ == s@,
            from <= chars@.len(),
            trim_start_text(s@) == trim_start_text(s@.subrange(from as int, s@.len() as int)),
        decreases chars@.len() - from,
    {
        proof {
            assert(s@.subrange(from as int, s@.len() as int).drop_first() =~= s@.subrange(
                from + 1,
                s@.len() as int,
            ));
        }
        from = from + 1;
    }
    let mut to: usize = chars.len();
    while to > from && space(chars[to - 1])
        invariant
            chars@ == s@,
            from <= to <= chars@.len(),
            trim_text(s@) == trim_end_text(s@.subrange(from as int, to as int)),
        decreases to - from,
    {
        proof {
            assert(s@.subrange(from as int, to as int).drop_last() =~= s@.subrange(
                from as int,
                to - 1,
            ));
        }
        to = to - 1;
    }
    string_of(&chars, from, to)
}

/// The character of one digit, below sixteen, in lower case.
pub open spec fn digit_char(d: int) -> char {
    if d == 0 { '0' } else if d == 1 { '1' } else if d == 2 { '2' } else if d == 3 { '3' }
    else if d == 4 { '4' } else if d == 5 { '5' } else if d == 6 { '6' } else if d == 7 { '7' }
    else if d == 8 { '8' } else if d == 9 { '9' } else if d == 10 { 'a' } else if d == 11 { 'b' }
    else if d == 12 { 'c' } else if d == 13 { 'd' } else if d == 14 { 'e' } else { 'f' }
}

fn digit_of(d: u8) -> (r: char)
    requires
        d < 16,
    ensures
        r == digit_char(d as int),
{
    if d == 0 { '0' } else if d == 1 { '1' } else if d == 2 { '2' } else if d == 3 { '3' }
    else if d == 4 { '4' } else if d == 5 { '5' } else if d == 6 { '6' } else if d == 7 { '7' }
    else if d == 8 { '8' } else if d == 9 { '9' } else if d == 10 { 'a' } else if d == 11 { 'b' }
    else if d == 12 { 'c' } else if d == 13 { 'd' } else if d == 14 { 'e' } else { 'f' }
}

/// `n` written in `base`, without leading zeros.
pub open spec fn digits(n: nat, base: nat) -> Seq<char>
    decreases n,
    via digits_shrink
{
    if base < 2 || n < base {
        seq![digit_char(n as int)]
    } else {
        digits(n / base, base).push(digit_char((n % base) as int))
    }
}

#[via_fn]
proof fn digits_shrink(n: nat, base: nat) {
    if !(base < 2 || n < base) {
        assert(n / base < n) by (nonlinear_arith)
            requires
                base >= 2,
                n >= base,
        ;
    }
}

/// `n` in decimal, with a minus sign where it is negative.
pub open spec fn dec(n: int) -> Seq<char> {
    if n < 0 {
        seq!['-'] + digits((-n) as nat, 10)
    } else {
        digits(n as nat, 10)
    }
}

/// `n` in hexadecimal, lower case.
pub open spec fn hex(n: nat) -> Seq<char> {
    digits(n, 16)
}

/// `s` with zeros put before it until it has `width` characters.
pub open spec fn zero_padded(s: Seq<char>, width: nat) -> Seq<char> {
    if s.len() < width {
        Seq::new((width - s.len()) as nat, |i: int| '0') + s
    } else {
        s
    }
}

fn digits_string(n: u128, base: u8) -> (r: String)
    requires
        2 <= base <= 16,
    ensures
        r@ == digits(n as nat, base as nat),
    decreases n,
{
    if n < base as u128 {
        let mut out = String::new();
        out.push(digit_of(n as u8));
        proof {
            assert(out@ =~= digits(n as nat, base as nat));
        }
        out
    } else {
        let q: u128 = n / (base as u128);
        let d: u8 = (n % (base as u128)) as u8;
        proof {
            assert(q < n && (n % (base as u128)) < base) by (nonlinear_arith)
                requires
                    q == n / (base as u128),
                    n >= base >= 2,
            ;
        }
        let mut out = digits_string(q, base);
        out.push(digit_of(d));
        out
    }
}

/// `n` in decimal.
pub fn dec_u64(n: u64) -> (r: String)
    ensures
        r@ == dec(n as int),
{
    digits_string(n as u128, 10)
}

/// `n` in decimal, with its sign.
pub fn dec_i64(n: i64) -> (r: String)
    ensures
        r@ == dec(n as int),
{
    if n < 0 {
        let magnitude: u128 = (-(n as i128)) as u128;
        let digits = digits_string(magnitude, 10);
        let mut out = String::new();
        out.push('-');
        out.append(digits.as_str());
        proof {
            assert(out@ =~= dec(n as int));
        }
        out
    } else {
        digits_string(n as u128, 10)
    }
}

/// `n` in hexadecimal.
pub fn hex_u128(n: u128) -> (r: String)
    ensures
        r@ == hex(n as nat),
{
    digits_string(n, 16)
}

/// `s` with zeros put before it until it has `width` characters.
pub fn pad_zeros(s: &str, width: usize) -> (r: String)
    ensures
        r@ == zero_padded(s@, width as nat),
{
    let len: usize = s.unicode_len();
    let mut out = String::new();
    let mut i: usize = len;
    proof {
        assert(out@ =~= Seq::new(0, |i: int| '0'));
    }
    while i < width
        invariant
            len == s@.len(),
            len <= width ==> len <= i <= width,
            len > width ==> i == len,
            out@ == Seq::new((i - len) as nat, |i: int| '0'),
        decreases width - i,
    {
        out.push('0');
        i = i + 1;
        proof {
            assert(out@ =~= Seq::new((i - len) as nat, |i: int| '0'));
        }
    }
    out.append(s);
    proof {
        assert(out@ =~= zero_padded(s@, width as nat));
    }
    out
}

/// Why a text is not an integer of the wanted range.
#[derive(Clone, Copy, Debug, PartialEq, Eq, Structural)]
pub enum IntError {
    Empty,
    InvalidDigit,
    TooLarge,
    TooSmall,
}

impl IntError {
    pub open spec fn text(self) -> Seq<char> {
        match self {
            IntError::Empty => "cannot parse integer from empty string"@,
            IntError::InvalidDigit => "invalid digit found in string"@,
            IntError::TooLarge => "number too large to fit in target type"@,
            IntError::TooSmall => "number too small to fit in target type"@,
        }
    }

    /// The reason in words.
    pub fn message(self) -> (r: String)
        ensures
            r@ == self.text(),
    {
        match self {
            IntError::Empty => "cannot parse integer from empty string".to_owned(),
            IntError::InvalidDigit => "invalid digit found in string".to_owned(),
            IntError::TooLarge => "number too large to fit in target type".to_owned(),
            IntError::TooSmall => "number too small to fit in target type".to_owned(),
        }
    }
}

/// The value of a decimal digit.
pub open spec fn digit_value(c: char) -> Option<int> {
    if '0' <= c <= '9' {
        Some(c as int - '0' as int)
    } else {
        None
    }
}

/// Reads decimal digits from left to right; the first character that is no digit, or the first
/// digit that takes the value out of `lo..=hi`, decides the error.
pub open spec fn scan_digits(s: Seq<char>, negative: bool, lo: int, hi: int) -> Result<
    int,
    IntError,
>
    decreases s.len(),
{
    if s.len() == 0 {
        Ok(0)
    } else {
        match scan_digits(s.drop_last(), negative, lo, hi) {
            Err(e) => Err(e),
            Ok(v) => match digit_value(s.last()) {
                None => Err(IntError::InvalidDigit),
                Some(d) => {
                    let next = if negative { v * 10 - d } else { v * 10 + d };
                    if next > hi {
                        Err(IntError::TooLarge)
                    } else if next < lo {
                        Err(IntError::TooSmall)
                    } else {
                        Ok(next)
                    }
                },
            },
        }
    }
}

/// The integer that `s` writes: an optional sign, then at least one decimal digit.
/// A minus sign counts as a sign only where the range holds negative numbers.
pub open spec fn parsed_int(s: Seq<char>, lo: int, hi: int) -> Result<int, IntError> {
    if s.len() == 0 {
        Err(IntError::Empty)
    } else if s.len() == 1 && (s[0] == '+' || s[0] == '-') {
        Err(IntError::InvalidDigit)
    } else if s[0] == '+' {
        scan_digits(s.drop_first(), false, lo, hi)
    } else if s[0] == '-' && lo < 0 {
        scan_digits(s.drop_first(), true, lo, hi)
    } else {
        scan_digits(s, false, lo, hi)
    }
}

proof fn lemma_scan_err_stays(s: Seq<char>, i: int, negative: bool, lo: int, hi: int)
    requires
        0 <= i <= s.len(),
        scan_digits(s.take(i), negative, lo, hi) is Err,
    ensures
        scan_digits(s, negative, lo, hi) == scan_digits(s.take(i), negative, lo, hi),
    decreases s.len() - i,
{
    if i == s.len() {
        assert(s.take(i) =~= s);
    } else {
        assert(s.take(i + 1).drop_last() =~= s.take(i));
        lemma_scan_err_stays(s, i + 1, negative, lo, hi);
    }
}

fn scan(chars: &Vec<char>, from: usize, negative: bool, lo: i128, hi: i128) -> (r: Result<
    i128,
    IntError,
>)
    requires
        from <= chars@.len(),
        -0x1_0000_0000_0000_0000 < lo <= 0 <= hi < 0x1_0000_0000_0000_0000,
    ensures
        r matches Ok(v) ==> lo <= v <= hi,
        (match r {
            Ok(v) => Ok::<int, IntError>(v as int),
            Err(e) => Err(e),
        }) == scan_digits(
            chars@.subrange(from as int, chars@.len() as int),
            negative,
            lo as int,
            hi as int,
        ),
{
    let ghost body = chars@.subrange(from as int, chars@.len() as int);
    let mut value: i128 = 0;
    let mut i: usize = from;
    proof {
        assert(body.take(0) =~= Seq::<char>::empty());
    }
    while i < chars.len()
        invariant
            from <= i <= chars@.len(),
            -0x1_0000_0000_0000_0000 < lo <= value <= hi < 0x1_0000_0000_0000_0000,
            lo <= 0 <= hi,
            body == chars@.subrange(from as int, chars@.len() as int),
            scan_digits(body.take(i - from), negative, lo as int, hi as int) == Ok::<int, IntError>(
                value as int,
            ),
        decreases chars@.len() - i,
    {
        let c = chars[i];
        proof {
            assert(body.take(i - from + 1).drop_last() =~= body.take(i - from));
            assert(body.take(i - from + 1).last() == c);
        }
        if !('0' <= c && c <= '9') {
            proof {
                lemma_scan_err_stays(body, i - from + 1, negative, lo as int, hi as int);
            }
            return Err(IntError::InvalidDigit);
        }
        let d: i128 = (c as u32 - '0' as u32) as i128;
        let next: i128 = if negative {
            value * 10 - d
        } else {
            value * 10 + d
        };
        if next > hi {
            proof {
                lemma_scan_err_stays(body, i - from + 1, negative, lo as int, hi as int);
            }
            return Err(IntError::TooLarge);
        }
        if next < lo {
            proof {
                lemma_scan_err_stays(body, i - from + 1, negative, lo as int, hi as int);
            }
            return Err(IntError::TooSmall);
        }
        value = next;
        i = i + 1;
    }
    proof {
        assert(body.take(body.len() as int) =~= body);
    }
    Ok(value)
}

fn parse_signed(s: &str, lo: i128, hi: i128) -> (r: Result<i128, IntError>)
    requires
        -0x1_0000_0000_0000_0000 < lo <= 0 <= hi < 0x1_0000_0000_0000_0000,
    ensures
        r matches Ok(v) ==> lo <= v <= hi,
        (match r {
            Ok(v) => Ok::<int, IntError>(v as int),
            Err(e) => Err(e),
        }) == parsed_int(s@, lo as int, hi as int),
{
    let chars = chars_of(s);
    if chars.len() == 0 {
        return Err(IntError::Empty);
    }
    let first = chars[0];
    if chars.len() == 1 && (first == '+' || first == '-') {
        return Err(IntError::InvalidDigit);
    }
    proof {
        assert(s@.drop_first() =~= s@.subrange(1, s@.len() as int));
        assert(s@ =~= s@.subrange(0, s@.len() as int));
    }
    if first == '+' {
        scan(&chars, 1, false, lo, hi)
    } else if first == '-' && lo < 0 {
        scan(&chars, 1, true, lo, hi)
    } else {
        scan(&chars, 0, false, lo, hi)
    }
}

/// Parses a decimal integer of the range `lo..=hi`.
pub fn parse_int(s: &str, lo: i64, hi: i64) -> (r: Result<i64, IntError>)
    requires
        lo <= 0 <= hi,
    ensures
        r matches Ok(v) ==> lo <= v <= hi,
        (match r {
            Ok(v) => Ok::<int, IntError>(v as int),
            Err(e) => Err(e),
        }) == parsed_int(s@, lo as int, hi as int),
{
    match parse_signed(s, lo as i128, hi as i128) {
        Ok(v) => Ok(v as i64),
        Err(e) => Err(e),
    }
}

/// Parses a decimal integer from 0 on.
pub fn parse_size(s: &str) -> (r: Result<u64, IntError>)
    ensures
        (match r {
            Ok(v) => Ok::<int, IntError>(v as int),
            Err(e) => Err(e),
        }) == parsed_int(s@, 0, u64::MAX as int),
{
    match parse_signed(s, 0, u64::MAX as i128) {
        Ok(v) => Ok(v as u64),
        Err(e) => Err(e),
    }
}

pub proof fn lemma_digit_round_trip(d: int)
    requires
        0 <= d < 10,
    ensures
        digit_value(digit_char(d)) == Some(d),
{
}

proof fn lemma_digits_shape(n: nat)
    ensures
        digits(n, 10).len() >= 1,
        forall|i: int|
            0 <= i < digits(n, 10).len() ==> digit_value(#[trigger] digits(n, 10)[i]) is Some,
    decreases n,
{
    if n < 10 {
        lemma_digit_round_trip(n as int);
    } else {
        lemma_digits_shape(n / 10);
        lemma_digit_round_trip((n % 10) as int);
        let before = digits(n / 10, 10);
        assert forall|i: int| 0 <= i < digits(n, 10).len() implies digit_value(
            #[trigger] digits(n, 10)[i],
        ) is Some by {
            if i < before.len() {
                assert(digits(n, 10)[i] == before[i]);
            }
        }
    }
}

proof fn lemma_scan_reads_digits(n: nat, negative: bool, lo: int, hi: int)
    requires
        lo <= 0 <= hi,
        if negative {
            lo <= -n
        } else {
            n <= hi
        },
    ensures
        scan_digits(digits(n, 10), negative, lo, hi) == Ok::<int, IntError>(
            if negative {
                -(n as int)
            } else {
                n as int
            },
        ),
    decreases n,
{
    let s = digits(n, 10);
    if n < 10 {
        lemma_digit_round_trip(n as int);
        assert(s.drop_last() =~= Seq::<char>::empty());
        assert(s.last() == digit_char(n as int));
        reveal_with_fuel(scan_digits, 2);
    } else {
        lemma_scan_reads_digits(n / 10, negative, lo, hi);
        lemma_digit_round_trip((n % 10) as int);
        assert(s.drop_last() =~= digits(n / 10, 10));
        assert(s.last() == digit_char((n % 10) as int));
        assert(n == (n / 10) * 10 + n % 10);
    }
}

/// Reading a number back that was written in decimal gives the number, wherever it is within the
/// range.
pub proof fn law_written_number_is_read_back(n: int, lo: int, hi: int)
    requires
        lo <= 0 <= hi,
        lo <= n <= hi,
    ensures
        parsed_int(dec(n), lo, hi) == Ok::<int, IntError>(n),
{
    if n < 0 {
        let body = digits((-n) as nat, 10);
        lemma_digits_shape((-n) as nat);
        lemma_scan_reads_digits((-n) as nat, true, lo, hi);
        assert(dec(n).drop_first() =~= body);
    } else {
        lemma_digits_shape(n as nat);
        lemma_scan_reads_digits(n as nat, false, lo, hi);
        assert(digit_value(dec(n)[0]) is Some);
    }
}

/// Text that neither begins nor ends with white space is not changed by trimming.
pub proof fn lemma_trim_nothing(s: Seq<char>)
    requires
        s.len() > 0,
        !is_space(s[0]),
        !is_space(s.last()),
    ensures
        trim_text(s) == s,
{
}

proof fn lemma_trim_start_spaces(a: Seq<char>, s: Seq<char>)
    requires
        forall|i: int| 0 <= i < a.len() ==> is_space(#[trigger] a[i]),
    ensures
        trim_start_text(a + s) == trim_start_text(s),
    decreases a.len(),
{
    if a.len() == 0 {
        assert(a + s =~= s);
    } else {
        assert(is_space(a[0]));
        let rest = a.drop_first();
        assert forall|i: int| 0 <= i < rest.len() implies is_space(#[trigger] rest[i]) by {
            assert(is_space(a[i + 1]));
        }
        assert((a + s).drop_first() =~= rest + s);
        lemma_trim_start_spaces(rest, s);
    }
}

proof fn lemma_trim_end_spaces(s: Seq<char>, b: Seq<char>)
    requires
        forall|i: int| 0 <= i < b.len() ==> is_space(#[trigger] b[i]),
    ensures
        trim_end_text(s + b) == trim_end_text(s),
    decreases b.len(),
{
    if b.len() == 0 {
        assert(s + b =~= s);
    } else {
        assert(is_space(b[b.len() - 1]));
        let rest = b.drop_last();
        assert forall|i: int| 0 <= i < rest.len() implies is_space(#[trigger] rest[i]) by {
            assert(is_space(b[i]));
        }
        assert((s + b).drop_last() =~= s + rest);
        lemma_trim_end_spaces(s, rest);
    }
}

proof fn lemma_trim_start_keeps_the_end(s: Seq<char>, b: Seq<char>)
    ensures
        trim_start_text(s + b) == (if trim_start_text(s).len() == 0 {
            trim_start_text(b)
        } else {
            trim_start_text(s) + b
        }),
    decreases s.len(),
{
    if s.len() == 0 {
        assert(s + b =~= b);
    } else if is_space(s[0]) {
        assert((s + b).drop_first() =~= s.drop_first() + b);
        lemma_trim_start_keeps_the_end(s.drop_first(), b);
    }
}

/// White space around a text does not change what trimming gives.
pub proof fn law_trim_drops_surrounding_space(a: Seq<char>, s: Seq<char>, b: Seq<char>)
    requires
        forall|i: int| 0 <= i < a.len() ==> is_space(#[trigger] a[i]),
        forall|i: int| 0 <= i < b.len() ==> is_space(#[trigger] b[i]),
    ensures
        trim_text(a + s + b) == trim_text(s),
{
    assert(a + s + b =~= a + (s + b));
    lemma_trim_start_spaces(a, s + b);
    lemma_trim_start_keeps_the_end(s, b);
    if trim_start_text(s).len() == 0 {
        lemma_trim_start_spaces(b, Seq::empty());
        assert(b + Seq::<char>::empty() =~= b);
        assert(trim_text(s) =~= trim_text(s + b));
    } else {
        lemma_trim_end_spaces(trim_start_text(s), b);
    }
}

/// The decimal digits of a number, and no other characters.
pub proof fn lemma_dec_is_digits(n: nat)
    ensures
        dec(n as int).len() >= 1,
        forall|i: int|
            0 <= i < dec(n as int).len() ==> digit_value(#[trigger] dec(n as int)[i]) is Some,
{
    lemma_digits_shape(n);
}

/// A text contains each of the texts that it is put together from, at their places.
pub proof fn law_text_contains_its_parts(a: Seq<char>, b: Seq<char>, c: Seq<char>)
    ensures
        occurs_at(a + b + c, b, a.len() as int),
        contains_text(a + b + c, b),
{
    assert((a + b + c).subrange(a.len() as int, (a.len() + b.len()) as int) =~= b);
    assert(occurs_at(a + b + c, b, a.len() as int));
}

/// A text occurs at a place exactly if its characters stand there one after the other, and a text
/// is contained in another exactly if there is such a place.
pub proof fn law_occurrence_is_character_by_character(whole: Seq<char>, part: Seq<char>, at: int)
    ensures
        occurs_at(whole, part, at) <==> 0 <= at && at + part.len() <= whole.len() && forall|k: int|
            0 <= k < part.len() ==> whole[at + k] == #[trigger] part[k],
        occurs_at(whole, part, at) ==> contains_text(whole, part),
        contains_text(whole, part) ==> exists|i: int| #[trigger] occurs_at(whole, part, i),
        starts_with_text(whole, part) <==> occurs_at(whole, part, 0),
{
    if 0 <= at && at + part.len() <= whole.len() {
        let cut = whole.subrange(at, at + part.len());
        if forall|k: int| 0 <= k < part.len() ==> whole[at + k] == #[trigger] part[k] {
            assert(cut =~= part);
        } else {
            let k = choose|k: int| 0 <= k < part.len() && whole[at + k] != #[trigger] part[k];
            assert(cut[k] != part[k]);
        }
        if occurs_at(whole, part, at) {
            assert forall|k: int| 0 <= k < part.len() implies whole[at + k] == #[trigger] part[k] by {
                assert(cut[k] == part[k]);
            }
        }
    }
}

/// Padding puts zeros before a text and nothing else: the result has at least the asked length,
/// is no longer than it has to be, and ends with the text.
pub proof fn law_padding_adds_zeros(s: Seq<char>, width: nat, i: int)
    requires
        0 <= i < zero_padded(s, width).len(),
    ensures
        zero_padded(s, width).len() == (if s.len() < width {
            width
        } else {
            s.len()
        }),
        ({
            let n = zero_padded(s, width).len() - s.len();
            zero_padded(s, width)[i] == (if i < n {
                '0'
            } else {
                s[i - n]
            })
        }),
{
}

/// The number that hexadecimal or decimal digits write in `base`.
pub open spec fn digits_value(s: Seq<char>, base: nat) -> int
    decreases s.len(),
{
    if s.len() == 0 {
        0
    } else {
        let c = s.last();
        digits_value(s.drop_last(), base) * base + (if 'a' <= c <= 'f' {
            c as int - 'a' as int + 10
        } else {
            c as int - '0' as int
        })
    }
}

/// A number that was written in decimal or hexadecimal is read back from its digits, and no other
/// number has the same digits.
pub proof fn law_digits_tell_the_number(n: nat, base: nat)
    requires
        2 <= base <= 16,
    ensures
        digits_value(digits(n, base), base) == n,
        digits(n, base).len() >= 1,
        n > 0 ==> digits(n, base)[0] != '0',
    decreases n,
{
    let s = digits(n, base);
    if n < base {
        assert(s.drop_last() =~= Seq::<char>::empty());
        reveal_with_fuel(digits_value, 2);
    } else {
        assert(0 < n / base < n && n % base < base && n == (n / base) * base + n % base)
            by (nonlinear_arith)
            requires
                base >= 2,
                n >= base,
        ;
        law_digits_tell_the_number(n / base, base);
        assert(s.drop_last() =~= digits(n / base, base));
        assert(s.last() == digit_char((n % base) as int));
        assert(s[0] == digits(n / base, base)[0]);
    }
}

/// A negative number is written as a minus sign before its magnitude.
pub proof fn law_sign_is_written(n: nat)
    requires
        n > 0,
    ensures
        dec(-(n as int)) == seq!['-'] + dec(n as int),
        digits_value(dec(n as int), 10) == n,
        digits_value(hex(n), 16) == n,
{
    law_digits_tell_the_number(n, 10);
    law_digits_tell_the_number(n, 16);
}

pub proof fn lemma_contains_through(whole: Seq<char>, middle: Seq<char>, part: Seq<char>)
    requires
        contains_text(whole, middle),
        contains_text(middle, part),
    ensures
        contains_text(whole, part),
{
    let i = choose|i: int| occurs_at(whole, middle, i);
    let k = choose|k: int| occurs_at(middle, part, k);
    assert(whole.subrange(i + k, i + k + part.len()) =~= middle.subrange(k, k + part.len()));
    assert(occurs_at(whole, part, i + k));
}

pub proof fn lemma_contains_head(a: Seq<char>, b: Seq<char>)
    ensures
        contains_text(a + b, a),
{
    let e = Seq::<char>::empty();
    law_text_contains_its_parts(e, a, b);
    assert(e + a =~= a);
}

pub proof fn lemma_contains_tail(a: Seq<char>, b: Seq<char>)
    ensures
        contains_text(a + b, b),
{
    let e = Seq::<char>::empty();
    law_text_contains_its_parts(a, b, e);
    assert(a + b + e =~= a + b);
}

/// Texts are the same but for their case if each letter of the one is that of the other, in lower
/// or in upper case, and every other character is the same.
pub proof fn law_case_of_letters_is_ignored(a: Seq<char>, b: Seq<char>, i: int)
    requires
        same_but_case(a, b),
        0 <= i < a.len(),
    ensures
        a.len() == b.len(),
        a[i] == b[i] || ('A' <= a[i] <= 'Z' && b[i] as int == a[i] as int + 32) || ('A' <= b[i]
            <= 'Z' && a[i] as int == b[i] as int + 32),
        same_but_case(b, b),
        same_but_case(b, a),
{
    assert(ascii_lower(a[i]) == ascii_lower(b[i]));
    assert forall|j: int| 0 <= j < b.len() implies ascii_lower(#[trigger] b[j]) == ascii_lower(
        a[j],
    ) by {
        assert(ascii_lower(a[j]) == ascii_lower(b[j]));
    }
}

/// A capital letter and its small letter are the same but for their case.
pub proof fn law_small_letters_stand_for_capitals(a: Seq<char>, i: int, small: char)
    requires
        0 <= i < a.len(),
        'A' <= a[i] <= 'Z',
        small as int == a[i] as int + 32,
    ensures
        same_but_case(a, a.update(i, small)),
{
}

} // verus!
