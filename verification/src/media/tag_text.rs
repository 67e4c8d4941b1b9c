//! Metadata tags: bytes of an unknown legacy encoding become text.

use crate::collections::{text_map, SortedMap};
use crate::text::chars_of;
use vstd::prelude::*;
use vstd::utf8::{decode_utf8, valid_utf8};

verus! {

/// The text that GBK decoding gives, and whether the bytes held malformed sequences.
pub uninterp spec fn gbk_decoded(bytes: Seq<u8>) -> (Seq<char>, bool);

/// `encoding_rs::Encoding::decode` on `encoding_rs::GBK`: the decoded text and whether malformed
/// sequences were replaced in it. Both depend on the bytes alone, and what they are is not said.
/// A byte order mark at the start picks another encoding; that is part of the named result.
/// The length bound leaves out the inputs on which its buffer size overflows.
#[verifier::external_body]
fn gbk_decode(bytes: &[u8]) -> (r: (String, bool))
    requires
        bytes@.len() <= isize::MAX / 8,
    ensures
        (r.0@, r.1) == gbk_decoded(bytes@),
{
    let (text, _, had_errors) = encoding_rs::GBK.decode(bytes);
    (text.into_owned(), had_errors)
}

/// `String::from_utf8`: the text of valid UTF-8, and an error on every other input.
#[verifier::external_body]
fn utf8_text(bytes: Vec<u8>) -> (r: Option<String>)
    ensures
        match r {
            Some(s) => valid_utf8(bytes@) && s@ == decode_utf8(bytes@),
            None => !valid_utf8(bytes@),
        },
{
    match String::from_utf8(bytes) {
        Ok(s) => Some(s),
        Err(_) => None,
    }
}

/// A character of the upper half of Latin-1.
pub open spec fn is_latin1_upper(c: char) -> bool {
    '\u{80}' <= c <= '\u{ff}'
}

/// All characters that are not ASCII are in the upper half of Latin-1, and there are some: the
/// text may be bytes of another encoding that were read as Latin-1.
pub open spec fn looks_like_latin1(s: Seq<char>) -> bool {
    &&& exists|i: int| 0 <= i < s.len() && is_latin1_upper(#[trigger] s[i])
    &&& forall|i: int| 0 <= i < s.len() ==> #[trigger] s[i] < '\u{80}' || is_latin1_upper(s[i])
}

/// The low byte of each character.
pub open spec fn low_bytes(s: Seq<char>) -> Seq<u8> {
    s.map_values(|c: char| (c as u32 % 256) as u8)
}

/// Each byte as the character of the same number.
pub open spec fn latin1_text(bytes: Seq<u8>) -> Seq<char> {
    bytes.map_values(|b: u8| b as char)
}

/// A control character (Unicode category Cc).
pub open spec fn is_control(c: char) -> bool {
    c <= '\u{1f}' || '\u{7f}' <= c <= '\u{9f}'
}

/// No control character but tabs and line feeds.
pub open spec fn is_plain(s: Seq<char>) -> bool {
    forall|i: int|
        0 <= i < s.len() ==> !is_control(#[trigger] s[i]) || s[i] == '\t' || s[i] == '\n'
}

/// The bytes that are decoded as GBK: those behind the characters of valid UTF-8, else the bytes
/// themselves.
pub open spec fn gbk_input(bytes: Seq<u8>) -> Seq<u8> {
    if valid_utf8(bytes) {
        low_bytes(decode_utf8(bytes))
    } else {
        bytes
    }
}

/// The text of a tag, given the GBK reading of `gbk_input(bytes)` and whether it had errors.
///
/// Valid UTF-8 stands as it is, unless its characters beyond ASCII are all of Latin-1 and its bytes
/// read as GBK without errors and without control characters. Other bytes are GBK where they read as GBK
/// without errors, and Latin-1 otherwise.
pub open spec fn tag_text(bytes: Seq<u8>, gbk: (Seq<char>, bool)) -> Seq<char> {
    if valid_utf8(bytes) {
        if looks_like_latin1(decode_utf8(bytes)) && !gbk.1 && is_plain(gbk.0) {
            gbk.0
        } else {
            decode_utf8(bytes)
        }
    } else if !gbk.1 {
        gbk.0
    } else {
        latin1_text(bytes)
    }
}

fn latin1_upper(s: &str) -> (r: bool)
    ensures
        r == looks_like_latin1(s@),
{
    let chars = chars_of(s);
    let mut found = false;
    let mut i: usize = 0;
    while i < chars.len()
        invariant
            chars@ == s@,
            i <= chars@.len(),
            found == exists|k: int| 0 <= k < i && is_latin1_upper(#[trigger] s@[k]),
            forall|k: int| 0 <= k < i ==> #[trigger] s@[k] < '\u{80}' || is_latin1_upper(s@[k]),
        decreases chars@.len() - i,
    {
        if chars[i] > '\u{ff}' {
            proof {
                assert(!(s@[i as int] < '\u{80}' || is_latin1_upper(s@[i as int])));
            }
            return false;
        }
        if chars[i] >= '\u{80}' {
            proof {
                assert(is_latin1_upper(s@[i as int]));
            }
            found = true;
        }
        i = i + 1;
    }
    found
}

fn low_bytes_of(s: &str) -> (r: Vec<u8>)
    ensures
        r@ == low_bytes(s@),
{
    let chars = chars_of(s);
    let mut out: Vec<u8> = Vec::new();
    let mut i: usize = 0;
    while i < chars.len()
        invariant
            chars@ == s@,
            i <= chars@.len(),
            out@ == low_bytes(s@.take(i as int)),
        decreases chars@.len() - i,
    {
        let code: u32 = chars[i] as u32;
        out.push((code % 256) as u8);
        i = i + 1;
        proof {
            assert(out@ =~= low_bytes(s@.take(i as int)));
        }
    }
    proof {
        assert(s@.take(s@.len() as int) =~= s@);
    }
    out
}

fn plain(s: &str) -> (r: bool)
    ensures
        r == is_plain(s@),
{
    let chars = chars_of(s);
    let mut i: usize = 0;
    while i < chars.len()
        invariant
            chars@ == s@,
            i <= chars@.len(),
            forall|k: int|
                0 <= k < i ==> !is_control(#[trigger] s@[k]) || s@[k] == '\t' || s@[k] == '\n',
        decreases chars@.len() - i,
    {
        let c = chars[i];
        let control = c <= '\u{1f}' || ('\u{7f}' <= c && c <= '\u{9f}');
        if control && c != '\t' && c != '\n' {
            proof {
                assert(is_control(s@[i as int]));
            }
            return false;
        }
        i = i + 1;
    }
    true
}

fn latin1_string(bytes: &[u8]) -> (r: String)
    ensures
        r@ == latin1_text(bytes@),
{
    let mut out = String::new();
    let mut i: usize = 0;
    proof {
        assert(out@ =~= latin1_text(bytes@.take(0)));
    }
    while i < bytes.len()
        invariant
            i <= bytes@.len(),
            out@ == latin1_text(bytes@.take(i as int)),
        decreases bytes@.len() - i,
    {
        out.push(bytes[i] as char);
        i = i + 1;
        proof {
            assert(out@ =~= latin1_text(bytes@.take(i as int)));
        }
    }
    proof {
        assert(bytes@.take(bytes@.len() as int) =~= bytes@);
    }
    out
}

fn copy_bytes(bytes: &[u8]) -> (r: Vec<u8>)
    ensures
        r@ == bytes@,
{
    vstd::slice::slice_to_vec(bytes)
}

/// Chooses the text of a tag, given the GBK reading of its bytes and whether that had errors.
pub fn choose_tag_text(bytes: &[u8], gbk_text: &str, gbk_had_errors: bool) -> (r: String)
    ensures
        r@ == tag_text(bytes@, (gbk_text@, gbk_had_errors)),
{
    match utf8_text(copy_bytes(bytes)) {
        Some(s) => {
            if latin1_upper(s.as_str()) && !gbk_had_errors && plain(gbk_text) {
                gbk_text.to_owned()
            } else {
                s
            }
        },
        None => {
            if !gbk_had_errors {
                gbk_text.to_owned()
            } else {
                latin1_string(bytes)
            }
        },
    }
}

proof fn lemma_decoded_not_longer(bytes: Seq<u8>)
    requires
        valid_utf8(bytes),
    ensures
        decode_utf8(bytes).len() <= bytes.len(),
    decreases bytes.len(),
{
    if bytes.len() > 0 {
        lemma_decoded_not_longer(vstd::utf8::pop_first_scalar(bytes));
    }
}

/// The text of a tag whose bytes may be UTF-8, GBK or Latin-1.
pub fn decode_cstr_lossy(bytes: &[u8]) -> (r: String)
    requires
        bytes@.len() <= isize::MAX / 8,
    ensures
        r@ == tag_text(bytes@, gbk_decoded(gbk_input(bytes@))),
{
    match utf8_text(copy_bytes(bytes)) {
        Some(s) => {
            if latin1_upper(s.as_str()) {
                let low = low_bytes_of(s.as_str());
                proof {
                    lemma_decoded_not_longer(bytes@);
                }
                let (gbk_text, had_errors) = gbk_decode(low.as_slice());
                choose_tag_text(bytes, gbk_text.as_str(), had_errors)
            } else {
                s
            }
        },
        None => {
            let (gbk_text, had_errors) = gbk_decode(bytes);
            choose_tag_text(bytes, gbk_text.as_str(), had_errors)
        },
    }
}

proof fn lemma_low_byte(c: char)
    requires
        c < '\u{80}' || is_latin1_upper(c),
    ensures
        ((c as u32 % 256) as u8) as char == c,
{
}

/// Reading text again as bytes loses nothing: the low bytes of text that looks like Latin-1 give
/// the text back as Latin-1.
pub proof fn law_reading_again_is_lossless(s: Seq<char>)
    requires
        looks_like_latin1(s),
    ensures
        latin1_text(low_bytes(s)) == s,
{
    assert forall|i: int| 0 <= i < s.len() implies latin1_text(low_bytes(s))[i] == s[i] by {
        assert(s[i] < '\u{80}' || is_latin1_upper(s[i]));
        lemma_low_byte(s[i]);
    }
    assert(latin1_text(low_bytes(s)) =~= s);
}

/// Valid text with a character beyond Latin-1 stands as it is, whatever its bytes read as.
pub proof fn law_text_beyond_latin1_stands(bytes: Seq<u8>, gbk: (Seq<char>, bool), i: int)
    requires
        valid_utf8(bytes),
        0 <= i < decode_utf8(bytes).len(),
        decode_utf8(bytes)[i] > '\u{ff}',
    ensures
        tag_text(bytes, gbk) == decode_utf8(bytes),
{
}

/// One tag as the container stores it.
pub struct RawTag {
    pub key: Vec<u8>,
    pub value: Vec<u8>,
}

impl RawTag {
    /// Both parts are short enough to be decoded.
    pub open spec fn fits(self) -> bool {
        self.key@.len() <= isize::MAX / 8 && self.value@.len() <= isize::MAX / 8
    }
}

/// Whether all tags are short enough to be decoded.
pub fn tags_do_fit(tags: &Vec<RawTag>) -> (r: bool)
    ensures
        r == forall|i: int| 0 <= i < tags@.len() ==> (#[trigger] tags@[i]).fits(),
{
    let limit: usize = isize::MAX as usize / 8;
    let mut i: usize = 0;
    while i < tags.len()
        invariant
            i <= tags@.len(),
            limit == isize::MAX / 8,
            forall|k: int| 0 <= k < i ==> (#[trigger] tags@[k]).fits(),
        decreases tags@.len() - i,
    {
        if tags[i].key.len() > limit || tags[i].value.len() > limit {
            proof {
                assert(!tags@[i as int].fits());
            }
            return false;
        }
        i = i + 1;
    }
    true
}

/// The text of a tag's bytes.
pub open spec fn decoded_text(bytes: Seq<u8>) -> Seq<char> {
    tag_text(bytes, gbk_decoded(gbk_input(bytes)))
}

/// The tags of a list of entries; a later entry replaces an earlier one of its key.
pub open spec fn tags_of(entries: Seq<RawTag>) -> Map<Seq<char>, Seq<char>>
    decreases entries.len(),
{
    if entries.len() == 0 {
        Map::empty()
    } else {
        tags_of(entries.drop_last()).insert(
            decoded_text(entries.last().key@),
            decoded_text(entries.last().value@),
        )
    }
}

/// Collects the tags of a list of entries.
pub fn extract_tags(entries: &Vec<RawTag>) -> (r: SortedMap<String>)
    requires
        forall|i: int| 0 <= i < entries@.len() ==> (#[trigger] entries@[i]).fits(),
    ensures
        r.wf(),
        text_map(r@) == tags_of(entries@),
{
    let mut tags: SortedMap<String> = SortedMap::new();
    let mut i: usize = 0;
    proof {
        assert(entries@.take(0) =~= Seq::<RawTag>::empty());
        assert(text_map(tags@) =~= Map::<Seq<char>, Seq<char>>::empty());
    }
    while i < entries.len()
        invariant
            i <= entries@.len(),
            tags.wf(),
            forall|i: int| 0 <= i < entries@.len() ==> (#[trigger] entries@[i]).fits(),
            text_map(tags@) == tags_of(entries@.take(i as int)),
        decreases entries@.len() - i,
    {
        let ghost before = tags@;
        proof {
            assert(entries@[i as int].fits());
        }
        let key = decode_cstr_lossy(entries[i].key.as_slice());
        let value = decode_cstr_lossy(entries[i].value.as_slice());
        let ghost k = key@;
        let ghost v = value;
        tags.insert(key, value);
        i = i + 1;
        proof {
            assert(entries@.take(i as int).drop_last() =~= entries@.take(i - 1));
            assert(text_map(before.insert(k, v)) =~= text_map(before).insert(k, v@));
        }
    }
    proof {
        assert(entries@.take(entries@.len() as int) =~= entries@);
    }
    tags
}

/// Bytes that are not UTF-8 are read as GBK where that works, and else each byte is the character
/// of its number.
pub proof fn law_legacy_bytes_are_read(bytes: Seq<u8>, gbk: (Seq<char>, bool), i: int)
    requires
        !valid_utf8(bytes),
    ensures
        !gbk.1 ==> tag_text(bytes, gbk) == gbk.0,
        gbk.1 ==> tag_text(bytes, gbk).len() == bytes.len(),
        gbk.1 && 0 <= i < bytes.len() ==> tag_text(bytes, gbk)[i] as u32 == bytes[i],
        gbk_input(bytes) == bytes,
{
}

/// Text of ASCII alone stands as it is, and so does all text whose bytes do not read as GBK or read
/// as GBK with control characters.
pub proof fn law_text_stands(bytes: Seq<u8>, gbk: (Seq<char>, bool), i: int)
    requires
        valid_utf8(bytes),
    ensures
        (forall|j: int| 0 <= j < decode_utf8(bytes).len() ==> #[trigger] decode_utf8(bytes)[j]
            < '\u{80}') ==> tag_text(bytes, gbk) == decode_utf8(bytes),
        gbk.1 ==> tag_text(bytes, gbk) == decode_utf8(bytes),
        0 <= i < gbk.0.len() && ((gbk.0[i] < '\u{20}' && gbk.0[i] != '\t' && gbk.0[i] != '\n') || (
        '\u{7f}' <= gbk.0[i] && gbk.0[i] <= '\u{9f}')) ==> tag_text(bytes, gbk) == decode_utf8(
            bytes,
        ),
{
    if (forall|j: int| 0 <= j < decode_utf8(bytes).len() ==> #[trigger] decode_utf8(bytes)[j]
        < '\u{80}') && looks_like_latin1(decode_utf8(bytes)) {
        let k = choose|k: int|
            0 <= k < decode_utf8(bytes).len() && is_latin1_upper(#[trigger] decode_utf8(bytes)[k]);
        assert(decode_utf8(bytes)[k] < '\u{80}');
    }
}

/// Text that looks like GBK read as Latin-1 is read again as GBK: it has a character of the upper
/// half and none beyond, and its GBK reading has no errors and no control characters.
pub proof fn law_mangled_text_is_read_again(bytes: Seq<u8>, gbk: (Seq<char>, bool), i: int)
    requires
        valid_utf8(bytes),
        0 <= i < decode_utf8(bytes).len(),
        '\u{80}' <= decode_utf8(bytes)[i],
        forall|j: int|
            0 <= j < decode_utf8(bytes).len() ==> #[trigger] decode_utf8(bytes)[j] <= '\u{ff}',
        !gbk.1,
        forall|j: int|
            0 <= j < gbk.0.len() ==> #[trigger] gbk.0[j] == '\t' || gbk.0[j] == '\n' || (
            '\u{20}' <= gbk.0[j] && gbk.0[j] < '\u{7f}') || '\u{9f}' < gbk.0[j],
    ensures
        tag_text(bytes, gbk) == gbk.0,
        gbk_input(bytes).len() == decode_utf8(bytes).len(),
        gbk_input(bytes)[i] == decode_utf8(bytes)[i] as u32,
{
    assert(is_latin1_upper(decode_utf8(bytes)[i]));
    assert(looks_like_latin1(decode_utf8(bytes)));
}

/// The value of a key is that of its last entry, and a key that no entry has is not there.
pub proof fn law_last_tag_counts(entries: Seq<RawTag>, i: int, key: Seq<char>)
    requires
        0 <= i < entries.len(),
        forall|j: int|
            i < j < entries.len() ==> decoded_text((#[trigger] entries[j]).key@) != decoded_text(
                entries[i].key@,
            ),
    ensures
        tags_of(entries).dom().contains(decoded_text(entries[i].key@)),
        tags_of(entries)[decoded_text(entries[i].key@)] == decoded_text(entries[i].value@),
        (forall|j: int|
            0 <= j < entries.len() ==> decoded_text((#[trigger] entries[j]).key@) != key)
            ==> !tags_of(entries).dom().contains(key),
    decreases entries.len(),
{
    lemma_absent_tag(entries, key);
    if i < entries.len() - 1 {
        let before = entries.drop_last();
        assert forall|j: int| i < j < before.len() implies decoded_text((#[trigger] before[j]).key@)
            != decoded_text(before[i].key@) by {
            assert(before[j] == entries[j]);
        }
        law_last_tag_counts(before, i, key);
        assert(decoded_text(entries[entries.len() - 1].key@) != decoded_text(entries[i].key@));
    }
}

proof fn lemma_absent_tag(entries: Seq<RawTag>, key: Seq<char>)
    ensures
        (forall|j: int|
            0 <= j < entries.len() ==> decoded_text((#[trigger] entries[j]).key@) != key)
            ==> !tags_of(entries).dom().contains(key),
    decreases entries.len(),
{
    if entries.len() > 0 && (forall|j: int|
        0 <= j < entries.len() ==> decoded_text((#[trigger] entries[j]).key@) != key) {
        let before = entries.drop_last();
        assert forall|j: int| 0 <= j < before.len() implies decoded_text((#[trigger] before[j]).key@)
            != key by {
            assert(before[j] == entries[j]);
        }
        lemma_absent_tag(before, key);
        assert(decoded_text(entries[entries.len() - 1].key@) != key);
    }
}

/// The text of a tag is the choice between its own bytes and their GBK reading.
pub proof fn law_tag_is_decoded(bytes: &[u8], r: String)
    requires
        call_ensures(decode_cstr_lossy, (bytes,), r),
    ensures
        !valid_utf8(bytes@) && !gbk_decoded(bytes@).1 ==> r@ == gbk_decoded(bytes@).0,
        valid_utf8(bytes@) && gbk_decoded(gbk_input(bytes@)).1 ==> r@ == decode_utf8(bytes@),
{
}

/// A tag can be decoded exactly if neither its key nor its value is longer than an eighth of what
/// can be addressed.
pub proof fn law_tags_that_fit(tag: RawTag)
    ensures
        tag.fits() <==> tag.key@.len() <= isize::MAX / 8 && tag.value@.len() <= isize::MAX / 8,
{
}

/// The bytes behind a text are its character numbers, each without what does not fit in a byte.
pub proof fn law_low_bytes_are_those_of_the_characters(s: Seq<char>, i: int)
    requires
        0 <= i < s.len(),
    ensures
        low_bytes(s).len() == s.len(),
        low_bytes(s)[i] == (s[i] as u32) % 256,
        latin1_text(low_bytes(s)).len() == s.len(),
{
}

} // verus!
