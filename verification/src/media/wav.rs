//! WAV files: the sizes in their headers.

use vstd::prelude::*;

verus! {

/// `s` with the four bytes from `at` on set to `n`, low byte first; `n` keeps its low 32 bits.
pub open spec fn with_size(s: Seq<u8>, at: int, n: int) -> Seq<u8> {
    s.update(at, (n % 256) as u8).update(at + 1, (n / 0x100 % 256) as u8).update(
        at + 2,
        (n / 0x1_0000 % 256) as u8,
    ).update(at + 3, (n / 0x100_0000 % 256) as u8)
}

/// The number in the four bytes from `at` on, low byte first.
pub open spec fn size_at(s: Seq<u8>, at: int) -> int {
    s[at] + s[at + 1] * 0x100 + s[at + 2] * 0x1_0000 + s[at + 3] * 0x100_0000
}

/// The four bytes from `at` on are these.
pub open spec fn mark_at(s: Seq<u8>, at: int, a: u8, b: u8, c: u8, d: u8) -> bool {
    s[at] == a && s[at + 1] == b && s[at + 2] == c && s[at + 3] == d
}

/// The file is long enough for a header and carries the marks `RIFF` and `WAVE`.
pub open spec fn is_wav(s: Seq<u8>) -> bool {
    s.len() >= 44 && mark_at(s, 0, 0x52, 0x49, 0x46, 0x46) && mark_at(s, 8, 0x57, 0x41, 0x56, 0x45)
}

/// A chunk `data` starts at `at`.
pub open spec fn is_data(s: Seq<u8>, at: int) -> bool {
    mark_at(s, at, 0x64, 0x61, 0x74, 0x61)
}

/// Where the first `data` chunk starts, going from chunk to chunk from `at` on.
pub open spec fn data_chunk(s: Seq<u8>, at: int) -> Option<int>
    decreases rest(s, at),
{
    if at + 8 > s.len() {
        None
    } else if is_data(s, at) {
        Some(at)
    } else {
        data_chunk(s, at + 8 + size_at(s, at + 4))
    }
}

/// How many bytes there are from `at` on.
pub open spec fn rest(s: Seq<u8>, at: int) -> int {
    if at < s.len() {
        s.len() - at
    } else {
        0
    }
}

/// A WAV file whose sizes say how long it is; any other bytes stay as they are.
pub open spec fn fixed_wav(s: Seq<u8>) -> Seq<u8> {
    if is_wav(s) {
        let riff = with_size(s, 4, s.len() - 8);
        match data_chunk(s, 12) {
            Some(p) => with_size(riff, p + 4, s.len() - p - 8),
            None => riff,
        }
    } else {
        s
    }
}

fn set_size(wav: &mut Vec<u8>, at: usize, n: usize)
    requires
        at + 4 <= old(wav)@.len(),
    ensures
        final(wav)@ == with_size(old(wav)@, at as int, n as int),
{
    proof {
        assert(at + 4 <= wav.len());
    }
    let v: u64 = n as u64;
    wav.set(at, (v % 256) as u8);
    wav.set(at + 1, (v / 0x100 % 256) as u8);
    wav.set(at + 2, (v / 0x1_0000 % 256) as u8);
    wav.set(at + 3, (v / 0x100_0000 % 256) as u8);
}

/// Sets the sizes in the header of a WAV file to what its length says: the size of the whole
/// behind the first eight bytes, and the size of the first `data` chunk, which ends the file.
/// A size of 2^32 or more keeps its low 32 bits.
pub fn fix_wav_sizes(wav: &mut Vec<u8>)
    ensures
        final(wav)@ == fixed_wav(old(wav)@),
{
    let len: usize = wav.len();
    if len < 44 {
        return;
    }
    if wav[0] != 0x52 || wav[1] != 0x49 || wav[2] != 0x46 || wav[3] != 0x46 || wav[8] != 0x57
        || wav[9] != 0x41 || wav[10] != 0x56 || wav[11] != 0x45 {
        return;
    }
    let ghost before = wav@;
    set_size(wav, 4, len - 8);
    let ghost riff = wav@;
    let mut pos: usize = 12;
    while pos <= len - 8
        invariant_except_break
            wav@ == riff,
        invariant
            is_wav(before),
            riff == with_size(before, 4, len - 8),
            wav@.len() == len,
            before.len() == len,
            len >= 44,
            12 <= pos <= len,
            data_chunk(before, 12) == data_chunk(before, pos as int),
        ensures
            wav@ == fixed_wav(before),
        decreases len - pos,
    {
        proof {
            assert(forall|i: int| pos <= i < pos + 8 ==> wav@[i] == before[i]);
        }
        if wav[pos] == 0x64 && wav[pos + 1] == 0x61 && wav[pos + 2] == 0x74 && wav[pos + 3] == 0x61 {
            set_size(wav, pos + 4, len - pos - 8);
            break;
        }
        let size: u64 = wav[pos + 4] as u64 + wav[pos + 5] as u64 * 0x100 + wav[pos + 6] as u64
            * 0x1_0000 + wav[pos + 7] as u64 * 0x100_0000;
        proof {
            assert(size == size_at(before, pos + 4));
        }
        if size > (len - pos - 8) as u64 {
            proof {
                assert(data_chunk(before, pos + 8 + size) is None);
            }
            break;
        }
        pos = pos + 8 + size as usize;
    }
}

/// Fixing the sizes changes the eight bytes of the two sizes and nothing else.
pub proof fn law_only_the_sizes_change(s: Seq<u8>, i: int)
    requires
        0 <= i < s.len(),
        !(4 <= i < 8),
        data_chunk(s, 12) matches Some(p) ==> !(p + 4 <= i < p + 8),
    ensures
        fixed_wav(s).len() == s.len(),
        fixed_wav(s)[i] == s[i],
{
    lemma_data_chunk_place(s, 12);
}

proof fn lemma_data_chunk_place(s: Seq<u8>, at: int)
    requires
        at >= 12,
    ensures
        data_chunk(s, at) matches Some(p) ==> at <= p && p + 8 <= s.len() && is_data(s, p),
    decreases rest(s, at),
{
    if at + 8 <= s.len() && !is_data(s, at) {
        lemma_data_chunk_place(s, at + 8 + size_at(s, at + 4));
    }
}

proof fn lemma_same_walk(s: Seq<u8>, t: Seq<u8>, at: int)
    requires
        at >= 12,
        s.len() == t.len(),
        match data_chunk(s, at) {
            Some(p) => forall|i: int| 12 <= i < p + 4 ==> #[trigger] t[i] == s[i],
            None => forall|i: int| 12 <= i < s.len() ==> #[trigger] t[i] == s[i],
        },
    ensures
        data_chunk(t, at) == data_chunk(s, at),
    decreases rest(s, at),
{
    lemma_data_chunk_place(s, at);
    if at + 8 <= s.len() && !is_data(s, at) {
        let next = at + 8 + size_at(s, at + 4);
        lemma_data_chunk_place(s, next);
        assert(size_at(t, at + 4) == size_at(s, at + 4));
        lemma_same_walk(s, t, next);
    }
}

/// Fixing the sizes twice gives what fixing them once gives.
pub proof fn law_fixing_twice_changes_nothing(s: Seq<u8>)
    ensures
        fixed_wav(fixed_wav(s)) == fixed_wav(s),
{
    if is_wav(s) {
        let t = fixed_wav(s);
        lemma_data_chunk_place(s, 12);
        assert(is_wav(t));
        lemma_same_walk(s, t, 12);
        assert(fixed_wav(t) =~= t);
    }
}

proof fn lemma_size_read_back(s: Seq<u8>, at: int, n: int)
    requires
        0 <= at,
        at + 4 <= s.len(),
        0 <= n < 0x1_0000_0000,
    ensures
        size_at(with_size(s, at, n), at) == n,
{
    let t = with_size(s, at, n);
    assert(t[at] == (n % 256) as u8);
    assert(t[at + 1] == (n / 0x100 % 256) as u8);
    assert(t[at + 2] == (n / 0x1_0000 % 256) as u8);
    assert(t[at + 3] == (n / 0x100_0000 % 256) as u8);
}

/// A reader of a fixed WAV file finds the true sizes, low byte first: behind `RIFF` the number of
/// bytes that follow it, and behind the first `data` the number of bytes up to the end of the file.
pub proof fn law_fixed_sizes_are_true(s: Seq<u8>)
    requires
        44 <= s.len() < 0x1_0000_0000,
        s[0] == 0x52 && s[1] == 0x49 && s[2] == 0x46 && s[3] == 0x46,
        s[8] == 0x57 && s[9] == 0x41 && s[10] == 0x56 && s[11] == 0x45,
    ensures
        ({
            let t = fixed_wav(s);
            &&& t.len() == s.len()
            &&& t[4] + t[5] * 0x100 + t[6] * 0x1_0000 + t[7] * 0x100_0000 == s.len() - 8
            &&& data_chunk(s, 12) matches Some(p) ==> {
                &&& 12 <= p && p + 8 <= s.len()
                &&& t[p] == 0x64 && t[p + 1] == 0x61 && t[p + 2] == 0x74 && t[p + 3] == 0x61
                &&& t[p + 4] + t[p + 5] * 0x100 + t[p + 6] * 0x1_0000 + t[p + 7] * 0x100_0000
                    == s.len() - p - 8
            }
        }),
{
    assert(is_wav(s));
    let riff = with_size(s, 4, s.len() - 8);
    lemma_size_read_back(s, 4, s.len() - 8);
    lemma_data_chunk_place(s, 12);
    match data_chunk(s, 12) {
        Some(p) => {
            lemma_size_read_back(riff, p + 4, s.len() - p - 8);
        },
        None => {},
    }
}

/// Bytes that are too short for a header, or that do not carry the two marks of a WAV file, stay
/// as they are.
pub proof fn law_other_bytes_stay(s: Seq<u8>)
    requires
        s.len() < 44 || s[0] != 0x52 || s[1] != 0x49 || s[2] != 0x46 || s[3] != 0x46 || s[8] != 0x57
            || s[9] != 0x41 || s[10] != 0x56 || s[11] != 0x45,
    ensures
        fixed_wav(s) == s,
{
}

/// The `data` chunk is found by going from chunk to chunk: a chunk of that name ends the search,
/// and any other chunk is passed over by its eight bytes of header and the size that they tell.
pub proof fn law_search_goes_from_chunk_to_chunk(s: Seq<u8>, at: int)
    requires
        0 <= at,
    ensures
        at + 8 > s.len() ==> data_chunk(s, at) is None,
        at + 8 <= s.len() && s[at] == 0x64 && s[at + 1] == 0x61 && s[at + 2] == 0x74 && s[at + 3]
            == 0x61 ==> data_chunk(s, at) == Some(at),
        at + 8 <= s.len() && !(s[at] == 0x64 && s[at + 1] == 0x61 && s[at + 2] == 0x74 && s[at + 3]
            == 0x61) ==> data_chunk(s, at) == data_chunk(
            s,
            at + 8 + s[at + 4] + s[at + 5] * 0x100 + s[at + 6] * 0x1_0000 + s[at + 7] * 0x100_0000,
        ),
{
}

/// Fixing the sizes changes neither the length of the bytes nor their first and third four.
pub proof fn law_marks_stay(s: Seq<u8>)
    ensures
        fixed_wav(s).len() == s.len(),
        forall|i: int|
            0 <= i < 4 || 8 <= i < 12 ==> i < s.len() ==> #[trigger] fixed_wav(s)[i] == s[i],
{
    lemma_data_chunk_place(s, 12);
}

/// Fixing a WAV file in place makes its sizes true and touches no other part of its head.
pub proof fn law_file_is_fixed_in_place(wav: &mut Vec<u8>, r: ())
    requires
        call_ensures(fix_wav_sizes, (wav,), r),
        44 <= old(wav)@.len() < 0x1_0000_0000,
        old(wav)@[0] == 0x52 && old(wav)@[1] == 0x49 && old(wav)@[2] == 0x46 && old(wav)@[3]
            == 0x46,
        old(wav)@[8] == 0x57 && old(wav)@[9] == 0x41 && old(wav)@[10] == 0x56 && old(wav)@[11]
            == 0x45,
    ensures
        final(wav)@.len() == old(wav)@.len(),
        final(wav)@[4] + final(wav)@[5] * 0x100 + final(wav)@[6] * 0x1_0000 + final(wav)@[7]
            * 0x100_0000 == old(wav)@.len() - 8,
        final(wav)@[0] == 0x52 && final(wav)@[8] == 0x57,
{
    law_fixed_sizes_are_true(old(wav)@);
    law_marks_stay(old(wav)@);
}

} // verus!
