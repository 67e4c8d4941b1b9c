//! Reading an input through a callback, with a read-ahead buffer.

use crate::text::chars_of;
use vstd::prelude::*;

verus! {

/// How much is fetched at once where the input does not say: 4 MiB.
pub const READAHEAD_BYTES_DEFAULT: u64 = 4_194_304;

/// How much is best fetched at once in HLS and transcode sessions: 32 MiB.
pub const READAHEAD_HLS: u64 = 33_554_432;

/// The size of the buffer that the demuxer reads into: 256 KiB.
pub const AVIO_BUF_SIZE: usize = 262_144;

/// Asks for the size of the input in place of a seek.
pub const AVSEEK_SIZE: i32 = 0x10000;

/// Counts of what was fetched.
#[derive(Clone, Copy, Debug, PartialEq, Eq, Structural)]
pub struct FetchStats {
    pub fetches: u64,
    pub bytes: u64,
    pub time_us: u64,
}

impl FetchStats {
    pub open spec fn zero() -> FetchStats {
        FetchStats { fetches: 0, bytes: 0, time_us: 0 }
    }

    /// One fetch more; the counters wrap.
    pub open spec fn plus(self, n: nat, elapsed_us: u64) -> FetchStats {
        FetchStats {
            fetches: ((self.fetches + 1) % 0x1_0000_0000_0000_0000) as u64,
            bytes: ((self.bytes + n) % 0x1_0000_0000_0000_0000) as u64,
            time_us: ((self.time_us + elapsed_us) % 0x1_0000_0000_0000_0000) as u64,
        }
    }

    fn record(self, n: u64, elapsed_us: u64) -> (r: Self)
        ensures
            r == self.plus(n as nat, elapsed_us),
    {
        FetchStats {
            fetches: wrapping_sum(self.fetches, 1),
            bytes: wrapping_sum(self.bytes, n),
            time_us: wrapping_sum(self.time_us, elapsed_us),
        }
    }
}

fn wrapping_sum(a: u64, b: u64) -> (r: u64)
    ensures
        r as int == (a + b) % 0x1_0000_0000_0000_0000,
{
    ((a as u128 + b as u128) % 0x1_0000_0000_0000_0000) as u64
}

/// The state of an input that is read through a callback.
#[derive(Debug)]
pub struct IoState {
    /// The size of the input.
    size: u64,
    /// Where the next read starts.
    position: u64,
    /// What was fetched last.
    buf: Vec<u8>,
    /// The offset in the input of the first byte of `buf`.
    buf_start: u64,
    /// How much is fetched at once.
    readahead_bytes: u64,
    /// What was fetched since the input was opened.
    total: FetchStats,
    /// What was fetched since the last seek to an absolute position.
    pass: FetchStats,
}

/// What a read has to do.
#[derive(Clone, Copy, Debug, PartialEq, Eq, Structural)]
pub enum ReadPlan {
    /// The position is at or behind the end.
    Eof,
    /// The buffer holds the byte at the position.
    Buffered,
    /// The callback is asked for `len` bytes from `offset` on.
    Fetch { offset: u64, len: u64 },
}

pub open spec fn min(a: int, b: int) -> int {
    if a < b {
        a
    } else {
        b
    }
}

impl IoState {
    pub closed spec fn spec_size(&self) -> u64 {
        self.size
    }

    pub closed spec fn spec_position(&self) -> u64 {
        self.position
    }

    pub closed spec fn spec_buf(&self) -> Seq<u8> {
        self.buf@
    }

    pub closed spec fn spec_buf_start(&self) -> u64 {
        self.buf_start
    }

    pub closed spec fn spec_readahead(&self) -> u64 {
        self.readahead_bytes
    }

    pub closed spec fn spec_total(&self) -> FetchStats {
        self.total
    }

    pub closed spec fn spec_pass(&self) -> FetchStats {
        self.pass
    }

    /// The buffer ends at an offset that can be counted.
    pub open spec fn wf(&self) -> bool {
        self.spec_buf_start() + self.spec_buf().len() <= u64::MAX
    }

    /// The buffer holds the byte at the position.
    pub open spec fn is_buffered(&self) -> bool {
        self.spec_buf_start() <= self.spec_position() < self.spec_buf_start()
            + self.spec_buf().len()
    }

    /// The bytes that a read of at most `want` bytes takes from the buffer.
    pub open spec fn buffered_bytes(&self, want: nat) -> Seq<u8> {
        let from = self.spec_position() - self.spec_buf_start();
        self.spec_buf().subrange(from, from + min(self.spec_buf().len() - from, want as int))
    }

    /// The buffer holds bytes of `file`, at the offsets that it claims.
    pub open spec fn mirrors(&self, file: Seq<u8>) -> bool {
        self.spec_buf().len() == 0 || (self.spec_buf_start() + self.spec_buf().len() <= file.len()
            && self.spec_buf() == file.subrange(
            self.spec_buf_start() as int,
            self.spec_buf_start() + self.spec_buf().len(),
        ))
    }

    /// The two states agree on everything but the position.
    pub open spec fn same_but_position(&self, other: &IoState) -> bool {
        &&& self.spec_size() == other.spec_size()
        &&& self.spec_buf() == other.spec_buf()
        &&& self.spec_buf_start() == other.spec_buf_start()
        &&& self.spec_readahead() == other.spec_readahead()
        &&& self.spec_total() == other.spec_total()
        &&& self.spec_pass() == other.spec_pass()
    }

    /// The state at the start of an input of `size` bytes.
    pub fn new(size: u64, readahead_bytes: Option<u64>) -> (r: Self)
        ensures
            r.wf(),
            r.spec_size() == size,
            r.spec_position() == 0,
            r.spec_buf() == Seq::<u8>::empty(),
            r.spec_buf_start() == 0,
            r.spec_readahead() == (match readahead_bytes {
                Some(n) => n,
                None => READAHEAD_BYTES_DEFAULT,
            }),
            r.spec_total() == FetchStats::zero(),
            r.spec_pass() == FetchStats::zero(),
    {
        IoState {
            size,
            position: 0,
            buf: Vec::new(),
            buf_start: 0,
            readahead_bytes: match readahead_bytes {
                Some(n) => n,
                None => READAHEAD_BYTES_DEFAULT,
            },
            total: FetchStats { fetches: 0, bytes: 0, time_us: 0 },
            pass: FetchStats { fetches: 0, bytes: 0, time_us: 0 },
        }
    }

    /// Where the next read starts.
    pub fn position(&self) -> (r: u64)
        ensures
            r == self.spec_position(),
    {
        self.position
    }

    /// What was fetched since the last seek to an absolute position.
    pub fn pass_stats(&self) -> (r: FetchStats)
        ensures
            r == self.spec_pass(),
    {
        self.pass
    }

    /// What was fetched since the input was opened.
    pub fn total_stats(&self) -> (r: FetchStats)
        ensures
            r == self.spec_total(),
    {
        self.total
    }

    /// What the next read has to do. A fetch asks for the read-ahead size, or for what is left of
    /// the input where that is less.
    pub fn plan_read(&self) -> (r: ReadPlan)
        requires
            self.wf(),
        ensures
            match r {
                ReadPlan::Eof => self.spec_position() >= self.spec_size(),
                ReadPlan::Buffered => self.spec_position() < self.spec_size()
                    && self.is_buffered(),
                ReadPlan::Fetch { offset, len } => {
                    &&& self.spec_position() < self.spec_size()
                    &&& !self.is_buffered()
                    &&& offset == self.spec_position()
                    &&& len == min(
                        self.spec_readahead() as int,
                        self.spec_size() - self.spec_position(),
                    )
                },
            },
    {
        if self.position >= self.size {
            return ReadPlan::Eof;
        }
        let buf_end: u64 = self.buf_start + self.buf.len() as u64;
        if self.position >= self.buf_start && self.position < buf_end {
            return ReadPlan::Buffered;
        }
        let remaining: u64 = self.size - self.position;
        let len: u64 = if self.readahead_bytes < remaining {
            self.readahead_bytes
        } else {
            remaining
        };
        ReadPlan::Fetch { offset: self.position, len }
    }

    /// Serves a read of at most `want` bytes from the buffer.
    pub fn read_buffered(&mut self, want: usize) -> (r: Vec<u8>)
        requires
            old(self).wf(),
            old(self).is_buffered(),
        ensures
            r@ == old(self).buffered_bytes(want as nat),
            final(self).wf(),
            final(self).spec_position() == old(self).spec_position() + r@.len(),
            final(self).same_but_position(old(self)),
    {
        let len: usize = self.buf.len();
        let from: usize = (self.position - self.buf_start) as usize;
        let available: usize = len - from;
        let n: usize = if want < available {
            want
        } else {
            available
        };
        let r = copy_range(&self.buf, from, from + n);
        self.position = self.position + n as u64;
        r
    }

    /// Takes what the callback fetched at the position, keeps it as the new buffer, and serves a
    /// read of at most `want` bytes from it. An empty fetch is the end of the input: it gives
    /// nothing and changes nothing.
    pub fn complete_fetch(&mut self, bytes: Vec<u8>, elapsed_us: u64, want: usize) -> (r: Option<
        Vec<u8>,
    >)
        requires
            old(self).spec_position() + bytes@.len() <= u64::MAX,
            old(self).wf(),
        ensures
            final(self).wf(),
            match r {
                None => bytes@.len() == 0 && *final(self) == *old(self),
                Some(out) => bytes@.len() > 0 && final(self).is_fetched(
                    old(self),
                    bytes@,
                    elapsed_us,
                    want as nat,
                    out@,
                ),
            },
    {
        let n: usize = bytes.len();
        if n == 0 {
            return None;
        }
        self.total = self.total.record(n as u64, elapsed_us);
        self.pass = self.pass.record(n as u64, elapsed_us);
        let copied: usize = if want < n {
            want
        } else {
            n
        };
        let out = copy_range(&bytes, 0, copied);
        self.buf_start = self.position;
        self.buf = bytes;
        self.position = self.position + copied as u64;
        Some(out)
    }

    /// This state is `before` after a fetch of `bytes` at the position, of which a read of at most
    /// `want` bytes took `out`.
    pub open spec fn is_fetched(
        &self,
        before: &IoState,
        bytes: Seq<u8>,
        elapsed_us: u64,
        want: nat,
        out: Seq<u8>,
    ) -> bool {
        &&& out == bytes.take(min(bytes.len() as int, want as int))
        &&& self.spec_size() == before.spec_size()
        &&& self.spec_readahead() == before.spec_readahead()
        &&& self.spec_buf() == bytes
        &&& self.spec_buf_start() == before.spec_position()
        &&& self.spec_position() == before.spec_position() + out.len()
        &&& self.spec_total() == before.spec_total().plus(bytes.len(), elapsed_us)
        &&& self.spec_pass() == before.spec_pass().plus(bytes.len(), elapsed_us)
    }

    /// Reads at most `want` bytes at the position: nothing at the end of the input, else what the
    /// buffer holds there, else what `read_at` fetches. `read_at` is asked for a number of bytes
    /// at an offset and gives the bytes and the time in microseconds that it took; where it fails
    /// or gives no bytes, the read ends the input.
    ///
    /// Where the buffer mirrors a file and the callback serves it, a read gives the bytes of the
    /// file at the position, and the buffer goes on mirroring it.
    pub fn read<F: Fn(u64, u64) -> Option<(Vec<u8>, u64)>>(&mut self, read_at: F, want: usize) -> (r:
        Option<Vec<u8>>)
        requires
            old(self).wf(),
            forall|offset: u64, len: u64| #[trigger] read_at.requires((offset, len)),
            forall|offset: u64, len: u64, got: Option<(Vec<u8>, u64)>| #[trigger]
                read_at.ensures((offset, len), got) ==> (got matches Some((bytes, _)) ==> offset
                    + bytes@.len() <= u64::MAX),
        ensures
            final(self).wf(),
            old(self).spec_position() >= old(self).spec_size() ==> r is None && *final(self)
                == *old(self),
            old(self).spec_position() < old(self).spec_size() && old(self).is_buffered() ==> {
                &&& r matches Some(out) && out@ == old(self).buffered_bytes(want as nat)
                &&& final(self).spec_position() == old(self).spec_position() + r->0@.len()
                &&& final(self).same_but_position(old(self))
            },
            old(self).spec_position() < old(self).spec_size() && !old(self).is_buffered() ==> exists|
                len: u64,
                got: Option<(Vec<u8>, u64)>,
            |
                {
                    &&& #[trigger] read_at.ensures((old(self).spec_position(), len), got)
                    &&& len == min(
                        old(self).spec_readahead() as int,
                        old(self).spec_size() - old(self).spec_position(),
                    )
                    &&& match (got, r) {
                        (Some((bytes, time)), Some(out)) => bytes@.len() > 0 && final(
                            self).is_fetched(old(self), bytes@, time, want as nat, out@),
                        (Some((bytes, _)), None) => bytes@.len() == 0 && *final(self)
                            == *old(self),
                        (None, None) => *final(self) == *old(self),
                        (None, Some(_)) => false,
                    }
                },
            forall|file: Seq<u8>|
                #![trigger old(self).mirrors(file)]
                #![trigger serves(read_at, file)]
                old(self).mirrors(file) && serves(read_at, file) ==> final(self).mirrors(file) && (r
                    matches Some(out) ==> old(self).spec_position() + out@.len() <= file.len()
                    && out@ == file.subrange(
                    old(self).spec_position() as int,
                    old(self).spec_position() + out@.len(),
                )),
    {
        let ghost before = *self;
        match self.plan_read() {
            ReadPlan::Eof => None,
            ReadPlan::Buffered => {
                let out = self.read_buffered(want);
                proof {
                    assert forall|file: Seq<u8>| before.mirrors(file) implies self.mirrors(file)
                        && before.spec_position() + out@.len() <= file.len() && out@
                        == file.subrange(
                        before.spec_position() as int,
                        before.spec_position() + out@.len(),
                    ) by {
                        law_buffered_read_gives_the_file(&before, file, want as nat);
                        law_moving_keeps_the_mirror(&before, self, file);
                    }
                }
                Some(out)
            },
            ReadPlan::Fetch { offset, len } => {
                let got = read_at(offset, len);
                match got {
                    Some((bytes, time)) => {
                        let ghost fetched = bytes@;
                        let r = self.complete_fetch(bytes, time, want);
                        proof {
                            assert forall|file: Seq<u8>|
                                before.mirrors(file) && serves(read_at, file) && r is Some implies {
                                &&& self.mirrors(file)
                                &&& before.spec_position() + r->0@.len() <= file.len()
                                &&& r->0@ == file.subrange(
                                    before.spec_position() as int,
                                    before.spec_position() + r->0@.len(),
                                )
                            } by {
                                law_fetched_read_gives_the_file(
                                    &before,
                                    self,
                                    file,
                                    fetched,
                                    want as nat,
                                );
                            }
                        }
                        r
                    },
                    None => None,
                }
            },
        }
    }

    /// Whether the target of a seek can be counted.
    pub fn can_seek(&self, offset: i64, whence: i32) -> (r: bool)
        ensures
            r == self.seek_fits(offset, whence),
    {
        if whence & AVSEEK_SIZE != 0 {
            return true;
        }
        let mode: i32 = whence & 0xFF;
        let base: i64 = if mode == 1 {
            to_signed(self.position)
        } else if mode == 2 {
            to_signed(self.size)
        } else {
            return true;
        };
        let target: i128 = base as i128 + offset as i128;
        i64::MIN as i128 <= target && target <= i64::MAX as i128
    }

    /// The target of a seek can be counted.
    pub open spec fn seek_fits(&self, offset: i64, whence: i32) -> bool {
        &&& is_move(whence, 1) ==> i64::MIN <= signed_bits(self.spec_position()) + offset <= i64::MAX
        &&& is_move(whence, 2) ==> i64::MIN <= signed_bits(self.spec_size()) + offset <= i64::MAX
    }

    /// Moves the position, or answers a query for the size.
    ///
    /// The low byte of `whence` says where `offset` counts from: 0 the start, 1 the position,
    /// 2 the end. A position before the start becomes the start. A move to an absolute position
    /// starts a new pass of the statistics. Any other mode gives -1. The buffer stays.
    pub fn seek(&mut self, offset: i64, whence: i32) -> (r: i64)
        requires
            old(self).wf(),
            old(self).seek_fits(offset, whence),
        ensures
            final(self).wf(),
            is_size_query(whence) ==> r as int == signed_bits(old(self).spec_size()) && *final(self)
                == *old(self),
            is_move(whence, 0) ==> final(self).is_moved(old(self), offset as int, r),
            is_move(whence, 0) ==> final(self).spec_pass() == FetchStats::zero(),
            is_move(whence, 1) ==> final(self).is_moved(
                old(self),
                signed_bits(old(self).spec_position()) + offset,
                r,
            ) && final(self).spec_pass() == old(self).spec_pass(),
            is_move(whence, 2) ==> final(self).is_moved(
                old(self),
                signed_bits(old(self).spec_size()) + offset,
                r,
            ) && final(self).spec_pass() == old(self).spec_pass(),
            !is_size_query(whence) && !is_move(whence, 0) && !is_move(whence, 1) && !is_move(
                whence,
                2,
            ) ==> r == -1 && *final(self) == *old(self),
    {
        if whence & AVSEEK_SIZE != 0 {
            return to_signed(self.size);
        }
        let mode: i32 = whence & 0xFF;
        let target: i64 = if mode == 0 {
            self.pass = FetchStats { fetches: 0, bytes: 0, time_us: 0 };
            offset
        } else if mode == 1 {
            to_signed(self.position) + offset
        } else if mode == 2 {
            to_signed(self.size) + offset
        } else {
            return -1;
        };
        let position: i64 = if target < 0 {
            0
        } else {
            target
        };
        self.position = position as u64;
        position
    }

    /// This state is `before` with the position at `target`, or at the start where that is
    /// negative, and `r` is that position; the statistics of the pass are apart.
    pub open spec fn is_moved(&self, before: &IoState, target: int, r: i64) -> bool {
        &&& r as int == self.spec_position()
        &&& self.spec_position() == (if target < 0 {
            0
        } else {
            target
        })
        &&& self.spec_size() == before.spec_size()
        &&& self.spec_buf() == before.spec_buf()
        &&& self.spec_buf_start() == before.spec_buf_start()
        &&& self.spec_readahead() == before.spec_readahead()
        &&& self.spec_total() == before.spec_total()
    }
}

/// Whatever the callback fetches at an offset, `file` holds there.
pub open spec fn serves<F: Fn(u64, u64) -> Option<(Vec<u8>, u64)>>(read_at: F, file: Seq<u8>) -> bool {
    forall|offset: u64, len: u64, got: Option<(Vec<u8>, u64)>| #[trigger]
        read_at.ensures((offset, len), got) ==> (got matches Some((bytes, _)) ==> offset
            + bytes@.len() <= file.len() && bytes@ == file.subrange(
            offset as int,
            offset + bytes@.len(),
        ))
}

/// `whence` asks for the size.
pub open spec fn is_size_query(whence: i32) -> bool {
    whence & AVSEEK_SIZE != 0
}

/// `whence` asks for a move of this mode; bits above the low byte are hints.
pub open spec fn is_move(whence: i32, mode: i32) -> bool {
    !is_size_query(whence) && whence & 0xFF == mode
}

/// The bits of `n` as a signed number.
pub open spec fn signed_bits(n: u64) -> int {
    if n < 0x8000_0000_0000_0000 {
        n as int
    } else {
        n - 0x1_0000_0000_0000_0000
    }
}

fn to_signed(n: u64) -> (r: i64)
    ensures
        r as int == signed_bits(n),
{
    if n < 0x8000_0000_0000_0000 {
        n as i64
    } else {
        (n as i128 - 0x1_0000_0000_0000_0000) as i64
    }
}

fn copy_range(v: &Vec<u8>, from: usize, to: usize) -> (r: Vec<u8>)
    requires
        from <= to <= v@.len(),
    ensures
        r@ == v@.subrange(from as int, to as int),
{
    let mut out: Vec<u8> = Vec::with_capacity(to - from);
    let mut i: usize = from;
    while i < to
        invariant
            from <= i <= to <= v@.len(),
            out@ == v@.subrange(from as int, i as int),
        decreases to - i,
    {
        out.push(v[i]);
        i = i + 1;
        proof {
            assert(v@.subrange(from as int, i as int) =~= v@.subrange(from as int, i - 1).push(
                v@[i - 1],
            ));
        }
    }
    out
}

/// A read from a buffer that mirrors a file gives the bytes of the file at the position.
pub proof fn law_buffered_read_gives_the_file(s: &IoState, file: Seq<u8>, want: nat)
    requires
        s.wf(),
        s.is_buffered(),
        s.mirrors(file),
    ensures
        ({
            let got = s.buffered_bytes(want);
            &&& s.spec_position() + got.len() <= file.len()
            &&& got == file.subrange(s.spec_position() as int, s.spec_position() + got.len())
            &&& want > 0 ==> got.len() > 0
        }),
{
    let got = s.buffered_bytes(want);
    assert(got =~= file.subrange(s.spec_position() as int, s.spec_position() + got.len()));
}

/// A fetch that gives bytes of a file from the position on leaves a buffer that mirrors the file,
/// and serves the bytes of the file at the position.
pub proof fn law_fetched_read_gives_the_file(
    before: &IoState,
    after: &IoState,
    file: Seq<u8>,
    bytes: Seq<u8>,
    want: nat,
)
    requires
        bytes.len() > 0,
        before.spec_position() + bytes.len() <= file.len(),
        bytes == file.subrange(
            before.spec_position() as int,
            before.spec_position() + bytes.len(),
        ),
        after.spec_buf() == bytes,
        after.spec_buf_start() == before.spec_position(),
    ensures
        after.mirrors(file),
        ({
            let got = bytes.take(min(bytes.len() as int, want as int));
            got == file.subrange(
                before.spec_position() as int,
                before.spec_position() + got.len(),
            )
        }),
{
    let got = bytes.take(min(bytes.len() as int, want as int));
    assert(got =~= file.subrange(
        before.spec_position() as int,
        before.spec_position() + got.len(),
    ));
}

/// Neither a read from the buffer nor a seek changes what the buffer mirrors.
pub proof fn law_moving_keeps_the_mirror(before: &IoState, after: &IoState, file: Seq<u8>)
    requires
        before.mirrors(file),
        after.spec_buf() == before.spec_buf(),
        after.spec_buf_start() == before.spec_buf_start(),
    ensures
        after.mirrors(file),
{
}

/// After a seek into the buffer, a read gives the bytes of the file at the sought position.
pub proof fn law_read_after_seek_gives_the_file(
    before: &IoState,
    after: &IoState,
    file: Seq<u8>,
    target: int,
    r: i64,
    want: nat,
)
    requires
        before.wf(),
        before.mirrors(file),
        0 <= target,
        after.is_moved(before, target, r),
        after.is_buffered(),
    ensures
        ({
            let got = after.buffered_bytes(want);
            &&& target + got.len() <= file.len()
            &&& got == file.subrange(target, target + got.len())
        }),
{
    law_moving_keeps_the_mirror(before, after, file);
    law_buffered_read_gives_the_file(after, file, want);
}

/// The name that the format of an input is guessed from: the hint, or `input.mkv` where there is
/// none or it holds a NUL character.
pub fn input_name(hint: Option<&str>) -> (r: String)
    ensures
        r@ == (match hint {
            Some(h) if !h@.contains('\0') => h@,
            _ => "input.mkv"@,
        }),
{
    match hint {
        Some(h) => {
            let chars = chars_of(h);
            let mut i: usize = 0;
            while i < chars.len()
                invariant
                    hint == Some(h),
                    chars@ == h@,
                    i <= chars@.len(),
                    forall|k: int| 0 <= k < i ==> chars@[k] != '\0',
                decreases chars@.len() - i,
            {
                if chars[i] == '\0' {
                    proof {
                        assert(h@[i as int] == '\0');
                    }
                    return "input.mkv".to_owned();
                }
                i = i + 1;
            }
            h.to_owned()
        },
        None => "input.mkv".to_owned(),
    }
}

/// A fetch adds one to the count, its bytes to the bytes and its time to the time, as long as they
/// can be counted.
pub proof fn law_fetches_are_counted(s: FetchStats, n: nat, elapsed_us: u64)
    requires
        s.fetches < u64::MAX,
        s.bytes + n <= u64::MAX,
        s.time_us + elapsed_us <= u64::MAX,
    ensures
        s.plus(n, elapsed_us).fetches == s.fetches + 1,
        s.plus(n, elapsed_us).bytes == s.bytes + n,
        s.plus(n, elapsed_us).time_us == s.time_us + elapsed_us,
        FetchStats::zero().fetches == 0,
        FetchStats::zero().bytes == 0,
        FetchStats::zero().time_us == 0,
{
}

/// An input is at its start, with nothing fetched, and fetches 4 MiB at once where it is not told
/// otherwise.
pub proof fn law_input_starts_at_zero(size: u64, n: u64, told: IoState, untold: IoState)
    requires
        call_ensures(IoState::new, (size, Some(n)), told),
        call_ensures(IoState::new, (size, None::<u64>), untold),
    ensures
        told.spec_size() == size && untold.spec_size() == size,
        told.spec_position() == 0 && untold.spec_position() == 0,
        told.spec_buf().len() == 0 && untold.spec_buf().len() == 0,
        told.spec_total().fetches == 0 && untold.spec_pass().fetches == 0,
        told.spec_readahead() == n,
        untold.spec_readahead() == 4 * 1024 * 1024,
{
}

/// At the end of the input nothing is read; a byte that is in the buffer is read from there; else
/// as much is fetched from the position on as is read ahead, but never past the end.
pub proof fn law_reads_are_planned(s: IoState, r: ReadPlan)
    requires
        call_ensures(IoState::plan_read, (&s,), r),
    ensures
        r == ReadPlan::Eof <==> s.spec_position() >= s.spec_size(),
        r == ReadPlan::Buffered <==> s.spec_position() < s.spec_size() && s.spec_buf_start()
            <= s.spec_position() && s.spec_position() < s.spec_buf_start() + s.spec_buf().len(),
        r matches ReadPlan::Fetch { offset, len } ==> offset == s.spec_position() && len
            <= s.spec_readahead() && offset + len <= s.spec_size() && (len == s.spec_readahead()
            || offset + len == s.spec_size()),
{
}

/// A read from the buffer gives the bytes from the position on, as many as are wanted and there.
pub proof fn law_buffer_is_read_from_the_position(s: &IoState, want: nat, i: int)
    requires
        s.is_buffered(),
    ensures
        ({
            let there = s.spec_buf_start() + s.spec_buf().len() - s.spec_position();
            &&& want <= there ==> s.buffered_bytes(want).len() == want
            &&& want > there ==> s.buffered_bytes(want).len() == there
            &&& 0 <= i < s.buffered_bytes(want).len() ==> s.buffered_bytes(want)[i]
                == s.spec_buf()[s.spec_position() - s.spec_buf_start() + i]
        }),
{
}

/// After a fetch the buffer holds what was fetched, the position is behind what was read, and the
/// fetch is counted once in both statistics.
pub proof fn law_fetch_fills_the_buffer(
    before: &IoState,
    after: &IoState,
    bytes: Seq<u8>,
    elapsed_us: u64,
    want: nat,
    out: Seq<u8>,
    i: int,
)
    requires
        after.is_fetched(before, bytes, elapsed_us, want, out),
    ensures
        want <= bytes.len() ==> out.len() == want,
        want > bytes.len() ==> out.len() == bytes.len(),
        0 <= i < out.len() ==> out[i] == bytes[i],
        after.spec_buf() == bytes,
        after.spec_buf_start() == before.spec_position(),
        after.spec_position() == before.spec_position() + out.len(),
        after.spec_size() == before.spec_size(),
        after.spec_readahead() == before.spec_readahead(),
        before.spec_total().fetches < u64::MAX && before.spec_total().bytes + bytes.len()
            <= u64::MAX ==> after.spec_total().fetches == before.spec_total().fetches + 1
            && after.spec_total().bytes == before.spec_total().bytes + bytes.len(),
        before.spec_pass().fetches < u64::MAX && before.spec_pass().bytes + bytes.len() <= u64::MAX
            ==> after.spec_pass().fetches == before.spec_pass().fetches + 1
            && after.spec_pass().bytes == before.spec_pass().bytes + bytes.len(),
{
}

/// A move goes to its target, and to the start where the target is before it; nothing else changes.
pub proof fn law_moves_go_to_their_target(before: &IoState, after: &IoState, target: int, r: i64)
    requires
        after.is_moved(before, target, r),
    ensures
        target >= 0 ==> after.spec_position() == target && r == target,
        target < 0 ==> after.spec_position() == 0 && r == 0,
        after.spec_size() == before.spec_size(),
        after.spec_buf() == before.spec_buf(),
        after.spec_buf_start() == before.spec_buf_start(),
        after.spec_readahead() == before.spec_readahead(),
        after.spec_total() == before.spec_total(),
{
}

/// Every request is a query for the size, told by its seventeenth bit, or has the mode of its low
/// byte.
pub proof fn law_requests_are_told_apart(whence: i32, mode: i32)
    ensures
        is_size_query(whence) <==> whence & 0x10000 != 0,
        is_move(whence, mode) <==> whence & 0x10000 == 0 && whence & 0xff == mode,
        is_move(whence, 0) ==> !is_move(whence, 1) && !is_move(whence, 2) && !is_size_query(whence),
        0 <= whence < 256 ==> is_move(whence, whence),
{
    if 0 <= whence < 256 {
        assert(whence & 0x10000 == 0 && whence & 0xff == whence) by (bit_vector)
            requires
                0 <= whence < 256,
        ;
    }
}

/// A number below 2^63 is the same as a signed one.
pub proof fn law_small_numbers_keep_their_sign(n: u64)
    ensures
        n <= i64::MAX ==> signed_bits(n) == n,
        n > i64::MAX ==> signed_bits(n) == n - 0x1_0000_0000_0000_0000,
{
}

/// The format is guessed from the hint, and as Matroska where there is no usable one.
pub proof fn law_input_is_named_by_the_hint(hint: &str, named: String, unnamed: String)
    requires
        call_ensures(input_name, (Some(hint),), named),
        call_ensures(input_name, (None::<&str>,), unnamed),
    ensures
        !hint@.contains('\0') ==> named@ == hint@,
        hint@.contains('\0') ==> named@ == "input.mkv"@,
        unnamed@ == "input.mkv"@,
{
}

/// A seek can be counted exactly if its target can: every absolute move can, and one from the
/// position or from the end if the sum can.
pub proof fn law_seeks_that_fit(s: &IoState, offset: i64, whence: i32)
    ensures
        is_size_query(whence) || is_move(whence, 0) ==> s.seek_fits(offset, whence),
        is_move(whence, 1) && s.spec_position() <= i64::MAX ==> (s.seek_fits(offset, whence)
            <==> s.spec_position() + offset <= i64::MAX),
        is_move(whence, 2) && s.spec_size() <= i64::MAX ==> (s.seek_fits(offset, whence)
            <==> s.spec_size() + offset <= i64::MAX),
{
}

/// The buffer of a state is well placed exactly if its end can be counted.
pub proof fn law_buffer_ends_are_countable(s: &IoState)
    ensures
        s.wf() <==> s.spec_buf_start() + s.spec_buf().len() <= u64::MAX,
        s.is_buffered() <==> s.spec_buf_start() <= s.spec_position() && s.spec_position()
            < s.spec_buf_start() + s.spec_buf().len(),
{
}

/// A read from the buffer changes the position alone.
pub proof fn law_only_the_position_moves(a: &IoState, b: &IoState)
    ensures
        a.same_but_position(b) <==> a.spec_size() == b.spec_size() && a.spec_buf() == b.spec_buf()
            && a.spec_buf_start() == b.spec_buf_start() && a.spec_readahead() == b.spec_readahead()
            && a.spec_total() == b.spec_total() && a.spec_pass() == b.spec_pass(),
{
}

/// An absolute seek goes to its offset, one from the position or from the end goes so far from
/// there, and a query for the size moves nothing; what was fetched stays, and only an absolute seek
/// starts a new pass.
pub proof fn law_seek_goes_where_it_is_told(s: &mut IoState, offset: i64, whence: i32, r: i64)
    requires
        call_ensures(IoState::seek, (s, offset, whence), r),
        old(s).spec_position() <= i64::MAX,
        old(s).spec_size() <= i64::MAX,
    ensures
        whence == 0 && offset >= 0 ==> r == offset && final(s).spec_position() == offset,
        whence == 0 && offset < 0 ==> r == 0 && final(s).spec_position() == 0,
        whence == 0 ==> final(s).spec_pass().fetches == 0,
        whence == 1 && old(s).spec_position() + offset >= 0 ==> r == old(s).spec_position() + offset
            && final(s).spec_position() == old(s).spec_position() + offset,
        whence == 1 && old(s).spec_position() + offset < 0 ==> final(s).spec_position() == 0,
        whence == 2 && old(s).spec_size() + offset >= 0 ==> r == old(s).spec_size() + offset
            && final(s).spec_position() == old(s).spec_size() + offset,
        whence == 2 && old(s).spec_size() + offset < 0 ==> final(s).spec_position() == 0,
        whence == 1 || whence == 2 ==> final(s).spec_pass() == old(s).spec_pass(),
        whence == 0x10000 ==> r == old(s).spec_size() && *final(s) == *old(s),
        2 < whence < 256 ==> r == -1 && *final(s) == *old(s),
        final(s).spec_size() == old(s).spec_size(),
        final(s).spec_buf() == old(s).spec_buf(),
        final(s).spec_buf_start() == old(s).spec_buf_start(),
        final(s).spec_total() == old(s).spec_total(),
{
    law_requests_are_told_apart(whence, 0);
    law_requests_are_told_apart(whence, 1);
    law_requests_are_told_apart(whence, 2);
    assert(0x10000i32 & 0x10000 != 0) by (bit_vector);
}

/// A read from the buffer gives bytes of the buffer and moves the position behind them.
pub proof fn law_buffered_read_moves_on(s: &mut IoState, want: usize, r: Vec<u8>, i: int)
    requires
        call_ensures(IoState::read_buffered, (s, want), r),
        old(s).is_buffered(),
    ensures
        r@.len() <= want,
        want > 0 ==> r@.len() > 0,
        0 <= i < r@.len() ==> r@[i] == old(s).spec_buf()[old(s).spec_position()
            - old(s).spec_buf_start() + i],
        final(s).spec_position() == old(s).spec_position() + r@.len(),
        final(s).spec_buf() == old(s).spec_buf(),
        final(s).spec_buf_start() == old(s).spec_buf_start(),
        final(s).spec_total() == old(s).spec_total(),
{
}

/// A fetch of no bytes ends the input and changes nothing; any other is kept as the buffer, and its
/// first bytes are what is read.
pub proof fn law_fetch_is_completed(
    s: &mut IoState,
    bytes: Vec<u8>,
    elapsed_us: u64,
    want: usize,
    r: Option<Vec<u8>>,
    i: int,
)
    requires
        call_ensures(IoState::complete_fetch, (s, bytes, elapsed_us, want), r),
    ensures
        r is None <==> bytes@.len() == 0,
        r is None ==> *final(s) == *old(s),
        r is Some ==> r->0@.len() <= want && r->0@.len() <= bytes@.len() && (r->0@.len() == want
            || r->0@.len() == bytes@.len()),
        r is Some && 0 <= i < r->0@.len() ==> r->0@[i] == bytes@[i],
        r is Some ==> final(s).spec_buf() == bytes@ && final(s).spec_buf_start()
            == old(s).spec_position() && final(s).spec_position() == old(s).spec_position()
            + r->0@.len(),
{
}

} // verus!
