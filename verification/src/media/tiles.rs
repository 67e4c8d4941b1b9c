//! Images that are stored as a grid of tiles: decoding all tiles and putting them together.

use crate::error::Error;
use crate::text::{dec, dec_u64};
use vstd::prelude::*;

verus! {

/// Where a tile lies on the canvas.
#[derive(Clone, Copy, Debug, PartialEq, Eq, Structural)]
pub struct TileOffset {
    /// The place of the tile's stream in the group.
    pub idx: usize,
    pub horizontal: i32,
    pub vertical: i32,
}

/// A grid of tiles.
#[derive(Debug)]
pub struct TileGridInfo {
    pub coded_width: i32,
    pub coded_height: i32,
    pub width: i32,
    pub height: i32,
    pub horizontal_offset: i32,
    pub vertical_offset: i32,
    /// The tiles.
    pub tiles: Vec<TileOffset>,
    /// The number in the file of each stream of the group.
    pub stream_indices: Vec<usize>,
}

/// Whether the picture is less than the canvas.
pub fn needs_crop(tg: &TileGridInfo) -> (r: bool)
    ensures
        r == !(tg.width == tg.coded_width && tg.height == tg.coded_height && tg.horizontal_offset
            == 0 && tg.vertical_offset == 0),
{
    tg.width != tg.coded_width || tg.height != tg.coded_height || tg.horizontal_offset != 0
        || tg.vertical_offset != 0
}

/// The place in the group of the stream number `global`: the last one of that number.
pub open spec fn is_local_index(indices: Seq<usize>, global: int, local: int) -> bool {
    &&& 0 <= local < indices.len()
    &&& indices[local] == global
    &&& forall|j: int| local < j < indices.len() ==> #[trigger] indices[j] != global
}

/// The stream number `global` is not in the group, or has given its frame.
pub open spec fn passed_over(indices: Seq<usize>, done: Seq<bool>, global: int) -> bool {
    forall|local: int| #[trigger] is_local_index(indices, global, local) ==> done[local]
}

/// The number of entries that are set.
pub open spec fn count_set(v: Seq<bool>) -> nat
    decreases v.len(),
{
    if v.len() == 0 {
        0
    } else {
        count_set(v.drop_last()) + (if v.last() {
            1nat
        } else {
            0
        })
    }
}

proof fn lemma_count_bound(v: Seq<bool>)
    ensures
        count_set(v) <= v.len(),
        count_set(v) == v.len() ==> forall|i: int| 0 <= i < v.len() ==> #[trigger] v[i],
    decreases v.len(),
{
    if v.len() > 0 {
        lemma_count_bound(v.drop_last());
        assert forall|i: int| count_set(v) == v.len() && 0 <= i < v.len() implies #[trigger] v[i] by {
            if i < v.len() - 1 {
                assert(v.drop_last()[i]);
            }
        }
    }
}

proof fn lemma_count_update(v: Seq<bool>, i: int)
    requires
        0 <= i < v.len(),
        !v[i],
    ensures
        count_set(v.update(i, true)) == count_set(v) + 1,
    decreases v.len(),
{
    if i == v.len() - 1 {
        assert(v.update(i, true).drop_last() =~= v.drop_last());
    } else {
        assert(v.update(i, true).drop_last() =~= v.drop_last().update(i, true));
        lemma_count_update(v.drop_last(), i);
    }
}

/// Which streams of a group have given their frame.
#[derive(Debug)]
pub struct TileDecoder {
    stream_indices: Vec<usize>,
    decoded: Vec<bool>,
    count: usize,
}

impl TileDecoder {
    /// The numbers in the file of the streams of the group.
    pub closed spec fn streams(&self) -> Seq<usize> {
        self.stream_indices@
    }

    /// For each stream of the group, whether its frame is there.
    pub closed spec fn done(&self) -> Seq<bool> {
        self.decoded@
    }

    /// One entry per stream, and as many frames as were counted.
    pub closed spec fn wf(&self) -> bool {
        &&& self.decoded@.len() == self.stream_indices@.len()
        &&& self.count == count_set(self.decoded@)
    }

    /// A group of which nothing has been decoded.
    pub fn new(tg: &TileGridInfo) -> (r: Self)
        ensures
            r.wf(),
            r.streams() == tg.stream_indices@,
            r.done() == Seq::new(tg.stream_indices@.len(), |i: int| false),
    {
        let mut stream_indices: Vec<usize> = Vec::new();
        let mut decoded: Vec<bool> = Vec::new();
        let mut i: usize = 0;
        proof {
            assert(tg.stream_indices@.take(0) =~= Seq::<usize>::empty());
        }
        while i < tg.stream_indices.len()
            invariant
                i <= tg.stream_indices@.len(),
                stream_indices@ == tg.stream_indices@.take(i as int),
                decoded@ == Seq::new(i as nat, |i: int| false),
                count_set(decoded@) == 0,
            decreases tg.stream_indices@.len() - i,
        {
            stream_indices.push(tg.stream_indices[i]);
            decoded.push(false);
            i = i + 1;
            proof {
                assert(stream_indices@ =~= tg.stream_indices@.take(i as int));
                assert(decoded@.drop_last() =~= Seq::new((i - 1) as nat, |i: int| false));
                assert(decoded@ =~= Seq::new(i as nat, |i: int| false));
            }
        }
        proof {
            assert(tg.stream_indices@.take(i as int) =~= tg.stream_indices@);
        }
        TileDecoder { stream_indices, decoded, count: 0 }
    }

    /// Whether more packets are needed: some stream has not given its frame.
    pub fn wants_packet(&self) -> (r: bool)
        requires
            self.wf(),
        ensures
            r == exists|i: int|
                #![trigger self.done()[i]]
                0 <= i < self.done().len() && !self.done()[i],
            r == self.done().contains(false),
    {
        proof {
            lemma_count_bound(self.decoded@);
            if forall|i: int| 0 <= i < self.done().len() ==> #[trigger] self.done()[i] {
                lemma_all_set(self.done());
            } else {
                let i = choose|i: int| 0 <= i < self.done().len() && !#[trigger] self.done()[i];
                assert(!self.decoded@[i]);
                assert(self.done().contains(self.done()[i]));
            }
        }
        self.count < self.stream_indices.len()
    }

    /// The place in the group of the stream whose decoder is fed with a packet of the file's
    /// stream `stream_index`; none where the packet is passed over, because its stream is not in
    /// the group or has given its frame.
    pub fn accept_packet(&self, stream_index: i32) -> (r: Option<usize>)
        requires
            self.wf(),
        ensures
            match r {
                Some(local) => is_local_index(
                    self.streams(),
                    stream_index as int,
                    local as int,
                ) && !self.done()[local as int],
                None => forall|local: int|
                    #![trigger is_local_index(self.streams(), stream_index as int, local)]
                    is_local_index(self.streams(), stream_index as int, local)
                        ==> self.done()[local],
            },
            r is None ==> passed_over(self.streams(), self.done(), stream_index as int),
    {
        if stream_index < 0 {
            return None;
        }
        let mut i: usize = self.stream_indices.len();
        while i > 0
            invariant
                i <= self.stream_indices@.len(),
                stream_index >= 0,
                self.wf(),
                forall|j: int|
                    i <= j < self.stream_indices@.len() ==> #[trigger] self.stream_indices@[j]
                        != stream_index,
            decreases i,
        {
            i = i - 1;
            if self.stream_indices[i] == stream_index as usize {
                proof {
                    assert(is_local_index(self.streams(), stream_index as int, i as int));
                    assert forall|local: int| #[trigger]
                        is_local_index(
                            self.streams(),
                            stream_index as int,
                            local,
                        ) implies local == i by {
                        if local < i {
                            assert(self.stream_indices@[i as int] != stream_index);
                        }
                    }
                }
                if self.decoded[i] {
                    return None;
                }
                return Some(i);
            }
        }
        None
    }

    /// Notes that the stream at `local` has given its frame.
    pub fn frame_decoded(&mut self, local: usize)
        requires
            old(self).wf(),
            local < old(self).done().len(),
            !old(self).done()[local as int],
        ensures
            final(self).wf(),
            final(self).streams() == old(self).streams(),
            final(self).done() == old(self).done().update(local as int, true),
    {
        proof {
            lemma_count_bound(self.decoded@.update(local as int, true));
            lemma_count_update(self.decoded@, local as int);
        }
        proof {
            assert(self.count < self.decoded.len());
        }
        self.decoded.set(local, true);
        self.count = self.count + 1;
    }

    /// The streams that have not given their frame, in order: at the end of the file their
    /// decoders are flushed.
    pub fn pending(&self) -> (r: Vec<usize>)
        requires
            self.wf(),
        ensures
            forall|k: int, m: int| 0 <= k < m < r@.len() ==> r@[k] < r@[m],
            forall|k: int| 0 <= k < r@.len() ==> #[trigger] r@[k] < self.done().len()
                && !self.done()[r@[k] as int],
            forall|i: int|
                0 <= i < self.done().len() && !#[trigger] self.done()[i] ==> r@.contains(i as usize),
    {
        let mut out: Vec<usize> = Vec::new();
        let mut i: usize = 0;
        while i < self.decoded.len()
            invariant
                self.wf(),
                i <= self.decoded@.len(),
                forall|k: int, m: int| 0 <= k < m < out@.len() ==> out@[k] < out@[m],
                forall|k: int| 0 <= k < out@.len() ==> #[trigger] out@[k] < i
                    && !self.decoded@[out@[k] as int],
                forall|j: int|
                    0 <= j < i && !#[trigger] self.decoded@[j] ==> out@.contains(j as usize),
            decreases self.decoded@.len() - i,
        {
            let ghost before = out@;
            if !self.decoded[i] {
                out.push(i);
                proof {
                    assert(out@[before.len() as int] == i);
                    assert forall|j: int|
                        0 <= j < i + 1 && !#[trigger] self.decoded@[j] implies out@.contains(
                        j as usize,
                    ) by {
                        if j < i {
                            assert(before.contains(j as usize));
                            let k = choose|k: int| 0 <= k < before.len() && before[k] == j as usize;
                            assert(out@[k] == j as usize);
                        }
                    }
                }
            }
            i = i + 1;
        }
        out
    }

    /// Whether every stream has given its frame; if not, an error names the first that has not.
    pub fn finish(&self) -> (r: Result<(), Error>)
        requires
            self.wf(),
        ensures
            match r {
                Ok(_) => forall|i: int|
                    #![trigger self.done()[i]]
                    0 <= i < self.done().len() ==> self.done()[i],
                Err(e) => exists|i: int|
                    #![trigger self.done()[i]]
                    0 <= i < self.done().len() && !self.done()[i] && e.text()
                        == "Failed to decode tile stream "@ + dec(i) && forall|j: int|
                        #![trigger self.done()[j]]
                        0 <= j < i ==> self.done()[j],
            },
    {
        let mut i: usize = 0;
        while i < self.decoded.len()
            invariant
                i <= self.decoded@.len(),
                forall|j: int| 0 <= j < i ==> #[trigger] self.done()[j],
            decreases self.decoded@.len() - i,
        {
            if !self.decoded[i] {
                let mut message = "Failed to decode tile stream ".to_owned();
                message.append(dec_u64(i as u64).as_str());
                proof {
                    assert(!self.done()[i as int]);
                }
                return Err(Error::Other(message));
            }
            i = i + 1;
        }
        Ok(())
    }
}

proof fn lemma_all_set(v: Seq<bool>)
    requires
        forall|i: int| 0 <= i < v.len() ==> #[trigger] v[i],
    ensures
        count_set(v) == v.len(),
    decreases v.len(),
{
    if v.len() > 0 {
        assert forall|i: int| 0 <= i < v.drop_last().len() implies #[trigger] v.drop_last()[i] by {
            assert(v[i]);
        }
        lemma_all_set(v.drop_last());
        assert(v[v.len() - 1]);
    }
}

/// One plane of a picture: rows of `linesize` bytes.
#[derive(Debug)]
pub struct Plane {
    pub data: Vec<u8>,
    pub linesize: usize,
}

/// A picture in memory.
#[derive(Debug)]
pub struct Picture {
    pub width: usize,
    pub height: usize,
    pub planes: Vec<Plane>,
}

/// How a plane of a blank canvas is filled: how many bytes, and with what. Luma is black, chroma
/// is neutral and has half the rows.
pub fn plane_fill(plane: usize, linesize: u32, height: u32) -> (r: (u64, u8))
    ensures
        r.0 == linesize * (if plane == 0 {
            height as int
        } else {
            height as int / 2
        }),
        r.1 == (if plane == 0 {
            0u8
        } else {
            128u8
        }),
{
    let rows: u32 = if plane == 0 {
        height
    } else {
        height / 2
    };
    proof {
        assert(0 <= linesize * rows <= 0xffff_ffff_ffff_ffff) by (nonlinear_arith)
            requires
                0 <= linesize <= 0xffff_ffff,
                0 <= rows <= 0xffff_ffff,
        ;
    }
    let value: u8 = if plane == 0 {
        0
    } else {
        128
    };
    ((linesize as u64) * (rows as u64), value)
}

/// `dst` with `n` bytes from `at` on replaced by those of `src` from `from` on.
pub open spec fn row_copied(dst: Seq<u8>, at: int, src: Seq<u8>, from: int, n: int) -> Seq<u8> {
    Seq::new(
        dst.len(),
        |i: int|
            if at <= i < at + n {
                src[from + i - at]
            } else {
                dst[i]
            },
    )
}

/// Where row `y` at column `x` starts.
pub open spec fn place(linesize: int, x: int, y: int) -> int {
    y * linesize + x
}

/// `dst` with the first `rows` rows of `src`, `w` bytes each, put at column `x` and row `y`.
pub open spec fn blitted(
    dst: Seq<u8>,
    dst_linesize: int,
    src: Seq<u8>,
    src_linesize: int,
    x: int,
    y: int,
    w: int,
    rows: nat,
) -> Seq<u8>
    decreases rows,
{
    if rows == 0 {
        dst
    } else {
        row_copied(
            blitted(dst, dst_linesize, src, src_linesize, x, y, w, (rows - 1) as nat),
            place(dst_linesize, x, y + rows - 1),
            src,
            place(src_linesize, 0, rows - 1),
            w,
        )
    }
}

/// A rectangle of `w` bytes and `h` rows at column `x` and row `y` lies within `len` bytes.
pub open spec fn lies_within(len: int, linesize: int, x: int, y: int, w: int, h: int) -> bool {
    h == 0 || place(linesize, x, y + h - 1) + w <= len
}

proof fn lemma_place_monotone(linesize: int, x: int, y: int, z: int)
    requires
        linesize >= 0,
        y <= z,
    ensures
        place(linesize, x, y) <= place(linesize, x, z),
{
    assert(y * linesize <= z * linesize) by (nonlinear_arith)
        requires
            linesize >= 0,
            y <= z,
    ;
}

fn copy_row(dst: &mut Vec<u8>, at: usize, src: &Vec<u8>, from: usize, n: usize)
    requires
        at + n <= old(dst)@.len(),
        from + n <= src@.len(),
    ensures
        final(dst)@ == row_copied(old(dst)@, at as int, src@, from as int, n as int),
{
    let ghost before = dst@;
    let mut i: usize = 0;
    proof {
        assert(dst@ =~= row_copied(before, at as int, src@, from as int, 0));
    }
    while i < n
        invariant
            i <= n,
            at + n <= dst.len(),
            from + n <= src.len(),
            before.len() == dst@.len(),
            dst@ == row_copied(before, at as int, src@, from as int, i as int),
        decreases n - i,
    {
        let b: u8 = src[from + i];
        dst.set(at + i, b);
        i = i + 1;
        proof {
            assert(dst@ =~= row_copied(before, at as int, src@, from as int, i as int));
        }
    }
}

proof fn lemma_blitted_len(
    dst: Seq<u8>,
    dst_linesize: int,
    src: Seq<u8>,
    src_linesize: int,
    x: int,
    y: int,
    w: int,
    rows: nat,
)
    ensures
        blitted(dst, dst_linesize, src, src_linesize, x, y, w, rows).len() == dst.len(),
    decreases rows,
{
    if rows > 0 {
        lemma_blitted_len(dst, dst_linesize, src, src_linesize, x, y, w, (rows - 1) as nat);
    }
}

/// Copies one plane of a tile onto the canvas, at column `x` and row `y`.
pub fn blit_plane(canvas: &mut Plane, tile: &Plane, x: usize, y: usize, w: usize, h: usize)
    requires
        lies_within(
            old(canvas).data@.len() as int,
            old(canvas).linesize as int,
            x as int,
            y as int,
            w as int,
            h as int,
        ),
        lies_within(tile.data@.len() as int, tile.linesize as int, 0, 0, w as int, h as int),
    ensures
        final(canvas).linesize == old(canvas).linesize,
        final(canvas).data@ == blitted(
            old(canvas).data@,
            old(canvas).linesize as int,
            tile.data@,
            tile.linesize as int,
            x as int,
            y as int,
            w as int,
            h as nat,
        ),
        final(canvas).data@.len() == old(canvas).data@.len(),
{
    let ghost before = canvas.data@;
    let linesize: usize = canvas.linesize;
    let len: usize = canvas.data.len();
    let tile_len: usize = tile.data.len();
    let mut row: usize = 0;
    while row < h
        invariant
            row <= h,
            linesize == canvas.linesize,
            canvas.linesize == old(canvas).linesize,
            canvas.data@.len() == len,
            before.len() == len,
            tile.data@.len() == tile_len,
            lies_within(len as int, linesize as int, x as int, y as int, w as int, h as int),
            lies_within(tile_len as int, tile.linesize as int, 0, 0, w as int, h as int),
            canvas.data@ == blitted(
                before,
                linesize as int,
                tile.data@,
                tile.linesize as int,
                x as int,
                y as int,
                w as int,
                row as nat,
            ),
        decreases h - row,
    {
        proof {
            lemma_place_monotone(linesize as int, x as int, y + row, y + h - 1);
            lemma_place_monotone(tile.linesize as int, 0, row as int, h - 1);
            assert((y + row) * linesize + x + w <= len);
            assert(row * tile.linesize + w <= tile_len);
            assert(0 <= (y + row) * linesize <= len) by (nonlinear_arith)
                requires
                    y >= 0,
                    row >= 0,
                    linesize >= 0,
                    x >= 0,
                    w >= 0,
                    (y + row) * linesize + x + w <= len,
            ;
            assert(0 <= row * tile.linesize) by (nonlinear_arith)
                requires
                    row >= 0,
                    tile.linesize >= 0,
            ;
        }
        let at: usize = row_start(linesize, x, y, row, len);
        let from: usize = row * tile.linesize;
        copy_row(&mut canvas.data, at, &tile.data, from, w);
        row = row + 1;
    }
}

/// The offset of row `y + row` at column `x` of a buffer of `len` bytes.
fn row_start(linesize: usize, x: usize, y: usize, row: usize, len: usize) -> (r: usize)
    requires
        place(linesize as int, x as int, y + row) <= len,
    ensures
        r == place(linesize as int, x as int, y + row),
{
    let line: u128 = y as u128 + row as u128;
    proof {
        assert(0 <= line * linesize <= len) by (nonlinear_arith)
            requires
                line == y + row,
                line >= 0,
                linesize >= 0,
                x >= 0,
                (y + row) * linesize + x <= len,
        ;
    }
    (line * (linesize as u128)) as usize + x
}

/// A byte of the canvas after a blit: where rows do not run over the end of a line, the bytes of
/// the rectangle are those of the tile, and every other byte is as it was.
pub proof fn law_blit_copies_the_rectangle(
    dst: Seq<u8>,
    dst_linesize: int,
    src: Seq<u8>,
    src_linesize: int,
    x: int,
    y: int,
    w: int,
    h: nat,
    col: int,
    row: int,
)
    requires
        0 <= x,
        0 <= y,
        0 <= w,
        x + w <= dst_linesize,
        0 <= col < dst_linesize,
        0 <= row,
        place(dst_linesize, col, row) < dst.len(),
    ensures
        blitted(dst, dst_linesize, src, src_linesize, x, y, w, h)[place(dst_linesize, col, row)]
            == (if y <= row < y + h && x <= col < x + w {
            src[place(src_linesize, col - x, row - y)]
        } else {
            dst[place(dst_linesize, col, row)]
        }),
    decreases h,
{
    assert(0 <= place(dst_linesize, col, row)) by (nonlinear_arith)
        requires
            place(dst_linesize, col, row) == row * dst_linesize + col,
            row >= 0,
            dst_linesize >= 0,
            col >= 0,
    ;
    if h > 0 {
        let before = (h - 1) as nat;
        law_blit_copies_the_rectangle(
            dst,
            dst_linesize,
            src,
            src_linesize,
            x,
            y,
            w,
            before,
            col,
            row,
        );
        lemma_blitted_len(dst, dst_linesize, src, src_linesize, x, y, w, before);
        let at = place(dst_linesize, x, y + h - 1);
        let i = place(dst_linesize, col, row);
        let last = y + h - 1;
        if row < last {
            assert(row * dst_linesize + dst_linesize <= last * dst_linesize) by (nonlinear_arith)
                requires
                    row + 1 <= last,
                    dst_linesize >= 0,
            ;
            assert(i < at);
        } else if row > last {
            assert(last * dst_linesize + dst_linesize <= row * dst_linesize) by (nonlinear_arith)
                requires
                    last + 1 <= row,
                    dst_linesize >= 0,
            ;
            assert(i >= at + w);
        }
    }
}

/// The bytes of the planes of a picture.
pub open spec fn plane_bytes(p: Seq<Plane>) -> Seq<Seq<u8>> {
    p.map_values(|q: Plane| q.data@)
}

/// The line sizes of the planes of a picture.
pub open spec fn line_sizes(p: Seq<Plane>) -> Seq<usize> {
    p.map_values(|q: Plane| q.linesize)
}

/// `planes` with plane `k` of a tile put on it; chroma planes (`half`) have half the size.
pub open spec fn with_plane(
    planes: Seq<Seq<u8>>,
    sizes: Seq<usize>,
    tile: Picture,
    offset: TileOffset,
    k: int,
    half: bool,
) -> Seq<Seq<u8>> {
    let d: int = if half {
        2
    } else {
        1
    };
    planes.update(
        k,
        blitted(
            planes[k],
            sizes[k] as int,
            tile.planes@[k].data@,
            tile.planes@[k].linesize as int,
            offset.horizontal as int / d,
            offset.vertical as int / d,
            tile.width as int / d,
            (tile.height as int / d) as nat,
        ),
    )
}

/// `planes` with a tile put on it: its luma plane, and in 4:2:0 pictures its two chroma planes at
/// half the size.
pub open spec fn with_tile(
    planes: Seq<Seq<u8>>,
    sizes: Seq<usize>,
    tile: Picture,
    offset: TileOffset,
    yuv420: bool,
) -> Seq<Seq<u8>> {
    let luma = with_plane(planes, sizes, tile, offset, 0, false);
    if yuv420 {
        with_plane(
            with_plane(luma, sizes, tile, offset, 1, true),
            sizes,
            tile,
            offset,
            2,
            true,
        )
    } else {
        luma
    }
}

/// `planes` with the first `n` tiles put on it, one after the other.
pub open spec fn with_tiles(
    planes: Seq<Seq<u8>>,
    sizes: Seq<usize>,
    tiles: Seq<Option<Picture>>,
    offsets: Seq<TileOffset>,
    yuv420: bool,
    n: nat,
) -> Seq<Seq<u8>>
    decreases n,
{
    if n == 0 {
        planes
    } else {
        let before = with_tiles(planes, sizes, tiles, offsets, yuv420, (n - 1) as nat);
        match tiles[offsets[n - 1].idx as int] {
            Some(t) => with_tile(before, sizes, t, offsets[n - 1], yuv420),
            None => before,
        }
    }
}

/// Plane `k` of the tile fits on the canvas and is all there.
pub open spec fn plane_fits(
    canvas: Seq<Plane>,
    tile: Picture,
    offset: TileOffset,
    k: int,
    half: bool,
) -> bool {
    let d: int = if half {
        2
    } else {
        1
    };
    &&& k < canvas.len() && k < tile.planes@.len()
    &&& lies_within(
        canvas[k].data@.len() as int,
        canvas[k].linesize as int,
        offset.horizontal as int / d,
        offset.vertical as int / d,
        tile.width as int / d,
        tile.height as int / d,
    )
    &&& lies_within(
        tile.planes@[k].data@.len() as int,
        tile.planes@[k].linesize as int,
        0,
        0,
        tile.width as int / d,
        tile.height as int / d,
    )
}

/// The tile fits on the canvas.
pub open spec fn tile_fits(
    canvas: Seq<Plane>,
    tile: Picture,
    offset: TileOffset,
    yuv420: bool,
) -> bool {
    &&& offset.horizontal >= 0 && offset.vertical >= 0
    &&& plane_fits(canvas, tile, offset, 0, false)
    &&& yuv420 ==> plane_fits(canvas, tile, offset, 1, true) && plane_fits(
        canvas,
        tile,
        offset,
        2,
        true,
    )
}

/// Every tile that is there fits on the canvas.
pub open spec fn tiles_fit(
    canvas: Seq<Plane>,
    tiles: Seq<Option<Picture>>,
    offsets: Seq<TileOffset>,
    yuv420: bool,
) -> bool {
    forall|k: int|
        0 <= k < offsets.len() ==> (#[trigger] offsets[k]).idx < tiles.len() && (
        tiles[offsets[k].idx as int] matches Some(t) ==> tile_fits(
            canvas,
            t,
            offsets[k],
            yuv420,
        ))
}

/// The two pictures have planes of the same sizes.
pub open spec fn same_shape(a: Seq<Plane>, b: Seq<Plane>) -> bool {
    &&& a.len() == b.len()
    &&& forall|k: int|
        0 <= k < a.len() ==> (#[trigger] a[k]).linesize == b[k].linesize && a[k].data@.len()
            == b[k].data@.len()
}

fn rectangle_lies_within(len: usize, linesize: usize, x: usize, y: usize, w: usize, h: usize) -> (r:
    bool)
    ensures
        r == lies_within(len as int, linesize as int, x as int, y as int, w as int, h as int),
{
    if h == 0 {
        return true;
    }
    let last: u128 = y as u128 + (h as u128 - 1);
    if linesize == 0 {
        proof {
            assert(place(linesize as int, x as int, y + h - 1) == x) by (nonlinear_arith)
                requires
                    linesize == 0,
                    place(linesize as int, x as int, y + h - 1) == (y + h - 1) * linesize + x,
            ;
        }
        return x as u128 + w as u128 <= len as u128;
    }
    if last > len as u128 {
        proof {
            assert(last * linesize >= last) by (nonlinear_arith)
                requires
                    last >= 0,
                    linesize >= 1,
            ;
        }
        return false;
    }
    proof {
        assert(0 <= last * linesize <= 0xffff_ffff_ffff_ffff * 0xffff_ffff_ffff_ffff)
            by (nonlinear_arith)
            requires
                0 <= last <= 0xffff_ffff_ffff_ffff,
                0 <= linesize <= 0xffff_ffff_ffff_ffff,
        ;
    }
    last * (linesize as u128) + x as u128 + w as u128 <= len as u128
}

fn plane_does_fit(
    canvas: &Picture,
    tile: &Picture,
    offset: TileOffset,
    k: usize,
    half: bool,
) -> (r: bool)
    requires
        offset.horizontal >= 0,
        offset.vertical >= 0,
    ensures
        r == plane_fits(canvas.planes@, *tile, offset, k as int, half),
{
    if k >= canvas.planes.len() || k >= tile.planes.len() {
        return false;
    }
    let d: usize = if half {
        2
    } else {
        1
    };
    let x: usize = offset.horizontal as usize / d;
    let y: usize = offset.vertical as usize / d;
    let c = &canvas.planes[k];
    let t = &tile.planes[k];
    let (w, h) = (tile.width / d, tile.height / d);
    rectangle_lies_within(c.data.len(), c.linesize, x, y, w, h) && rectangle_lies_within(
        t.data.len(),
        t.linesize,
        0,
        0,
        w,
        h,
    )
}

/// Whether every tile that is there fits on the canvas.
pub fn tiles_do_fit(
    canvas: &Picture,
    tiles: &Vec<Option<Picture>>,
    offsets: &Vec<TileOffset>,
    yuv420: bool,
) -> (r: bool)
    ensures
        r == tiles_fit(canvas.planes@, tiles@, offsets@, yuv420),
{
    let mut i: usize = 0;
    while i < offsets.len()
        invariant
            i <= offsets@.len(),
            forall|k: int|
                0 <= k < i ==> (#[trigger] offsets@[k]).idx < tiles@.len() && (
                tiles@[offsets@[k].idx as int] matches Some(t) ==> tile_fits(
                    canvas.planes@,
                    t,
                    offsets@[k],
                    yuv420,
                )),
        decreases offsets@.len() - i,
    {
        let offset = offsets[i];
        let ghost here = offsets@[i as int];
        if offset.idx >= tiles.len() {
            return false;
        }
        match &tiles[offset.idx] {
            Some(tile) => {
                if offset.horizontal < 0 || offset.vertical < 0 {
                    return false;
                }
                if !plane_does_fit(canvas, tile, offset, 0, false) {
                    return false;
                }
                if yuv420 && !(plane_does_fit(canvas, tile, offset, 1, true) && plane_does_fit(
                    canvas,
                    tile,
                    offset,
                    2,
                    true,
                )) {
                    return false;
                }
            },
            None => {},
        }
        i = i + 1;
    }
    true
}

fn blit_tile_plane(
    canvas: &mut Picture,
    tile: &Picture,
    offset: TileOffset,
    k: usize,
    half: bool,
)
    requires
        offset.horizontal >= 0,
        offset.vertical >= 0,
        plane_fits(old(canvas).planes@, *tile, offset, k as int, half),
    ensures
        final(canvas).width == old(canvas).width,
        final(canvas).height == old(canvas).height,
        same_shape(final(canvas).planes@, old(canvas).planes@),
        plane_bytes(final(canvas).planes@) == with_plane(
            plane_bytes(old(canvas).planes@),
            line_sizes(old(canvas).planes@),
            *tile,
            offset,
            k as int,
            half,
        ),
        line_sizes(final(canvas).planes@) == line_sizes(old(canvas).planes@),
{
    let d: usize = if half {
        2
    } else {
        1
    };
    let x: usize = offset.horizontal as usize / d;
    let y: usize = offset.vertical as usize / d;
    blit_plane(&mut canvas.planes[k], &tile.planes[k], x, y, tile.width / d, tile.height / d);
    proof {
        assert(plane_bytes(canvas.planes@) =~= with_plane(
            plane_bytes(old(canvas).planes@),
            line_sizes(old(canvas).planes@),
            *tile,
            offset,
            k as int,
            half,
        ));
        assert(line_sizes(canvas.planes@) =~= line_sizes(old(canvas).planes@));
    }
}

/// The tile of offset `k` is the first that is not there.
pub open spec fn is_first_missing(
    tiles: Seq<Option<Picture>>,
    offsets: Seq<TileOffset>,
    k: int,
) -> bool {
    &&& 0 <= k < offsets.len()
    &&& tiles[offsets[k].idx as int] is None
    &&& forall|j: int| 0 <= j < k ==> tiles[(#[trigger] offsets[j]).idx as int] is Some
}

/// Puts the decoded tiles on the canvas, in the order of `offsets`. It is an error that a tile is
/// not there; the canvas then holds the tiles before the first missing one.
pub fn blit_tiles(
    canvas: &mut Picture,
    tiles: &Vec<Option<Picture>>,
    offsets: &Vec<TileOffset>,
    yuv420: bool,
) -> (r: Result<(), Error>)
    requires
        tiles_fit(old(canvas).planes@, tiles@, offsets@, yuv420),
    ensures
        final(canvas).width == old(canvas).width,
        final(canvas).height == old(canvas).height,
        same_shape(final(canvas).planes@, old(canvas).planes@),
        match r {
            Ok(_) => {
                &&& forall|k: int|
                    0 <= k < offsets@.len() ==> tiles@[(#[trigger] offsets@[k]).idx as int] is Some
                &&& plane_bytes(final(canvas).planes@) == with_tiles(
                    plane_bytes(old(canvas).planes@),
                    line_sizes(old(canvas).planes@),
                    tiles@,
                    offsets@,
                    yuv420,
                    offsets@.len(),
                )
            },
            Err(e) => e.text() == "Missing tile frame"@ && exists|k: int| #[trigger]
                is_first_missing(tiles@, offsets@, k) && plane_bytes(final(canvas).planes@)
                    == with_tiles(
                    plane_bytes(old(canvas).planes@),
                    line_sizes(old(canvas).planes@),
                    tiles@,
                    offsets@,
                    yuv420,
                    k as nat,
                ),
        },
{
    let mut i: usize = 0;
    while i < offsets.len()
        invariant
            i <= offsets@.len(),
            canvas.width == old(canvas).width,
            canvas.height == old(canvas).height,
            same_shape(canvas.planes@, old(canvas).planes@),
            line_sizes(canvas.planes@) == line_sizes(old(canvas).planes@),
            tiles_fit(old(canvas).planes@, tiles@, offsets@, yuv420),
            forall|k: int|
                0 <= k < i ==> tiles@[(#[trigger] offsets@[k]).idx as int] is Some,
            plane_bytes(canvas.planes@) == with_tiles(
                plane_bytes(old(canvas).planes@),
                line_sizes(old(canvas).planes@),
                tiles@,
                offsets@,
                yuv420,
                i as nat,
            ),
        decreases offsets@.len() - i,
    {
        let offset = offsets[i];
        proof {
            assert(offsets@[i as int].idx < tiles@.len());
        }
        match &tiles[offset.idx] {
            Some(tile) => {
                proof {
                    assert(tile_fits(old(canvas).planes@, *tile, offset, yuv420));
                }
                blit_tile_plane(canvas, tile, offset, 0, false);
                if yuv420 {
                    blit_tile_plane(canvas, tile, offset, 1, true);
                    blit_tile_plane(canvas, tile, offset, 2, true);
                }
            },
            None => {
                proof {
                    assert(is_first_missing(tiles@, offsets@, i as int));
                }
                return Err(Error::other("Missing tile frame"));
            },
        }
        i = i + 1;
    }
    Ok(())
}

/// By how much the sides of plane `k` are divided: the chroma planes have half the size.
pub open spec fn plane_divisor(k: int) -> int {
    if k == 0 {
        1
    } else {
        2
    }
}

/// The tile at `offset` covers a pixel of plane `k`.
pub open spec fn covers(tile: Option<Picture>, offset: TileOffset, k: int, col: int, row: int) -> bool {
    let d = plane_divisor(k);
    tile matches Some(t) && offset.horizontal as int / d <= col < offset.horizontal as int / d
        + t.width as int / d && offset.vertical as int / d <= row < offset.vertical as int / d
        + t.height as int / d
}

/// The pixel of plane `k` of a tile that lies at a place of the canvas.
pub open spec fn tile_pixel(tile: Picture, offset: TileOffset, k: int, col: int, row: int) -> u8 {
    let d = plane_divisor(k);
    tile.planes@[k].data@[place(
        tile.planes@[k].linesize as int,
        col - offset.horizontal as int / d,
        row - offset.vertical as int / d,
    )]
}

/// Tiles lie right of the left edge and below the upper edge, and in plane `k` none runs over the
/// end of a line.
pub open spec fn lie_in_lines(
    tiles: Seq<Option<Picture>>,
    offsets: Seq<TileOffset>,
    k: int,
    linesize: int,
) -> bool {
    forall|i: int|
        0 <= i < offsets.len() ==> (#[trigger] offsets[i]).horizontal >= 0 && offsets[i].vertical >= 0
            && (tiles[offsets[i].idx as int] matches Some(t) ==> offsets[i].horizontal as int
            / plane_divisor(k) + t.width as int / plane_divisor(k) <= linesize)
}

/// Plane `k` is one that tiles are put on: luma, or chroma of a 4:2:0 picture.
pub open spec fn is_composed_plane(k: int, yuv420: bool) -> bool {
    k == 0 || (yuv420 && (k == 1 || k == 2))
}

/// The planes of the canvas are there.
pub open spec fn has_planes(planes: Seq<Seq<u8>>, sizes: Seq<usize>, yuv420: bool) -> bool {
    &&& planes.len() >= 1
    &&& yuv420 ==> planes.len() >= 3
    &&& sizes.len() == planes.len()
}

proof fn lemma_tile_plane(
    planes: Seq<Seq<u8>>,
    sizes: Seq<usize>,
    tile: Picture,
    offset: TileOffset,
    yuv420: bool,
    k: int,
)
    requires
        has_planes(planes, sizes, yuv420),
        is_composed_plane(k, yuv420),
    ensures
        with_tile(planes, sizes, tile, offset, yuv420).len() == planes.len(),
        ({
            let d = plane_divisor(k);
            with_tile(planes, sizes, tile, offset, yuv420)[k] == blitted(
                planes[k],
                sizes[k] as int,
                tile.planes@[k].data@,
                tile.planes@[k].linesize as int,
                offset.horizontal as int / d,
                offset.vertical as int / d,
                tile.width as int / d,
                (tile.height as int / d) as nat,
            )
        }),
        with_tile(planes, sizes, tile, offset, yuv420)[k].len() == planes[k].len(),
{
    let d = plane_divisor(k);
    lemma_blitted_len(
        planes[k],
        sizes[k] as int,
        tile.planes@[k].data@,
        tile.planes@[k].linesize as int,
        offset.horizontal as int / d,
        offset.vertical as int / d,
        tile.width as int / d,
        (tile.height as int / d) as nat,
    );
}

proof fn lemma_tiles_keep_sizes(
    planes: Seq<Seq<u8>>,
    sizes: Seq<usize>,
    tiles: Seq<Option<Picture>>,
    offsets: Seq<TileOffset>,
    yuv420: bool,
    k: int,
    n: nat,
)
    requires
        has_planes(planes, sizes, yuv420),
        is_composed_plane(k, yuv420),
    ensures
        with_tiles(planes, sizes, tiles, offsets, yuv420, n).len() == planes.len(),
        with_tiles(planes, sizes, tiles, offsets, yuv420, n)[k].len() == planes[k].len(),
    decreases n,
{
    if n > 0 {
        lemma_tiles_keep_sizes(planes, sizes, tiles, offsets, yuv420, k, (n - 1) as nat);
        let before = with_tiles(planes, sizes, tiles, offsets, yuv420, (n - 1) as nat);
        match tiles[offsets[n - 1].idx as int] {
            Some(t) => {
                lemma_tile_plane(before, sizes, t, offsets[n - 1], yuv420, k);
            },
            None => {},
        }
    }
}

proof fn lemma_one_tile(
    planes: Seq<Seq<u8>>,
    sizes: Seq<usize>,
    tiles: Seq<Option<Picture>>,
    offsets: Seq<TileOffset>,
    yuv420: bool,
    k: int,
    n: nat,
    col: int,
    row: int,
)
    requires
        has_planes(planes, sizes, yuv420),
        is_composed_plane(k, yuv420),
        0 < n <= offsets.len(),
        lie_in_lines(tiles, offsets, k, sizes[k] as int),
        0 <= col < sizes[k],
        0 <= row,
        place(sizes[k] as int, col, row) < planes[k].len(),
    ensures
        ({
            let o = offsets[n - 1];
            let tile = tiles[o.idx as int];
            let at = place(sizes[k] as int, col, row);
            let before = with_tiles(planes, sizes, tiles, offsets, yuv420, (n - 1) as nat);
            let after = with_tiles(planes, sizes, tiles, offsets, yuv420, n);
            after[k][at] == (if covers(tile, o, k, col, row) {
                tile_pixel(tile->0, o, k, col, row)
            } else {
                before[k][at]
            })
        }),
{
    let o = offsets[n - 1];
    let d = plane_divisor(k);
    assert(o.horizontal >= 0 && o.vertical >= 0);
    let before = with_tiles(planes, sizes, tiles, offsets, yuv420, (n - 1) as nat);
    lemma_tiles_keep_sizes(planes, sizes, tiles, offsets, yuv420, k, (n - 1) as nat);
    match tiles[o.idx as int] {
        Some(t) => {
            lemma_tile_plane(before, sizes, t, o, yuv420, k);
            law_blit_copies_the_rectangle(
                before[k],
                sizes[k] as int,
                t.planes@[k].data@,
                t.planes@[k].linesize as int,
                o.horizontal as int / d,
                o.vertical as int / d,
                t.width as int / d,
                (t.height as int / d) as nat,
                col,
                row,
            );
        },
        None => {},
    }
}

/// The last of the first `n` tiles that covers a pixel of plane `k`.
pub open spec fn is_last_cover(
    tiles: Seq<Option<Picture>>,
    offsets: Seq<TileOffset>,
    k: int,
    n: nat,
    i: int,
    col: int,
    row: int,
) -> bool {
    &&& 0 <= i < n
    &&& covers(tiles[offsets[i].idx as int], offsets[i], k, col, row)
    &&& forall|j: int|
        i < j < n ==> !covers(tiles[(#[trigger] offsets[j]).idx as int], offsets[j], k, col, row)
}

/// A pixel of a composed plane is that of the last tile that covers it; a pixel that no tile
/// covers is that of the canvas. This holds of the luma plane, and in 4:2:0 pictures of the two
/// chroma planes at half the size.
pub proof fn law_pixel_shows_its_tile(
    planes: Seq<Seq<u8>>,
    sizes: Seq<usize>,
    tiles: Seq<Option<Picture>>,
    offsets: Seq<TileOffset>,
    yuv420: bool,
    k: int,
    n: nat,
    col: int,
    row: int,
)
    requires
        has_planes(planes, sizes, yuv420),
        is_composed_plane(k, yuv420),
        n <= offsets.len(),
        lie_in_lines(tiles, offsets, k, sizes[k] as int),
        0 <= col < sizes[k],
        0 <= row,
        place(sizes[k] as int, col, row) < planes[k].len(),
    ensures
        ({
            let at = place(sizes[k] as int, col, row);
            let composed = with_tiles(planes, sizes, tiles, offsets, yuv420, n)[k];
            &&& forall|i: int| #[trigger]
                is_last_cover(tiles, offsets, k, n, i, col, row) ==> composed[at] == tile_pixel(
                    tiles[offsets[i].idx as int]->0,
                    offsets[i],
                    k,
                    col,
                    row,
                )
            &&& (forall|j: int|
                0 <= j < n ==> !covers(
                    tiles[(#[trigger] offsets[j]).idx as int],
                    offsets[j],
                    k,
                    col,
                    row,
                )) ==> composed[at] == planes[k][at]
        }),
    decreases n,
{
    if n > 0 {
        let m = (n - 1) as nat;
        law_pixel_shows_its_tile(planes, sizes, tiles, offsets, yuv420, k, m, col, row);
        lemma_one_tile(planes, sizes, tiles, offsets, yuv420, k, n, col, row);
        let o = offsets[n - 1];
        let composed = with_tiles(planes, sizes, tiles, offsets, yuv420, n)[k];
        assert forall|i: int| #[trigger]
            is_last_cover(tiles, offsets, k, n, i, col, row) implies composed[place(
            sizes[k] as int,
            col,
            row,
        )] == tile_pixel(tiles[offsets[i].idx as int]->0, offsets[i], k, col, row) by {
            if i < n - 1 {
                assert(!covers(tiles[offsets[n - 1].idx as int], offsets[n - 1], k, col, row));
                assert(is_last_cover(tiles, offsets, k, m, i, col, row));
            }
        }
    }
}

/// A pixel of a tile lands on the canvas at the tile's offset, counted in bytes from the start of
/// the plane; in 4:2:0 pictures the chroma planes have half the offsets and half the size, and in
/// other pictures they stay as they are.
pub proof fn law_tile_lands_at_its_offset(
    planes: Seq<Seq<u8>>,
    sizes: Seq<usize>,
    tile: Picture,
    offset: TileOffset,
    yuv420: bool,
    col: int,
    row: int,
)
    requires
        planes.len() == 3,
        sizes.len() == 3,
        0 <= offset.horizontal,
        0 <= offset.vertical,
        0 <= col,
        0 <= row,
    ensures
        offset.horizontal + tile.width <= sizes[0] && col < tile.width && row < tile.height && (
        offset.vertical + row) * sizes[0] + offset.horizontal + col < planes[0].len() ==> with_tile(
            planes,
            sizes,
            tile,
            offset,
            yuv420,
        )[0][(offset.vertical + row) * sizes[0] + offset.horizontal + col]
            == tile.planes@[0].data@[row * tile.planes@[0].linesize + col],
        forall|k: int|
            #![trigger sizes[k]]
            1 <= k <= 2 && yuv420 && offset.horizontal as int / 2 + tile.width as int / 2 <= sizes[k]
                && col < tile.width as int / 2 && row < tile.height as int / 2 && (
            offset.vertical as int / 2 + row) * sizes[k] + offset.horizontal as int / 2 + col
                < planes[k].len() ==> with_tile(planes, sizes, tile, offset, yuv420)[k][(
            offset.vertical as int / 2 + row) * sizes[k] + offset.horizontal as int / 2 + col]
                == tile.planes@[k].data@[row * tile.planes@[k].linesize + col],
        !yuv420 ==> with_tile(planes, sizes, tile, offset, yuv420)[1] == planes[1] && with_tile(
            planes,
            sizes,
            tile,
            offset,
            yuv420,
        )[2] == planes[2],
{
    if offset.horizontal + tile.width <= sizes[0] && col < tile.width && row < tile.height && (
    offset.vertical + row) * sizes[0] + offset.horizontal + col < planes[0].len() {
        lemma_tile_plane(planes, sizes, tile, offset, yuv420, 0);
        law_blit_copies_the_rectangle(
            planes[0],
            sizes[0] as int,
            tile.planes@[0].data@,
            tile.planes@[0].linesize as int,
            offset.horizontal as int,
            offset.vertical as int,
            tile.width as int,
            tile.height as nat,
            offset.horizontal + col,
            offset.vertical + row,
        );
    }
    assert forall|k: int|
        #![trigger sizes[k]]
        1 <= k <= 2 && yuv420 && offset.horizontal as int / 2 + tile.width as int / 2 <= sizes[k]
            && col < tile.width as int / 2 && row < tile.height as int / 2 && (
        offset.vertical as int / 2 + row) * sizes[k] + offset.horizontal as int / 2 + col
            < planes[k].len() implies with_tile(planes, sizes, tile, offset, yuv420)[k][(
    offset.vertical as int / 2 + row) * sizes[k] + offset.horizontal as int / 2 + col]
        == tile.planes@[k].data@[row * tile.planes@[k].linesize + col] by {
        lemma_tile_plane(planes, sizes, tile, offset, yuv420, k);
        law_blit_copies_the_rectangle(
            planes[k],
            sizes[k] as int,
            tile.planes@[k].data@,
            tile.planes@[k].linesize as int,
            offset.horizontal as int / 2,
            offset.vertical as int / 2,
            tile.width as int / 2,
            (tile.height as int / 2) as nat,
            offset.horizontal as int / 2 + col,
            offset.vertical as int / 2 + row,
        );
    }
}

/// Putting more tiles on a canvas keeps its size, and a tile that is put last is put on what the
/// tiles before it left; one that is not there changes nothing.
pub proof fn law_tiles_are_put_in_order(
    planes: Seq<Seq<u8>>,
    sizes: Seq<usize>,
    tiles: Seq<Option<Picture>>,
    offsets: Seq<TileOffset>,
    yuv420: bool,
    n: nat,
)
    requires
        n < offsets.len(),
    ensures
        with_tiles(planes, sizes, tiles, offsets, yuv420, 0) == planes,
        tiles[offsets[n as int].idx as int] is None ==> with_tiles(
            planes,
            sizes,
            tiles,
            offsets,
            yuv420,
            n + 1,
        ) == with_tiles(planes, sizes, tiles, offsets, yuv420, n),
        tiles[offsets[n as int].idx as int] matches Some(t) ==> with_tiles(
            planes,
            sizes,
            tiles,
            offsets,
            yuv420,
            n + 1,
        ) == with_tile(
            with_tiles(planes, sizes, tiles, offsets, yuv420, n),
            sizes,
            t,
            offsets[n as int],
            yuv420,
        ),
{
}

/// A packet goes to the decoder of its stream until that stream has given its frame, and a packet
/// of a stream outside the group goes nowhere.
pub proof fn law_packets_go_to_their_tile(
    d: TileDecoder,
    stream_index: i32,
    r: Option<usize>,
    local: int,
)
    requires
        call_ensures(TileDecoder::accept_packet, (&d, stream_index), r),
        0 <= local < d.streams().len(),
        forall|j: int|
            0 <= j < d.streams().len() && j != local ==> #[trigger] d.streams()[j] != stream_index,
    ensures
        d.streams()[local] == stream_index && !d.done()[local] ==> r is Some && r->0
            == local,
        d.streams()[local] == stream_index && d.done()[local] ==> r is None,
        d.streams()[local] != stream_index ==> r is None,
{
    if d.streams()[local] == stream_index {
        assert(is_local_index(d.streams(), stream_index as int, local));
    }
}

/// Packets are wanted exactly as long as the group is not finished, and a group is finished exactly
/// if every stream has given its frame.
pub proof fn law_group_is_done_with_its_last_tile(
    d: TileDecoder,
    wanted: bool,
    finished: Result<(), Error>,
)
    requires
        call_ensures(TileDecoder::wants_packet, (&d,), wanted),
        call_ensures(TileDecoder::finish, (&d,), finished),
    ensures
        wanted <==> finished is Err,
        wanted <==> d.done().contains(false),
{
    if d.done().contains(false) {
        let i = choose|i: int| 0 <= i < d.done().len() && d.done()[i] == false;
        assert(!d.done()[i]);
    }
    if wanted {
        let i = choose|i: int| 0 <= i < d.done().len() && !#[trigger] d.done()[i];
        assert(d.done().contains(d.done()[i]));
    }
}

/// As many entries are set as a count that starts at nothing, grows by one at each set entry and
/// stays at each other.
pub proof fn law_set_entries_are_counted(v: Seq<bool>)
    ensures
        count_set(Seq::empty()) == 0,
        count_set(v.push(true)) == count_set(v) + 1,
        count_set(v.push(false)) == count_set(v),
{
    assert(v.push(true).drop_last() =~= v);
    assert(v.push(false).drop_last() =~= v);
}

/// A picture is cut out of the canvas exactly if it is not the whole canvas, and a blank canvas is
/// black: no luma, neutral chroma in half the rows.
pub proof fn law_canvas_is_blank_and_cut(
    tg: TileGridInfo,
    cut: bool,
    plane: usize,
    linesize: u32,
    height: u32,
    fill: (u64, u8),
)
    requires
        call_ensures(needs_crop, (&tg,), cut),
        call_ensures(plane_fill, (plane, linesize, height), fill),
    ensures
        cut <==> tg.width != tg.coded_width || tg.height != tg.coded_height || tg.horizontal_offset
            != 0 || tg.vertical_offset != 0,
        plane == 0 ==> fill.0 == linesize * height && fill.1 == 0,
        plane != 0 ==> fill.0 == linesize * (height / 2) && fill.1 == 128,
{
}

/// A tile fits on a canvas exactly if it starts on it and its last row ends within the bytes of the
/// canvas, and if the bytes of that row are there in the tile; chroma planes are asked only in 4:2:0
/// pictures, at half the offsets and half the size.
pub proof fn law_tiles_that_fit(canvas: Seq<Plane>, tile: Picture, offset: TileOffset)
    requires
        canvas.len() == 3,
        tile.planes@.len() == 3,
        tile.width > 0,
        tile.height > 0,
    ensures
        tile_fits(canvas, tile, offset, false) <==> offset.horizontal >= 0 && offset.vertical >= 0
            && (offset.vertical + tile.height - 1) * canvas[0].linesize + offset.horizontal
            + tile.width <= canvas[0].data@.len() && (tile.height - 1) * tile.planes@[0].linesize
            + tile.width <= tile.planes@[0].data@.len(),
        tile.height >= 2 ==> (tile_fits(canvas, tile, offset, true) <==> tile_fits(
            canvas,
            tile,
            offset,
            false,
        ) && (offset.vertical as int / 2 + tile.height as int / 2 - 1) * canvas[1].linesize
            + offset.horizontal as int / 2 + tile.width as int / 2 <= canvas[1].data@.len() && (
        tile.height as int / 2 - 1) * tile.planes@[1].linesize + tile.width as int / 2
            <= tile.planes@[1].data@.len() && (offset.vertical as int / 2 + tile.height as int / 2
            - 1) * canvas[2].linesize + offset.horizontal as int / 2 + tile.width as int / 2
            <= canvas[2].data@.len() && (tile.height as int / 2 - 1) * tile.planes@[2].linesize
            + tile.width as int / 2 <= tile.planes@[2].data@.len()),
        tile.height < 2 ==> (tile_fits(canvas, tile, offset, true) <==> tile_fits(
            canvas,
            tile,
            offset,
            false,
        )),
{
}

/// The tiles of a grid fit exactly if each offset names a tile of the list and every tile that is
/// there fits at its offset.
pub proof fn law_grids_that_fit(
    canvas: Seq<Plane>,
    tiles: Seq<Option<Picture>>,
    offsets: Seq<TileOffset>,
    offset: TileOffset,
    yuv420: bool,
)
    ensures
        tiles_fit(canvas, tiles, Seq::empty(), yuv420),
        tiles_fit(canvas, tiles, offsets.push(offset), yuv420) <==> tiles_fit(
            canvas,
            tiles,
            offsets,
            yuv420,
        ) && offset.idx < tiles.len() && (tiles[offset.idx as int] is Some ==> tile_fits(
            canvas,
            tiles[offset.idx as int]->0,
            offset,
            yuv420,
        )),
{
    let all = offsets.push(offset);
    assert(all[offsets.len() as int] == offset);
    if tiles_fit(canvas, tiles, all, yuv420) {
        assert forall|k: int| 0 <= k < offsets.len() implies (#[trigger] offsets[k]).idx
            < tiles.len() && (tiles[offsets[k].idx as int] matches Some(t) ==> tile_fits(
            canvas,
            t,
            offsets[k],
            yuv420,
        )) by {
            assert(all[k] == offsets[k]);
        }
    }
    if tiles_fit(canvas, tiles, offsets, yuv420) && offset.idx < tiles.len() && (
    tiles[offset.idx as int] is Some ==> tile_fits(
        canvas,
        tiles[offset.idx as int]->0,
        offset,
        yuv420,
    )) {
        assert forall|k: int| 0 <= k < all.len() implies (#[trigger] all[k]).idx < tiles.len() && (
        tiles[all[k].idx as int] matches Some(t) ==> tile_fits(canvas, t, all[k], yuv420)) by {
            if k < offsets.len() {
                assert(all[k] == offsets[k]);
            }
        }
    }
}

/// A frame that was decoded is noted for its own stream alone.
pub proof fn law_frames_are_noted(d: &mut TileDecoder, local: usize, r: (), other: int)
    requires
        call_ensures(TileDecoder::frame_decoded, (d, local), r),
        local < old(d).done().len(),
        0 <= other < old(d).done().len(),
    ensures
        final(d).streams() == old(d).streams(),
        final(d).done().len() == old(d).done().len(),
        final(d).done()[local as int],
        other != local ==> final(d).done()[other] == old(d).done()[other],
{
}

} // verus!
