//! Single images: formats, stream choice, scaling and encoding settings.

use crate::error::{fails_with, Error};
use crate::media::tiles::TileGridInfo;
use crate::model::{MediaType, PixelFormat};
use crate::text::{
    ascii_lower, dec, dec_i64, dec_u64, hex, hex_u128, join_text, lemma_join_split,
    lemma_split_join, lemma_split_nonempty, lemma_split_pieces, same_but_case, same_ignoring_case,
    split, split_text, texts,
};
use vstd::prelude::*;

verus! {

/// Output image format.
#[derive(Clone, Copy, Debug, PartialEq, Eq, Structural)]
pub enum ImageFormat {
    Jpeg,
    WebP,
    Png,
}

impl ImageFormat {
    pub open spec fn spec_encoder_name(self) -> Seq<char> {
        match self {
            ImageFormat::Jpeg => "mjpeg"@,
            ImageFormat::WebP => "libwebp"@,
            ImageFormat::Png => "png"@,
        }
    }

    /// The encoder of the format.
    pub fn encoder_name(self) -> (r: &'static str)
        ensures
            r@ == self.spec_encoder_name(),
    {
        match self {
            ImageFormat::Jpeg => "mjpeg",
            ImageFormat::WebP => "libwebp",
            ImageFormat::Png => "png",
        }
    }

    pub open spec fn spec_mime_type(self) -> Seq<char> {
        match self {
            ImageFormat::Jpeg => "image/jpeg"@,
            ImageFormat::WebP => "image/webp"@,
            ImageFormat::Png => "image/png"@,
        }
    }

    /// The media type of the format.
    pub fn mime_type(self) -> (r: &'static str)
        ensures
            r@ == self.spec_mime_type(),
    {
        match self {
            ImageFormat::Jpeg => "image/jpeg",
            ImageFormat::WebP => "image/webp",
            ImageFormat::Png => "image/png",
        }
    }

    pub open spec fn spec_pix_fmt(self) -> PixelFormat {
        match self {
            ImageFormat::Jpeg => PixelFormat::Yuvj420p,
            ImageFormat::WebP => PixelFormat::Yuv420p,
            ImageFormat::Png => PixelFormat::Rgb24,
        }
    }

    /// The pixel format that the encoder of the format takes.
    pub fn pix_fmt(self) -> (r: PixelFormat)
        ensures
            r == self.spec_pix_fmt(),
    {
        match self {
            ImageFormat::Jpeg => PixelFormat::Yuvj420p,
            ImageFormat::WebP => PixelFormat::Yuv420p,
            ImageFormat::Png => PixelFormat::Rgb24,
        }
    }
}

/// Options for image decoding.
#[derive(Clone, Copy, Debug, PartialEq, Eq, Structural)]
pub struct ImageDecodeOptions {
    /// Target width; the height follows from the aspect ratio. `None`: keep the size.
    pub width: Option<u32>,
    /// Output format.
    pub format: ImageFormat,
    /// Encode quality (1-31 for JPEG where 2 is high quality, 0-100 for WebP).
    pub quality: u8,
}

impl Default for ImageDecodeOptions {
    fn default() -> (r: Self)
        ensures
            r.width is None,
            r.format == ImageFormat::Jpeg,
            r.quality == 2,
    {
        ImageDecodeOptions { width: None, format: ImageFormat::Jpeg, quality: 2 }
    }
}

/// Whether a file extension is one of HEIC images.
pub fn is_heic(extension: Option<&str>) -> (r: bool)
    ensures
        r == (match extension {
            Some(e) => same_but_case(e@, "heic"@) || same_but_case(e@, "heif"@),
            None => false,
        }),
{
    match extension {
        Some(e) => same_ignoring_case(e, "heic") || same_ignoring_case(e, "heif"),
        None => false,
    }
}

/// A group of streams.
#[derive(Debug)]
pub struct StreamGroup {
    /// It is a grid of tiles.
    pub is_tile_grid: bool,
    /// The parameters of the grid, where it has them.
    pub grid: Option<TileGridInfo>,
    /// The numbers of its streams in the file.
    pub stream_indices: Vec<usize>,
}

/// The group is a grid of more than one tile.
pub open spec fn is_real_grid(g: StreamGroup) -> bool {
    g.is_tile_grid && (g.grid matches Some(t) ==> t.tiles@.len() > 1) && g.grid is Some
}

/// `i` is the place of the first group that is a grid of more than one tile.
pub open spec fn is_first_grid(groups: Seq<StreamGroup>, i: int) -> bool {
    &&& 0 <= i < groups.len()
    &&& is_real_grid(groups[i])
    &&& forall|j: int| 0 <= j < i ==> !is_real_grid(#[trigger] groups[j])
}

/// The first grid of more than one tile.
pub fn read_tile_grid_info(groups: &Vec<StreamGroup>) -> (r: Option<&TileGridInfo>)
    ensures
        match r {
            Some(t) => exists|i: int| #[trigger]
                is_first_grid(groups@, i) && groups@[i].grid == Some(*t),
            None => forall|i: int| 0 <= i < groups@.len() ==> !is_real_grid(#[trigger] groups@[i]),
        },
{
    let mut i: usize = 0;
    while i < groups.len()
        invariant
            i <= groups@.len(),
            forall|j: int| 0 <= j < i ==> !is_real_grid(#[trigger] groups@[j]),
        decreases groups@.len() - i,
    {
        if groups[i].is_tile_grid {
            match &groups[i].grid {
                Some(t) => {
                    if t.tiles.len() > 1 {
                        proof {
                            assert(is_first_grid(groups@, i as int));
                        }
                        return Some(t);
                    }
                },
                None => {},
            }
        }
        i = i + 1;
    }
    None
}

/// The grid that an image is put together from; `None` for an image that is decoded from a single
/// stream. Only HEIC files are looked at for grids.
pub fn grid_to_decode(groups: &Vec<StreamGroup>, is_heic: bool) -> (r: Option<&TileGridInfo>)
    ensures
        match r {
            Some(t) => is_heic && exists|i: int|
                #![trigger is_first_grid(groups@, i)]
                is_first_grid(groups@, i) && groups@[i].grid == Some(*t),
            None => !is_heic || forall|i: int|
                #![trigger groups@[i]]
                0 <= i < groups@.len() ==> !is_real_grid(groups@[i]),
        },
{
    if is_heic {
        read_tile_grid_info(groups)
    } else {
        None
    }
}

/// `i` is the place of the first tile grid that holds a stream.
pub open spec fn is_first_tile_group(groups: Seq<StreamGroup>, i: int) -> bool {
    &&& 0 <= i < groups.len()
    &&& groups[i].is_tile_grid && groups[i].stream_indices@.len() > 0
    &&& forall|j: int|
        0 <= j < i ==> !((#[trigger] groups[j]).is_tile_grid && groups[j].stream_indices@.len() > 0)
}

/// `i` is the place of the first video stream.
pub open spec fn is_first_video_type(streams: Seq<MediaType>, i: int) -> bool {
    &&& 0 <= i < streams.len()
    &&& streams[i] == MediaType::Video
    &&& forall|j: int| 0 <= j < i ==> #[trigger] streams[j] != MediaType::Video
}

/// No group is a tile grid that holds a stream.
pub open spec fn no_tile_group(groups: Seq<StreamGroup>) -> bool {
    forall|i: int|
        0 <= i < groups.len() ==> !((#[trigger] groups[i]).is_tile_grid
            && groups[i].stream_indices@.len() > 0)
}

/// The stream that an image is decoded from: in a HEIC file the first stream of the first tile
/// grid, where there is one; else the first video stream.
pub fn find_best_video_stream(
    groups: &Vec<StreamGroup>,
    streams: &Vec<MediaType>,
    is_heic: bool,
) -> (r: Result<usize, Error>)
    ensures
        is_heic && !no_tile_group(groups@) ==> exists|g: int|
            #![trigger is_first_tile_group(groups@, g)]
            is_first_tile_group(groups@, g) && r == Ok::<usize, Error>(
                groups@[g].stream_indices@[0],
            ),
        !is_heic || no_tile_group(groups@) ==> match r {
            Ok(i) => is_first_video_type(streams@, i as int),
            Err(e) => e.text() == "No video stream found in image file"@ && forall|i: int|
                #![trigger streams@[i]]
                0 <= i < streams@.len() ==> streams@[i] != MediaType::Video,
        },
        (!is_heic || no_tile_group(groups@)) && r is Err ==> !streams@.contains(MediaType::Video),
{
    if is_heic {
        let mut g: usize = 0;
        while g < groups.len()
            invariant
                is_heic,
                g <= groups@.len(),
                forall|j: int|
                    0 <= j < g ==> !((#[trigger] groups@[j]).is_tile_grid
                        && groups@[j].stream_indices@.len() > 0),
            decreases groups@.len() - g,
        {
            if groups[g].is_tile_grid && groups[g].stream_indices.len() > 0 {
                proof {
                    assert(is_first_tile_group(groups@, g as int));
                }
                return Ok(groups[g].stream_indices[0]);
            }
            g = g + 1;
        }
    }
    let mut i: usize = 0;
    while i < streams.len()
        invariant
            !is_heic || no_tile_group(groups@),
            i <= streams@.len(),
            forall|j: int| 0 <= j < i ==> #[trigger] streams@[j] != MediaType::Video,
        decreases streams@.len() - i,
    {
        if streams[i] == MediaType::Video {
            return Ok(i);
        }
        i = i + 1;
    }
    Err(Error::other("No video stream found in image file"))
}

pub open spec fn frame_source_text(width: i32, height: i32, format: i32) -> Seq<char> {
    "video_size="@ + dec(width as int) + "x"@ + dec(height as int) + ":pix_fmt="@ + dec(
        format as int,
    ) + ":time_base=1/1:pixel_aspect=1/1"@
}

/// The arguments of a buffer source for one frame.
pub fn frame_source_args(width: i32, height: i32, format: i32) -> (r: String)
    ensures
        r@ == frame_source_text(width, height, format),
{
    let mut out = "video_size=".to_owned();
    out.append(dec_i64(width as i64).as_str());
    out.append("x");
    out.append(dec_i64(height as i64).as_str());
    out.append(":pix_fmt=");
    out.append(dec_i64(format as i64).as_str());
    out.append(":time_base=1/1:pixel_aspect=1/1");
    out
}

/// The scaling of a frame: a side that is not given follows from the aspect ratio.
pub open spec fn scale_text(width: Option<u32>, height: Option<u32>) -> Seq<char> {
    match (width, height) {
        (Some(w), Some(h)) => "scale="@ + dec(w as int) + ":"@ + dec(h as int),
        (Some(w), None) => "scale="@ + dec(w as int) + ":-1"@,
        (None, Some(h)) => "scale=-1:"@ + dec(h as int),
        (None, None) => "null"@,
    }
}

/// The filter that scales a frame.
pub fn scale_spec(width: Option<u32>, height: Option<u32>) -> (r: String)
    ensures
        r@ == scale_text(width, height),
{
    match (width, height) {
        (Some(w), Some(h)) => {
            let mut out = "scale=".to_owned();
            out.append(dec_u64(w as u64).as_str());
            out.append(":");
            out.append(dec_u64(h as u64).as_str());
            out
        },
        (Some(w), None) => {
            let mut out = "scale=".to_owned();
            out.append(dec_u64(w as u64).as_str());
            out.append(":-1");
            out
        },
        (None, Some(h)) => {
            let mut out = "scale=-1:".to_owned();
            out.append(dec_u64(h as u64).as_str());
            out
        },
        (None, None) => "null".to_owned(),
    }
}

/// The filter that cuts a rectangle out of a frame.
pub fn crop_spec(x: i32, y: i32, w: i32, h: i32) -> (r: String)
    ensures
        r@ == "crop="@ + dec(w as int) + ":"@ + dec(h as int) + ":"@ + dec(x as int) + ":"@ + dec(
            y as int,
        ),
{
    let mut out = "crop=".to_owned();
    out.append(dec_i64(w as i64).as_str());
    out.append(":");
    out.append(dec_i64(h as i64).as_str());
    out.append(":");
    out.append(dec_i64(x as i64).as_str());
    out.append(":");
    out.append(dec_i64(y as i64).as_str());
    out
}

/// How the quality is given to an image encoder.
#[derive(Debug)]
pub enum QualitySetting {
    /// The quantizer is held at this value.
    Quantizer(i32),
    /// The option `quality` is set to this text.
    Option(String),
    /// The encoder has no quality.
    Unset,
}

/// The quality setting of the encoder.
pub fn quality_setting(opts: &ImageDecodeOptions) -> (r: QualitySetting)
    ensures
        match opts.format {
            ImageFormat::Jpeg => r == QualitySetting::Quantizer(opts.quality as i32),
            ImageFormat::WebP => r matches QualitySetting::Option(s) && s@ == dec(
                opts.quality as int,
            ),
            ImageFormat::Png => r == QualitySetting::Unset,
        },
{
    match opts.format {
        ImageFormat::Jpeg => QualitySetting::Quantizer(opts.quality as i32),
        ImageFormat::WebP => QualitySetting::Option(dec_u64(opts.quality as u64)),
        ImageFormat::Png => QualitySetting::Unset,
    }
}

/// The bytes of the packets, one behind the other.
pub open spec fn packet_bytes(packets: Seq<Vec<u8>>) -> Seq<u8>
    decreases packets.len(),
{
    if packets.len() == 0 {
        Seq::empty()
    } else {
        packet_bytes(packets.drop_last()) + packets.last()@
    }
}

/// The encoded image: the bytes of all packets. No bytes at all are an error.
pub fn collect_output(packets: &Vec<Vec<u8>>) -> (r: Result<Vec<u8>, Error>)
    ensures
        if packet_bytes(packets@).len() == 0 {
            fails_with(r, "Encoder produced no output"@)
        } else {
            r matches Ok(bytes) && bytes@ == packet_bytes(packets@)
        },
{
    let mut output: Vec<u8> = Vec::new();
    let mut i: usize = 0;
    proof {
        assert(packets@.take(0) =~= Seq::<Vec<u8>>::empty());
    }
    while i < packets.len()
        invariant
            i <= packets@.len(),
            output@ == packet_bytes(packets@.take(i as int)),
        decreases packets@.len() - i,
    {
        let ghost before = output@;
        output.extend_from_slice(packets[i].as_slice());
        i = i + 1;
        proof {
            assert(packets@.take(i as int).drop_last() =~= packets@.take(i - 1));
            assert(output@ =~= before + packets@[i - 1]@);
        }
    }
    proof {
        assert(packets@.take(packets@.len() as int) =~= packets@);
    }
    if output.len() == 0 {
        Err(Error::other("Encoder produced no output"))
    } else {
        Ok(output)
    }
}

/// What stands behind the last dot of a name; the whole name where it has no dot.
pub open spec fn extension_text(name: Seq<char>) -> Seq<char> {
    split_text(name, '.').last()
}

/// The number of nanoseconds as a short unique text.
pub fn uuid_v4_simple(nanos: u128) -> (r: String)
    ensures
        r@ == hex(nanos as nat),
{
    hex_u128(nanos)
}

/// The name of the file that holds an image for a while; it keeps the extension of the hint.
pub fn temp_image_name(nanos: u128, filename_hint: &str) -> (r: String)
    ensures
        r@ == "tokimo_img_"@ + hex(nanos as nat) + "."@ + extension_text(filename_hint@),
{
    let parts = split(filename_hint, '.');
    proof {
        lemma_split_nonempty(filename_hint@, '.');
        assert(texts(parts@).len() == parts@.len());
        assert(texts(parts@)[parts@.len() - 1] == parts@[parts@.len() - 1]@);
    }
    let mut out = "tokimo_img_".to_owned();
    out.append(uuid_v4_simple(nanos).as_str());
    out.append(".");
    out.append(parts[parts.len() - 1].as_str());
    out
}

/// Each image format has the encoder that writes it, the media type that names it and the pixel
/// format that its encoder takes.
pub proof fn law_formats_and_their_encoders(f: ImageFormat)
    ensures
        f.spec_encoder_name() == "mjpeg"@ <==> f == ImageFormat::Jpeg,
        f.spec_encoder_name() == "libwebp"@ <==> f == ImageFormat::WebP,
        f.spec_encoder_name() == "png"@ <==> f == ImageFormat::Png,
        f.spec_mime_type() == "image/jpeg"@ <==> f == ImageFormat::Jpeg,
        f.spec_mime_type() == "image/webp"@ <==> f == ImageFormat::WebP,
        f.spec_mime_type() == "image/png"@ <==> f == ImageFormat::Png,
        f.spec_pix_fmt() == PixelFormat::Yuvj420p <==> f == ImageFormat::Jpeg,
        f.spec_pix_fmt() == PixelFormat::Yuv420p <==> f == ImageFormat::WebP,
        f.spec_pix_fmt() == PixelFormat::Rgb24 <==> f == ImageFormat::Png,
{
    reveal_strlit("mjpeg");
    reveal_strlit("libwebp");
    reveal_strlit("png");
    reveal_strlit("image/jpeg");
    reveal_strlit("image/webp");
    reveal_strlit("image/png");
    assert("mjpeg"@.len() == 5 && "libwebp"@.len() == 7 && "png"@.len() == 3);
    assert("image/png"@.len() == 9 && "image/jpeg"@.len() == 10 && "image/webp"@.len() == 10);
    assert("image/jpeg"@[6] == 'j' && "image/webp"@[6] == 'w');
}

/// What stands behind the last dot is the extension, and a name without a dot is its own extension.
pub proof fn law_extension_is_behind_the_last_dot(base: Seq<char>, ext: Seq<char>)
    requires
        !ext.contains('.'),
    ensures
        extension_text(base + seq!['.'] + ext) == ext,
        extension_text(ext) == ext,
{
    let before = split_text(base, '.');
    lemma_split_nonempty(base, '.');
    lemma_join_split(base, '.');
    let parts = before.push(ext);
    assert forall|i: int| 0 <= i < parts.len() implies !(#[trigger] parts[i]).contains('.') by {
        if i < before.len() {
            lemma_split_pieces(base, '.', i);
        }
    }
    lemma_split_join(parts, '.');
    assert(parts.drop_last() =~= before);
    assert(join_text(parts, seq!['.']) == base + seq!['.'] + ext);
    let single = seq![ext];
    lemma_split_join(single, '.');
    assert(join_text(single, seq!['.']) == ext);
}

/// The name of a temporary file ends in the extension of the hint and tells the moment.
pub proof fn law_temporary_name_keeps_the_extension(
    nanos: u128,
    hint: &str,
    base: Seq<char>,
    ext: Seq<char>,
    r: String,
)
    requires
        !ext.contains('.'),
        hint@ == base + seq!['.'] + ext,
        call_ensures(temp_image_name, (nanos, hint), r),
    ensures
        r@ == "tokimo_img_"@ + hex(nanos as nat) + "."@ + ext,
{
    law_extension_is_behind_the_last_dot(base, ext);
}

/// The bytes of more packets come behind those of the packets before.
pub proof fn law_packets_are_joined_in_order(a: Seq<Vec<u8>>, b: Seq<Vec<u8>>, p: Vec<u8>)
    ensures
        packet_bytes(Seq::empty()) == Seq::<u8>::empty(),
        packet_bytes(seq![p]) == p@,
        packet_bytes(a + b) == packet_bytes(a) + packet_bytes(b),
    decreases b.len(),
{
    let one = seq![p];
    assert(one.drop_last() =~= Seq::empty());
    reveal_with_fuel(packet_bytes, 2);
    assert(packet_bytes(one) =~= p@);
    if b.len() == 0 {
        assert(a + b =~= a);
        assert(packet_bytes(a) + packet_bytes(b) =~= packet_bytes(a));
    } else {
        law_packets_are_joined_in_order(a, b.drop_last(), p);
        assert((a + b).drop_last() =~= a + b.drop_last());
        assert((a + b).last() == b.last());
        assert(packet_bytes(a + b) =~= packet_bytes(a) + packet_bytes(b));
    }
}

/// A frame is scaled to the sides that are given; the other side keeps the aspect ratio, and
/// nothing is scaled where no side is given.
pub proof fn law_scale_names_the_sides(w: u32, h: u32)
    ensures
        scale_text(Some(w), Some(h)) == "scale="@ + dec(w as int) + ":"@ + dec(h as int),
        scale_text(Some(w), None) == "scale="@ + dec(w as int) + ":-1"@,
        scale_text(None, Some(h)) == "scale=-1:"@ + dec(h as int),
        scale_text(None, None) == "null"@,
{
}

/// The source of a frame names its size and its format, and the crop names the rectangle: first its
/// size, then its place.
pub proof fn law_frame_and_rectangle_are_named(
    x: i32,
    y: i32,
    w: i32,
    h: i32,
    format: i32,
    source: String,
    crop: String,
)
    requires
        call_ensures(frame_source_args, (w, h, format), source),
        call_ensures(crop_spec, (x, y, w, h), crop),
    ensures
        source@ == "video_size="@ + dec(w as int) + "x"@ + dec(h as int) + ":pix_fmt="@ + dec(
            format as int,
        ) + ":time_base=1/1:pixel_aspect=1/1"@,
        crop@ == "crop="@ + dec(w as int) + ":"@ + dec(h as int) + ":"@ + dec(x as int) + ":"@
            + dec(y as int),
{
}

/// The quality reaches the encoder in the way that its format takes it.
pub proof fn law_quality_reaches_the_encoder(opts: ImageDecodeOptions, r: QualitySetting)
    requires
        call_ensures(quality_setting, (&opts,), r),
    ensures
        opts.format == ImageFormat::Jpeg <==> r is Quantizer,
        opts.format == ImageFormat::WebP <==> r is Option,
        opts.format == ImageFormat::Png <==> r is Unset,
        r matches QualitySetting::Quantizer(q) ==> q == opts.quality,
        r matches QualitySetting::Option(s) ==> s@ == dec(opts.quality as int),
{
}

/// A file is a HEIC image exactly if its extension is `heic` or `heif` in any case.
pub proof fn law_heic_goes_by_the_extension(e: &str, some: bool, none: bool)
    requires
        call_ensures(is_heic, (Some(e),), some),
        call_ensures(is_heic, (None::<&str>,), none),
    ensures
        !none,
        some ==> e@.len() == 4 && (e@[0] == 'h' || e@[0] == 'H') && (e@[1] == 'e' || e@[1] == 'E')
            && (e@[2] == 'i' || e@[2] == 'I') && (e@[3] == 'c' || e@[3] == 'C' || e@[3] == 'f'
            || e@[3] == 'F'),
        e@.len() == 4 && (e@[0] == 'h' || e@[0] == 'H') && (e@[1] == 'e' || e@[1] == 'E') && (e@[2]
            == 'i' || e@[2] == 'I') && (e@[3] == 'c' || e@[3] == 'C' || e@[3] == 'f' || e@[3]
            == 'F') ==> some,
{
    reveal_strlit("heic");
    reveal_strlit("heif");
    if some {
        let t = if same_but_case(e@, "heic"@) {
            "heic"@
        } else {
            "heif"@
        };
        assert(same_but_case(e@, t));
        assert(ascii_lower(e@[0]) == ascii_lower(t[0]));
        assert(ascii_lower(e@[1]) == ascii_lower(t[1]));
        assert(ascii_lower(e@[2]) == ascii_lower(t[2]));
        assert(ascii_lower(e@[3]) == ascii_lower(t[3]));
    }
}

/// A HEIC file is read from the first stream of its first tile grid that has one; every file
/// without such a grid, and every other file, from its first video stream.
pub proof fn law_first_picture_is_read(
    groups: Vec<StreamGroup>,
    streams: Vec<MediaType>,
    is_heic: bool,
    r: Result<usize, Error>,
    g: int,
    i: int,
)
    requires
        call_ensures(find_best_video_stream, (&groups, &streams, is_heic), r),
    ensures
        is_heic && 0 <= g < groups@.len() && groups@[g].is_tile_grid
            && groups@[g].stream_indices@.len() > 0 && (forall|j: int|
            0 <= j < g ==> !(#[trigger] groups@[j]).is_tile_grid
                || groups@[j].stream_indices@.len() == 0) ==> r is Ok && r->Ok_0
            == groups@[g].stream_indices@[0],
        (!is_heic || forall|j: int|
            0 <= j < groups@.len() ==> !(#[trigger] groups@[j]).is_tile_grid
                || groups@[j].stream_indices@.len() == 0) && 0 <= i < streams@.len() && streams@[i]
            == MediaType::Video && (forall|j: int|
            0 <= j < i ==> #[trigger] streams@[j] != MediaType::Video) ==> r is Ok && r->Ok_0 == i,
{
    if is_heic && 0 <= g < groups@.len() && groups@[g].is_tile_grid
        && groups@[g].stream_indices@.len() > 0 && (forall|j: int|
        0 <= j < g ==> !(#[trigger] groups@[j]).is_tile_grid || groups@[j].stream_indices@.len()
            == 0) {
        assert(!no_tile_group(groups@));
        let f = choose|f: int| #[trigger]
            is_first_tile_group(groups@, f) && r == Ok::<usize, Error>(
                groups@[f].stream_indices@[0],
            );
        assert(f == g) by {
            if f < g {
                assert(!groups@[f].is_tile_grid || groups@[f].stream_indices@.len() == 0);
            } else if g < f {
                assert(!(groups@[g].is_tile_grid && groups@[g].stream_indices@.len() > 0));
            }
        }
    }
    if (!is_heic || forall|j: int|
        0 <= j < groups@.len() ==> !(#[trigger] groups@[j]).is_tile_grid
            || groups@[j].stream_indices@.len() == 0) && 0 <= i < streams@.len() && streams@[i]
        == MediaType::Video && (forall|j: int|
        0 <= j < i ==> #[trigger] streams@[j] != MediaType::Video) {
        assert(!is_heic || no_tile_group(groups@));
        match r {
            Ok(k) => {
                assert(is_first_video_type(streams@, k as int));
                if k < i {
                    assert(streams@[k as int] != MediaType::Video);
                }
            },
            Err(_) => {
                assert(!streams@.contains(MediaType::Video));
            },
        }
    }
}

/// The first grid of more than one tile is the one that is read, and only in HEIC files.
pub proof fn law_first_grid_is_read(
    groups: Vec<StreamGroup>,
    is_heic: bool,
    r: Option<&TileGridInfo>,
    g: int,
)
    requires
        call_ensures(grid_to_decode, (&groups, is_heic), r),
        0 <= g < groups@.len(),
        groups@[g].is_tile_grid,
        groups@[g].grid is Some,
        groups@[g].grid->0.tiles@.len() > 1,
        forall|j: int|
            0 <= j < g ==> !(#[trigger] groups@[j]).is_tile_grid || groups@[j].grid is None
                || groups@[j].grid->0.tiles@.len() <= 1,
    ensures
        is_heic ==> r is Some && *r->0 == groups@[g].grid->0,
        !is_heic ==> r is None,
{
    if is_heic {
        assert(is_real_grid(groups@[g]));
        assert(r is Some);
        let f = choose|f: int| #[trigger]
            is_first_grid(groups@, f) && groups@[f].grid == Some(*r->0);
        assert(f == g) by {
            if f < g {
                assert(!is_real_grid(groups@[f]));
            } else if g < f {
                assert(!is_real_grid(groups@[g]));
            }
        }
    }
}

/// The encoded image is all the bytes of the packets, and it is an error that there are none.
pub proof fn law_output_is_collected(
    packets: Vec<Vec<u8>>,
    r: Result<Vec<u8>, Error>,
)
    requires
        call_ensures(collect_output, (&packets,), r),
    ensures
        r is Ok <==> packet_bytes(packets@).len() > 0,
        r is Ok ==> r->Ok_0@ == packet_bytes(packets@),
        r is Err ==> r->Err_0.text() == "Encoder produced no output"@,
{
}

} // verus!
