use tokimo_ffmpeg::collections::NameSet;
use tokimo_ffmpeg::common::capabilities::{detect_capabilities, HwCapabilities};
use tokimo_ffmpeg::media::audio::{
    audio_encoder_settings, finish_conversion, finish_steps, output_encoder, select_audio_stream,
    temp_input_name, temp_output_name, AudioCandidate, AudioConvertOptions, FinishStep,
};
use tokimo_ffmpeg::media::image::{
    collect_output, crop_spec, find_best_video_stream, frame_source_args, grid_to_decode, is_heic,
    quality_setting, read_tile_grid_info, scale_spec, temp_image_name, uuid_v4_simple,
    ImageDecodeOptions, ImageFormat, QualitySetting, StreamGroup,
};
use tokimo_ffmpeg::media::reading::{on_read, ReadAction, ReadEvent};
use tokimo_ffmpeg::media::tiles::{
    blit_plane, blit_tiles, needs_crop, plane_fill, tiles_do_fit, Picture, Plane, TileDecoder,
    TileGridInfo, TileOffset,
};
use tokimo_ffmpeg::media::wav::fix_wav_sizes;
use tokimo_ffmpeg::model::{MediaType, PixelFormat, Rational};

fn wav(chunks: &[(&[u8; 4], u32, usize)]) -> Vec<u8> {
    let mut v = b"RIFF\xff\xff\xff\xffWAVE".to_vec();
    for (id, size, len) in chunks {
        v.extend_from_slice(*id);
        v.extend_from_slice(&size.to_le_bytes());
        v.extend(std::iter::repeat(9u8).take(*len));
    }
    v
}

fn u32_at(v: &[u8], at: usize) -> u32 {
    u32::from_le_bytes([v[at], v[at + 1], v[at + 2], v[at + 3]])
}

#[test]
fn wav_sizes_are_fixed() {
    let mut v = wav(&[(b"fmt ", 16, 16), (b"LIST", 4, 4), (b"data", 0xffff_ffff, 100)]);
    let before = v.clone();
    fix_wav_sizes(&mut v);
    assert_eq!(u32_at(&v, 4) as usize, v.len() - 8);
    assert_eq!(u32_at(&v, 52), 100);
    for i in (0..v.len()).filter(|i| !(4..8).contains(i) && !(52..56).contains(i)) {
        assert_eq!(v[i], before[i]);
    }
    let once = v.clone();
    fix_wav_sizes(&mut v);
    assert_eq!(v, once);
}

#[test]
fn other_bytes_stay() {
    let mut short = wav(&[(b"data", 0, 4)]);
    let before = short.clone();
    fix_wav_sizes(&mut short);
    assert_eq!(short, before);
    let mut other = vec![7u8; 100];
    fix_wav_sizes(&mut other);
    assert_eq!(other, vec![7u8; 100]);
    let mut no_data = wav(&[(b"fmt ", 0xffff_fff0, 60)]);
    fix_wav_sizes(&mut no_data);
    assert_eq!(u32_at(&no_data, 4) as usize, no_data.len() - 8);
    assert_eq!(u32_at(&no_data, 16), 0xffff_fff0);
}

fn caps(encoders: &[&str]) -> HwCapabilities {
    let mut set = NameSet::new();
    for e in encoders {
        set.insert(e);
    }
    detect_capabilities(NameSet::new(), set, NameSet::new(), NameSet::new())
}

#[test]
fn audio_stream_choice() {
    let s = |is_audio, has_decoder| AudioCandidate { is_audio, has_decoder };
    assert_eq!(select_audio_stream(&vec![s(false, true), s(true, true)]).unwrap(), 1);
    let e = select_audio_stream(&vec![s(false, true), s(true, false), s(true, true)]).unwrap_err();
    assert_eq!(e.message(), "No decoder for audio stream 1");
    let e = select_audio_stream(&vec![s(false, true)]).unwrap_err();
    assert_eq!(e.message(), "No audio stream found");
}

#[test]
fn audio_encoders_of_formats() {
    let c = caps(&["libfdk_aac"]);
    for (format, encoder) in [
        ("wav", "pcm_s16le"),
        ("mp3", "libmp3lame"),
        ("aac", "libfdk_aac"),
        ("m4a", "libfdk_aac"),
        ("flac", "flac"),
        ("ogg", "libopus"),
        ("opus", "libopus"),
    ] {
        assert_eq!(output_encoder(format, &c).unwrap(), encoder);
    }
    assert_eq!(output_encoder("m4a", &caps(&[])).unwrap(), "aac");
    let e = output_encoder("wma", &c).unwrap_err();
    assert_eq!(e.message(), "Unsupported output format: wma");
}

#[test]
fn audio_settings() {
    let opts = AudioConvertOptions {
        sample_rate: 16000,
        channels: 1,
        output_format: "wav".to_string(),
    };
    let s = audio_encoder_settings(&opts, None, 1, true);
    assert_eq!((s.sample_rate, s.channels, s.sample_fmt), (16000, 1, 1));
    assert_eq!(s.time_base, Rational { num: 1, den: 16000 });
    assert_eq!((s.strict_std_compliance, s.global_header), (-2, true));
    let wrapped = AudioConvertOptions { sample_rate: u32::MAX, channels: 2, output_format: String::new() };
    let s = audio_encoder_settings(&wrapped, Some(8), 1, false);
    assert_eq!((s.sample_rate, s.sample_fmt), (-1, 8));
    assert_eq!(
        finish_steps(),
        vec![FinishStep::FlushDecoder, FinishStep::FlushFilter, FinishStep::FlushEncoder, FinishStep::WriteTrailer]
    );
    let raw = wav(&[(b"fmt ", 16, 16), (b"data", 0, 50)]);
    let fixed = finish_conversion(raw.clone(), &opts);
    assert_eq!(u32_at(&fixed, 40), 50);
    let mp3 = AudioConvertOptions { sample_rate: 1, channels: 1, output_format: "mp3".to_string() };
    assert_eq!(finish_conversion(raw.clone(), &mp3), raw);
    assert_eq!(temp_input_name(255), "tokimo_audio_in_ff");
    assert_eq!(temp_output_name(255, "wav"), "tokimo_audio_out_ff.wav");
}

#[test]
fn packets_of_one_stream() {
    let p = |stream_index| ReadEvent::Packet { stream_index };
    assert_eq!(on_read(p(2), 2), ReadAction::Decode);
    assert_eq!(on_read(p(1), 2), ReadAction::Skip);
    assert_eq!(on_read(p(-1), 2), ReadAction::Skip);
    assert_eq!(on_read(ReadEvent::End, 2), ReadAction::Flush);
    assert_eq!(on_read(ReadEvent::Failed, 2), ReadAction::Fail);
}

#[test]
fn image_formats() {
    let d = ImageDecodeOptions::default();
    assert_eq!((d.width, d.format, d.quality), (None, ImageFormat::Jpeg, 2));
    assert_eq!(ImageFormat::Jpeg.encoder_name(), "mjpeg");
    assert_eq!(ImageFormat::WebP.mime_type(), "image/webp");
    assert_eq!(ImageFormat::Png.pix_fmt(), PixelFormat::Rgb24);
    assert!(matches!(quality_setting(&d), QualitySetting::Quantizer(2)));
    let webp = ImageDecodeOptions { width: None, format: ImageFormat::WebP, quality: 80 };
    assert!(matches!(quality_setting(&webp), QualitySetting::Option(s) if s == "80"));
    let png = ImageDecodeOptions { width: None, format: ImageFormat::Png, quality: 80 };
    assert!(matches!(quality_setting(&png), QualitySetting::Unset));
}

#[test]
fn heic_names() {
    assert!(is_heic(Some("heic")) && is_heic(Some("HEIF")) && is_heic(Some("HeIc")));
    assert!(!is_heic(Some("jpg")) && !is_heic(Some("heics")) && !is_heic(None));
}

fn grid(tiles: usize) -> TileGridInfo {
    TileGridInfo {
        coded_width: 4,
        coded_height: 4,
        width: 4,
        height: 4,
        horizontal_offset: 0,
        vertical_offset: 0,
        tiles: (0..tiles).map(|idx| TileOffset { idx, horizontal: 0, vertical: 0 }).collect(),
        stream_indices: vec![3, 5],
    }
}

#[test]
fn grids_and_streams() {
    let group = |is_tile_grid, grid, stream_indices| StreamGroup { is_tile_grid, grid, stream_indices };
    let groups = vec![
        group(false, Some(grid(4)), vec![1]),
        group(true, None, vec![]),
        group(true, Some(grid(1)), vec![2]),
        group(true, Some(grid(2)), vec![3]),
    ];
    assert_eq!(read_tile_grid_info(&groups).unwrap().tiles.len(), 2);
    assert!(grid_to_decode(&groups, true).is_some());
    assert!(grid_to_decode(&groups, false).is_none());
    let types = vec![MediaType::Audio, MediaType::Video];
    assert_eq!(find_best_video_stream(&groups, &types, true).unwrap(), 2);
    assert_eq!(find_best_video_stream(&groups, &types, false).unwrap(), 1);
    assert_eq!(find_best_video_stream(&vec![], &types, true).unwrap(), 1);
    let e = find_best_video_stream(&vec![], &vec![MediaType::Audio], false).unwrap_err();
    assert_eq!(e.message(), "No video stream found in image file");
    let mut g = grid(2);
    assert!(!needs_crop(&g));
    g.vertical_offset = 1;
    assert!(needs_crop(&g));
}

#[test]
fn image_texts() {
    assert_eq!(frame_source_args(64, 48, 0), "video_size=64x48:pix_fmt=0:time_base=1/1:pixel_aspect=1/1");
    assert_eq!(scale_spec(Some(320), Some(240)), "scale=320:240");
    assert_eq!(scale_spec(Some(320), None), "scale=320:-1");
    assert_eq!(scale_spec(None, Some(240)), "scale=-1:240");
    assert_eq!(scale_spec(None, None), "null");
    assert_eq!(crop_spec(1, 2, 30, 40), "crop=30:40:1:2");
    assert_eq!(uuid_v4_simple(4096), "1000");
    assert_eq!(temp_image_name(10, "a.b.HEIC"), "tokimo_img_a.HEIC");
    assert_eq!(temp_image_name(10, "photo"), "tokimo_img_a.photo");
    assert_eq!(temp_image_name(10, "x."), "tokimo_img_a.");
}

#[test]
fn image_output() {
    assert_eq!(collect_output(&vec![vec![1, 2], vec![], vec![3]]).unwrap(), vec![1, 2, 3]);
    let e = collect_output(&vec![vec![]]).unwrap_err();
    assert_eq!(e.message(), "Encoder produced no output");
}

#[test]
fn tiles_are_decoded_once() {
    let mut d = TileDecoder::new(&grid(2));
    assert!(d.wants_packet());
    assert_eq!(d.accept_packet(4), None);
    assert_eq!(d.accept_packet(-3), None);
    assert_eq!(d.accept_packet(5), Some(1));
    d.frame_decoded(1);
    assert_eq!(d.accept_packet(5), None);
    assert_eq!(d.pending(), vec![0]);
    assert_eq!(d.finish().unwrap_err().message(), "Failed to decode tile stream 0");
    assert_eq!(d.accept_packet(3), Some(0));
    d.frame_decoded(0);
    assert!(!d.wants_packet());
    assert!(d.finish().is_ok());
    assert!(d.pending().is_empty());
}

fn plane(linesize: usize, rows: usize, value: u8) -> Plane {
    Plane { data: vec![value; linesize * rows], linesize }
}

#[test]
fn rectangles_are_copied() {
    let mut canvas = plane(5, 3, 0);
    let tile = Plane { data: vec![1, 2, 99, 3, 4, 99], linesize: 3 };
    blit_plane(&mut canvas, &tile, 2, 1, 2, 2);
    assert_eq!(canvas.data, vec![0, 0, 0, 0, 0, 0, 0, 1, 2, 0, 0, 0, 3, 4, 0]);
    assert_eq!(plane_fill(0, 64, 10), (640, 0));
    assert_eq!(plane_fill(2, 32, 11), (160, 128));
}

fn picture(w: usize, h: usize, value: u8) -> Picture {
    Picture {
        width: w,
        height: h,
        planes: vec![plane(w, h, value), plane(w / 2, h / 2, value + 1), plane(w / 2, h / 2, value + 2)],
    }
}

#[test]
fn tiles_are_composed() {
    let offsets = vec![
        TileOffset { idx: 1, horizontal: 0, vertical: 0 },
        TileOffset { idx: 0, horizontal: 2, vertical: 0 },
    ];
    let tiles = vec![Some(picture(2, 2, 10)), Some(picture(2, 2, 20))];
    let mut canvas = picture(4, 2, 0);
    blit_tiles(&mut canvas, &tiles, &offsets, true).unwrap();
    assert_eq!(canvas.planes[0].data, vec![20, 20, 10, 10, 20, 20, 10, 10]);
    assert_eq!(canvas.planes[1].data, vec![21, 11]);
    assert_eq!(canvas.planes[2].data, vec![22, 12]);
    let twice = vec![
        TileOffset { idx: 0, horizontal: 1, vertical: 0 },
        TileOffset { idx: 1, horizontal: 2, vertical: 0 },
    ];
    let mut overlap = picture(4, 2, 0);
    blit_tiles(&mut overlap, &tiles, &twice, false).unwrap();
    assert_eq!(overlap.planes[0].data, vec![0, 10, 20, 20, 0, 10, 20, 20]);
    assert_eq!((canvas.width, canvas.height), (4, 2));
    let mut luma = picture(4, 2, 0);
    blit_tiles(&mut luma, &tiles, &offsets, false).unwrap();
    assert_eq!(luma.planes[1].data, vec![1, 1]);
    assert!(tiles_do_fit(&canvas, &tiles, &offsets, true));
    let far = vec![TileOffset { idx: 0, horizontal: 3, vertical: 1 }];
    assert!(!tiles_do_fit(&canvas, &tiles, &far, true));
    let outside = vec![TileOffset { idx: 2, horizontal: 0, vertical: 0 }];
    assert!(!tiles_do_fit(&canvas, &tiles, &outside, true));
    let negative = vec![TileOffset { idx: 0, horizontal: -1, vertical: 0 }];
    assert!(!tiles_do_fit(&canvas, &tiles, &negative, false));
    let missing = vec![None, Some(picture(2, 2, 20))];
    let e = blit_tiles(&mut canvas, &missing, &offsets, true).unwrap_err();
    assert_eq!(e.message(), "Missing tile frame");
    let mut partial = picture(4, 2, 0);
    assert!(blit_tiles(&mut partial, &missing, &offsets, true).is_err());
    assert_eq!(partial.planes[0].data, vec![20, 20, 0, 0, 20, 20, 0, 0]);
    assert_eq!(partial.planes[1].data, vec![21, 1]);
    assert_eq!(partial.planes[2].data, vec![22, 2]);
}
