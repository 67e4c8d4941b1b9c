# tokimo_ffmpeg

The decision logic of a media toolkit built around FFmpeg, verified with Verus: hardware pipelines,
filter chains, encoder plans, packet dispatch, stream copying, probing, image tiles, WAV headers.

- `src/` is the verified library. It works on plain values; every function states what it returns.
- `app/` calls FFmpeg, files and threads, and asks the library what to do.
- `tests/` runs the library.

Two things are trusted: that GBK decoding by `encoding_rs` depends on the bytes alone, and what
`String::push` and `String::from_utf8` of the standard library do.
