//! Audio conversion: which stream, which encoder, which settings, and in what order.

use crate::common::capabilities::{best_aac_encoder, HwCapabilities};
use crate::error::{fails_with, Error};
use crate::media::wav::{fix_wav_sizes, fixed_wav, law_fixed_sizes_are_true, law_marks_stay};
use crate::model::Rational;
use crate::text::{dec, dec_u64, hex, hex_u128, same};
use crate::transcode::encode::{law_low_bits, wrapped_i32};
use vstd::prelude::*;

verus! {

/// Options for audio conversion.
#[derive(Debug)]
pub struct AudioConvertOptions {
    /// Target sample rate (16000 for speech-to-text).
    pub sample_rate: u32,
    /// Number of output channels (1 for mono).
    pub channels: u8,
    /// Output format name (`wav`, `mp3`, `aac`, ...).
    pub output_format: String,
}

/// A stream of the input.
#[derive(Clone, Copy, Debug, PartialEq, Eq, Structural)]
pub struct AudioCandidate {
    pub is_audio: bool,
    /// There is a decoder for its codec.
    pub has_decoder: bool,
}

/// `i` is the place of the first audio stream.
pub open spec fn is_first_audio(streams: Seq<AudioCandidate>, i: int) -> bool {
    &&& 0 <= i < streams.len()
    &&& streams[i].is_audio
    &&& forall|j: int| 0 <= j < i ==> !(#[trigger] streams[j]).is_audio
}

/// The first audio stream of the input. It is an error that there is none, and that the first one
/// has no decoder, even where a later one has.
pub fn select_audio_stream(streams: &Vec<AudioCandidate>) -> (r: Result<usize, Error>)
    ensures
        match r {
            Ok(i) => is_first_audio(streams@, i as int) && streams@[i as int].has_decoder,
            Err(e) => {
                ||| exists|i: int| #[trigger]
                    is_first_audio(streams@, i) && !streams@[i].has_decoder && e.text()
                        == "No decoder for audio stream "@ + dec(i)
                ||| (forall|i: int| 0 <= i < streams@.len() ==> !(#[trigger] streams@[i]).is_audio)
                    && e.text() == "No audio stream found"@
            },
        },
{
    let mut i: usize = 0;
    while i < streams.len()
        invariant
            i <= streams@.len(),
            forall|j: int| 0 <= j < i ==> !(#[trigger] streams@[j]).is_audio,
        decreases streams@.len() - i,
    {
        if streams[i].is_audio {
            proof {
                assert(is_first_audio(streams@, i as int));
            }
            if streams[i].has_decoder {
                return Ok(i);
            }
            let mut message = "No decoder for audio stream ".to_owned();
            message.append(dec_u64(i as u64).as_str());
            return Err(Error::Other(message));
        }
        i = i + 1;
    }
    Err(Error::other("No audio stream found"))
}

/// The encoder of an output format, where the format is known.
pub open spec fn format_encoder(format: Seq<char>, has_fdk: bool) -> Option<Seq<char>> {
    if format == "wav"@ {
        Some("pcm_s16le"@)
    } else if format == "mp3"@ {
        Some("libmp3lame"@)
    } else if format == "aac"@ || format == "m4a"@ {
        if has_fdk {
            Some("libfdk_aac"@)
        } else {
            Some("aac"@)
        }
    } else if format == "flac"@ {
        Some("flac"@)
    } else if format == "ogg"@ || format == "opus"@ {
        Some("libopus"@)
    } else {
        None
    }
}

/// The encoder of an output format.
pub fn output_encoder(format: &str, caps: &HwCapabilities) -> (r: Result<&'static str, Error>)
    ensures
        match format_encoder(format@, caps.encoders@.contains("libfdk_aac"@)) {
            Some(name) => r matches Ok(s) && s@ == name,
            None => fails_with(r, "Unsupported output format: "@ + format@),
        },
{
    if same(format, "wav") {
        Ok("pcm_s16le")
    } else if same(format, "mp3") {
        Ok("libmp3lame")
    } else if same(format, "aac") || same(format, "m4a") {
        Ok(best_aac_encoder(caps))
    } else if same(format, "flac") {
        Ok("flac")
    } else if same(format, "ogg") || same(format, "opus") {
        Ok("libopus")
    } else {
        let mut message = "Unsupported output format: ".to_owned();
        message.append(format);
        Err(Error::Other(message))
    }
}

/// The settings of the encoder of a conversion.
#[derive(Clone, Copy, Debug, PartialEq, Eq, Structural)]
pub struct AudioEncoderSettings {
    pub sample_rate: i32,
    pub channels: i32,
    pub sample_fmt: i32,
    pub time_base: Rational,
    /// How strictly standards are kept; -2 admits experimental encoders.
    pub strict_std_compliance: i32,
    /// The codec header goes to the file header.
    pub global_header: bool,
}

fn low_u32(n: u32) -> (r: i32)
    ensures
        r as int == wrapped_i32(n as int),
{
    if n >= 0x8000_0000 {
        (n as i64 - 0x1_0000_0000) as i32
    } else {
        n as i32
    }
}

/// The settings of the encoder. `encoder_fmt` is the first sample format that the encoder lists,
/// where it lists any; `default_fmt` is signed 16 bit.
pub fn audio_encoder_settings(
    opts: &AudioConvertOptions,
    encoder_fmt: Option<i32>,
    default_fmt: i32,
    wants_global_header: bool,
) -> (r: AudioEncoderSettings)
    ensures
        r.sample_rate as int == wrapped_i32(opts.sample_rate as int),
        r.channels == opts.channels,
        r.sample_fmt == (match encoder_fmt {
            Some(f) => f,
            None => default_fmt,
        }),
        r.time_base == (Rational { num: 1, den: r.sample_rate }),
        r.strict_std_compliance == -2,
        r.global_header == wants_global_header,
{
    let rate: i32 = low_u32(opts.sample_rate);
    AudioEncoderSettings {
        sample_rate: rate,
        channels: opts.channels as i32,
        sample_fmt: match encoder_fmt {
            Some(f) => f,
            None => default_fmt,
        },
        time_base: Rational { num: 1, den: rate },
        strict_std_compliance: -2,
        global_header: wants_global_header,
    }
}

/// One step at the end of a conversion.
#[derive(Clone, Copy, Debug, PartialEq, Eq, Structural)]
pub enum FinishStep {
    /// Send the end to the decoder and pass its last frames on.
    FlushDecoder,
    /// Send the end to the filter and pass its last frames on.
    FlushFilter,
    /// Send the end to the encoder and write its last packets.
    FlushEncoder,
    WriteTrailer,
}

/// What is done at the end of the input: each stage is flushed before the next one, and the
/// trailer comes last.
pub fn finish_steps() -> (r: Vec<FinishStep>)
    ensures
        r@ == seq![
            FinishStep::FlushDecoder,
            FinishStep::FlushFilter,
            FinishStep::FlushEncoder,
            FinishStep::WriteTrailer,
        ],
{
    let mut steps: Vec<FinishStep> = Vec::new();
    steps.push(FinishStep::FlushDecoder);
    steps.push(FinishStep::FlushFilter);
    steps.push(FinishStep::FlushEncoder);
    steps.push(FinishStep::WriteTrailer);
    steps
}

/// The converted bytes as they are handed out: a WAV file gets its sizes fixed.
pub fn finish_conversion(output: Vec<u8>, opts: &AudioConvertOptions) -> (r: Vec<u8>)
    ensures
        r@ == (if opts.output_format@ == "wav"@ {
            fixed_wav(output@)
        } else {
            output@
        }),
{
    let mut output = output;
    if same(opts.output_format.as_str(), "wav") {
        fix_wav_sizes(&mut output);
    }
    output
}

/// The name of the file that holds the input of a conversion for a while.
pub fn temp_input_name(stamp: u128) -> (r: String)
    ensures
        r@ == "tokimo_audio_in_"@ + hex(stamp as nat),
{
    let mut out = "tokimo_audio_in_".to_owned();
    out.append(hex_u128(stamp).as_str());
    out
}

/// The name of the file that holds the output of a conversion for a while.
pub fn temp_output_name(stamp: u128, output_format: &str) -> (r: String)
    ensures
        r@ == "tokimo_audio_out_"@ + hex(stamp as nat) + "."@ + output_format@,
{
    let mut out = "tokimo_audio_out_".to_owned();
    out.append(hex_u128(stamp).as_str());
    out.append(".");
    out.append(output_format);
    out
}

/// Every format that is known has an encoder that can write it, and no other name is a format.
pub proof fn law_formats_have_their_encoders(format: Seq<char>, has_fdk: bool)
    ensures
        format == "wav"@ ==> format_encoder(format, has_fdk) == Some("pcm_s16le"@),
        format == "mp3"@ ==> format_encoder(format, has_fdk) == Some("libmp3lame"@),
        format == "flac"@ ==> format_encoder(format, has_fdk) == Some("flac"@),
        format == "aac"@ || format == "m4a"@ ==> format_encoder(format, true) == Some(
            "libfdk_aac"@,
        ) && format_encoder(format, false) == Some("aac"@),
        format == "ogg"@ || format == "opus"@ ==> format_encoder(format, has_fdk) == Some(
            "libopus"@,
        ),
        format_encoder(format, has_fdk) is Some <==> format == "wav"@ || format == "mp3"@ || format
            == "aac"@ || format == "m4a"@ || format == "flac"@ || format == "ogg"@ || format
            == "opus"@,
{
    reveal_strlit("wav");
    reveal_strlit("mp3");
    reveal_strlit("aac");
    reveal_strlit("m4a");
    reveal_strlit("flac");
    reveal_strlit("ogg");
    reveal_strlit("opus");
    assert("wav"@[0] == 'w' && "mp3"@[0] == 'm' && "mp3"@[1] == 'p' && "m4a"@[0] == 'm' && "m4a"@[1]
        == '4' && "aac"@[0] == 'a' && "ogg"@[0] == 'o' && "flac"@[0] == 'f' && "opus"@.len() == 4
        && "opus"@[0] == 'o' && "ogg"@.len() == 3 && "flac"@.len() == 4);
}

/// The first audio stream is picked: no stream before it carries audio.
pub proof fn law_first_audio_stream_is_picked(streams: Seq<AudioCandidate>, i: int, j: int)
    requires
        is_first_audio(streams, i),
        0 <= j < streams.len(),
        streams[j].is_audio,
    ensures
        0 <= i <= j,
        streams[i].is_audio,
{
}

/// The encoder of a conversion gets the asked rate and channels, the first sample format that it
/// lists, and a time base of one sample.
pub proof fn law_conversion_is_as_asked(
    opts: AudioConvertOptions,
    encoder_fmt: Option<i32>,
    default_fmt: i32,
    wants_global_header: bool,
    r: AudioEncoderSettings,
)
    requires
        call_ensures(
            audio_encoder_settings,
            (&opts, encoder_fmt, default_fmt, wants_global_header),
            r,
        ),
    ensures
        opts.sample_rate <= i32::MAX ==> r.sample_rate == opts.sample_rate && r.time_base.num == 1
            && r.time_base.den == opts.sample_rate,
        r.channels == opts.channels,
        encoder_fmt matches Some(f) ==> r.sample_fmt == f,
        encoder_fmt is None ==> r.sample_fmt == default_fmt,
        r.global_header == wants_global_header,
        r.strict_std_compliance == -2,
{
    law_low_bits(opts.sample_rate as int);
}

/// A converted WAV file tells its true sizes, and the bytes of every other format are handed out as
/// they are.
pub proof fn law_converted_file_is_handed_out(
    output: Vec<u8>,
    opts: AudioConvertOptions,
    r: Vec<u8>,
)
    requires
        call_ensures(finish_conversion, (output, &opts), r),
    ensures
        r@.len() == output@.len(),
        opts.output_format@ != "wav"@ ==> r@ == output@,
        opts.output_format@ == "wav"@ && 44 <= output@.len() < 0x1_0000_0000 && output@[0] == 0x52
            && output@[1] == 0x49 && output@[2] == 0x46 && output@[3] == 0x46 && output@[8] == 0x57
            && output@[9] == 0x41 && output@[10] == 0x56 && output@[11] == 0x45 ==> r@[4] + r@[5]
            * 0x100 + r@[6] * 0x1_0000 + r@[7] * 0x100_0000 == output@.len() - 8,
        opts.output_format@ == "wav"@ ==> forall|i: int|
            0 <= i < 4 || 8 <= i < 12 ==> i < output@.len() ==> r@[i] == output@[i],
{
    let s = output@;
    if opts.output_format@ == "wav"@ {
        if 44 <= s.len() < 0x1_0000_0000 && s[0] == 0x52 && s[1] == 0x49 && s[2] == 0x46 && s[3]
            == 0x46 && s[8] == 0x57 && s[9] == 0x41 && s[10] == 0x56 && s[11] == 0x45 {
            law_fixed_sizes_are_true(s);
        }
        law_marks_stay(s);
    }
}

/// An audio stream that has none before it is the one that is picked.
pub proof fn law_a_first_audio_stream_is_found(streams: Seq<AudioCandidate>, i: int)
    requires
        0 <= i < streams.len(),
        streams[i].is_audio,
        forall|j: int| 0 <= j < i ==> !(#[trigger] streams[j]).is_audio,
    ensures
        is_first_audio(streams, i),
{
}

/// The encoder of an output format is refused by name where the format is not known, and the AAC
/// encoder is the external one where it is there.
pub proof fn law_output_encoder_is_found(
    format: &str,
    caps: HwCapabilities,
    r: Result<&'static str, Error>,
)
    requires
        call_ensures(output_encoder, (format, &caps), r),
    ensures
        format@ == "mp3"@ ==> r is Ok && r->Ok_0@ == "libmp3lame"@,
        format@ == "wav"@ ==> r is Ok && r->Ok_0@ == "pcm_s16le"@,
        format@ == "flac"@ ==> r is Ok && r->Ok_0@ == "flac"@,
        format@ == "aac"@ && caps.encoders@.contains("libfdk_aac"@) ==> r is Ok && r->Ok_0@
            == "libfdk_aac"@,
        format@ == "aac"@ && !caps.encoders@.contains("libfdk_aac"@) ==> r is Ok && r->Ok_0@
            == "aac"@,
        r is Err <==> format_encoder(format@, true) is None,
        r is Err ==> r->Err_0.text() == "Unsupported output format: "@ + format@,
{
    law_formats_have_their_encoders(format@, caps.encoders@.contains("libfdk_aac"@));
    law_formats_have_their_encoders(format@, true);
}

/// A conversion ends from its input to its output: the decoder is flushed before the filter, the
/// filter before the encoder, and the trailer comes last.
pub proof fn law_conversion_ends_in_order(steps: Vec<FinishStep>)
    requires
        call_ensures(finish_steps, (), steps),
    ensures
        steps@.len() == 4,
        steps@[0] == FinishStep::FlushDecoder,
        steps@[1] == FinishStep::FlushFilter,
        steps@[2] == FinishStep::FlushEncoder,
        steps@[3] == FinishStep::WriteTrailer,
{
}

/// Temporary files tell the moment, and the output ends in its format.
pub proof fn law_temporary_names(stamp: u128, format: &str, input: String, output: String)
    requires
        call_ensures(temp_input_name, (stamp,), input),
        call_ensures(temp_output_name, (stamp, format), output),
    ensures
        input@ == "tokimo_audio_in_"@ + hex(stamp as nat),
        output@ == "tokimo_audio_out_"@ + hex(stamp as nat) + "."@ + format@,
{
}

} // verus!
