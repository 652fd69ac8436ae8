//! WAV container decisions: which headers are accepted, how samples are read,
//! how interleaved frames are grouped and how output channels are laid out.
use vstd::prelude::*;
use crate::error::{FilterError, is_invalid_input};

verus! {

/// How the samples of a WAV file are stored.
#[derive(Clone, Copy, Debug, PartialEq, Eq, Structural)]
pub enum SampleFormat {
    /// IEEE floating-point samples.
    Float,
    /// Signed integer (PCM) samples.
    Int,
}

/// The properties of a WAV stream that its `fmt` chunk declares.
#[derive(Clone, Copy, Debug, PartialEq, Eq, Structural)]
pub struct WavFormat {
    pub channels: u16,
    pub sample_rate: u32,
    pub bits_per_sample: u16,
    pub sample_format: SampleFormat,
}

/// The integer type into which PCM samples are decoded.
#[derive(Clone, Copy, Debug, PartialEq, Eq, Structural)]
pub enum PcmWidth {
    /// 8-bit samples, decoded as `i8`.
    Bits8,
    /// 16-bit samples, decoded as `i16`.
    Bits16,
    /// 24- and 32-bit samples, decoded as `i32`.
    Bits32,
}

/// How the samples of an accepted WAV stream are read.
#[derive(Clone, Copy, Debug, PartialEq, Eq, Structural)]
pub enum SampleDecoder {
    /// Read as floating-point samples.
    Float,
    /// Read as integers of the given width and scaled by its full scale.
    Pcm(PcmWidth),
}

/// An accepted WAV stream: its declared format and the way its samples are read.
#[derive(Clone, Copy, Debug, PartialEq, Eq, Structural)]
pub struct WavLayout {
    pub format: WavFormat,
    pub decoder: SampleDecoder,
}

/// The reader for samples of the given format, if the library supports it.
pub open spec fn spec_sample_decoder(format: WavFormat) -> Option<SampleDecoder> {
    match format.sample_format {
        SampleFormat::Float => Some(SampleDecoder::Float),
        SampleFormat::Int => if format.bits_per_sample == 8 {
            Some(SampleDecoder::Pcm(PcmWidth::Bits8))
        } else if format.bits_per_sample == 16 {
            Some(SampleDecoder::Pcm(PcmWidth::Bits16))
        } else if format.bits_per_sample == 24 || format.bits_per_sample == 32 {
            Some(SampleDecoder::Pcm(PcmWidth::Bits32))
        } else {
            None
        },
    }
}

/// Chooses how samples of `format` are read; integer samples of a width other
/// than 8, 16, 24 or 32 bits are refused.
pub fn sample_decoder(format: &WavFormat) -> (res: Result<SampleDecoder, FilterError>)
    ensures
        spec_sample_decoder(*format) matches Some(d) ==> res == Ok::<SampleDecoder, FilterError>(d),
        spec_sample_decoder(*format) is None ==> (res matches Err(e) && is_invalid_input(
            e,
            "unsupported PCM bit depth"@,
        )),
        format.sample_format == SampleFormat::Float ==> res == Ok::<SampleDecoder, FilterError>(
            SampleDecoder::Float,
        ),
        format.sample_format == SampleFormat::Int && format.bits_per_sample == 8 ==> res == Ok::<
            SampleDecoder,
            FilterError,
        >(SampleDecoder::Pcm(PcmWidth::Bits8)),
        format.sample_format == SampleFormat::Int && format.bits_per_sample == 16 ==> res == Ok::<
            SampleDecoder,
            FilterError,
        >(SampleDecoder::Pcm(PcmWidth::Bits16)),
        format.sample_format == SampleFormat::Int && (format.bits_per_sample == 24
            || format.bits_per_sample == 32) ==> res == Ok::<SampleDecoder, FilterError>(
            SampleDecoder::Pcm(PcmWidth::Bits32),
        ),
{
    match format.sample_format {
        SampleFormat::Float => Ok(SampleDecoder::Float),
        SampleFormat::Int => {
            if format.bits_per_sample == 8 {
                Ok(SampleDecoder::Pcm(PcmWidth::Bits8))
            } else if format.bits_per_sample == 16 {
                Ok(SampleDecoder::Pcm(PcmWidth::Bits16))
            } else if format.bits_per_sample == 24 || format.bits_per_sample == 32 {
                Ok(SampleDecoder::Pcm(PcmWidth::Bits32))
            } else {
                Err(FilterError::InvalidInput("unsupported PCM bit depth"))
            }
        },
    }
}

/// The format that the WAV decoder reads from the header of `bytes`, or `None`
/// where it refuses them.
pub uninterp spec fn wav_header(bytes: Seq<u8>) -> Option<WavFormat>;

/// Reads the RIFF/WAVE header of `input` with `hound::WavReader::new` and
/// returns the stream's `hound::WavSpec`, field by field.
///
/// Claims: the decoder's answer depends on the bytes alone; it succeeds
/// exactly where `wav_header` is `Some`, with that format.
#[verifier::external_body]
fn read_wav_header(input: &[u8]) -> (res: Result<WavFormat, hound::Error>)
    ensures
        res is Ok <==> wav_header(input@) is Some,
        res matches Ok(format) ==> wav_header(input@) == Some(format),
{
    let spec = hound::WavReader::new(std::io::Cursor::new(input))?.spec();
    Ok(WavFormat {
        channels: spec.channels,
        sample_rate: spec.sample_rate,
        bits_per_sample: spec.bits_per_sample,
        sample_format: match spec.sample_format {
            hound::SampleFormat::Float => SampleFormat::Float,
            hound::SampleFormat::Int => SampleFormat::Int,
        },
    })
}

/// What the library makes of a decoded header: the layout of the stream, or
/// the rule that refuses it.
pub open spec fn spec_layout_from_header(format: WavFormat) -> Option<WavLayout> {
    if format.channels == 0 {
        None
    } else {
        match spec_sample_decoder(format) {
            Some(decoder) => Some(WavLayout { format, decoder }),
            None => None,
        }
    }
}

/// A header with at least one channel whose samples are floating-point, or
/// integers of 8, 16, 24 or 32 bits, is accepted whatever its sample rate,
/// with the reader that its sample format and width call for; and the sample
/// rate never decides whether a header is accepted.
pub proof fn lemma_supported_header_accepted(format: WavFormat, other_rate: u32)
    ensures
        format.channels != 0 && format.sample_format == SampleFormat::Float ==> spec_layout_from_header(
            format,
        ) == Some(WavLayout { format, decoder: SampleDecoder::Float }),
        format.channels != 0 && format.sample_format == SampleFormat::Int && format.bits_per_sample
            == 8 ==> spec_layout_from_header(format) == Some(
            WavLayout { format, decoder: SampleDecoder::Pcm(PcmWidth::Bits8) },
        ),
        format.channels != 0 && format.sample_format == SampleFormat::Int && format.bits_per_sample
            == 16 ==> spec_layout_from_header(format) == Some(
            WavLayout { format, decoder: SampleDecoder::Pcm(PcmWidth::Bits16) },
        ),
        format.channels != 0 && format.sample_format == SampleFormat::Int && (
        format.bits_per_sample == 24 || format.bits_per_sample == 32) ==> spec_layout_from_header(
            format,
        ) == Some(WavLayout { format, decoder: SampleDecoder::Pcm(PcmWidth::Bits32) }),
        spec_layout_from_header(format) is Some <==> spec_layout_from_header(
            WavFormat { sample_rate: other_rate, ..format },
        ) is Some,
{
}

/// Accepts a decoded header: it needs at least one channel, and samples that
/// the library can read.
pub fn layout_from_header(format: WavFormat) -> (res: Result<WavLayout, FilterError>)
    ensures
        format.channels == 0 ==> (res matches Err(e) && is_invalid_input(
            e,
            "wav must have at least one channel"@,
        )),
        format.channels != 0 && spec_sample_decoder(format) is None ==> (res matches Err(e)
            && is_invalid_input(e, "unsupported PCM bit depth"@)),
        spec_layout_from_header(format) matches Some(layout) ==> res == Ok::<
            WavLayout,
            FilterError,
        >(layout),
        format.channels != 0 && format.sample_format == SampleFormat::Float ==> res == Ok::<
            WavLayout,
            FilterError,
        >(WavLayout { format, decoder: SampleDecoder::Float }),
        format.channels != 0 && format.sample_format == SampleFormat::Int && format.bits_per_sample
            == 8 ==> res == Ok::<WavLayout, FilterError>(
            WavLayout { format, decoder: SampleDecoder::Pcm(PcmWidth::Bits8) },
        ),
        format.channels != 0 && format.sample_format == SampleFormat::Int && format.bits_per_sample
            == 16 ==> res == Ok::<WavLayout, FilterError>(
            WavLayout { format, decoder: SampleDecoder::Pcm(PcmWidth::Bits16) },
        ),
        format.channels != 0 && format.sample_format == SampleFormat::Int && (
        format.bits_per_sample == 24 || format.bits_per_sample == 32) ==> res == Ok::<
            WavLayout,
            FilterError,
        >(WavLayout { format, decoder: SampleDecoder::Pcm(PcmWidth::Bits32) }),
{
    if format.channels == 0 {
        return Err(FilterError::InvalidInput("wav must have at least one channel"));
    }
    let decoder = sample_decoder(&format)?;
    Ok(WavLayout { format, decoder })
}

/// Decodes the header of a WAV file held in `input` and decides how its
/// samples are read.
///
/// Empty input is refused before the decoder sees it; a header the decoder
/// refuses gives `WavDecode`; the rest is `layout_from_header`.
pub fn decode_wav_layout(input: &[u8]) -> (res: Result<WavLayout, FilterError>)
    ensures
        input@.len() == 0 ==> (res matches Err(e) && is_invalid_input(
            e,
            "input WAV bytes cannot be empty"@,
        )),
        input@.len() != 0 && wav_header(input@) is None ==> res matches Err(
            FilterError::WavDecode(_),
        ),
        input@.len() != 0 && wav_header(input@) is Some ==> {
            let format = wav_header(input@).unwrap();
            &&& format.channels == 0 ==> (res matches Err(e) && is_invalid_input(
                e,
                "wav must have at least one channel"@,
            ))
            &&& format.channels != 0 && spec_sample_decoder(format) is None ==> (res matches Err(
                e,
            ) && is_invalid_input(e, "unsupported PCM bit depth"@))
            &&& spec_layout_from_header(format) matches Some(layout) ==> res == Ok::<
                WavLayout,
                FilterError,
            >(layout)
            &&& format.channels != 0 && format.sample_format == SampleFormat::Float ==> res
                == Ok::<WavLayout, FilterError>(WavLayout { format, decoder: SampleDecoder::Float })
            &&& format.channels != 0 && format.sample_format == SampleFormat::Int
                && format.bits_per_sample == 8 ==> res == Ok::<WavLayout, FilterError>(
                WavLayout { format, decoder: SampleDecoder::Pcm(PcmWidth::Bits8) },
            )
            &&& format.channels != 0 && format.sample_format == SampleFormat::Int
                && format.bits_per_sample == 16 ==> res == Ok::<WavLayout, FilterError>(
                WavLayout { format, decoder: SampleDecoder::Pcm(PcmWidth::Bits16) },
            )
            &&& format.channels != 0 && format.sample_format == SampleFormat::Int && (
            format.bits_per_sample == 24 || format.bits_per_sample == 32) ==> res == Ok::<
                WavLayout,
                FilterError,
            >(WavLayout { format, decoder: SampleDecoder::Pcm(PcmWidth::Bits32) })
        },
{
    if input.len() == 0 {
        return Err(FilterError::InvalidInput("input WAV bytes cannot be empty"));
    }
    match read_wav_header(input) {
        Ok(format) => layout_from_header(format),
        Err(err) => Err(FilterError::WavDecode(err)),
    }
}

/// The 8-bit samples that the WAV decoder reads from `bytes`, interleaved,
/// or `None` where it refuses them.
pub uninterp spec fn wav_i8_samples(bytes: Seq<u8>) -> Option<Seq<i8>>;

/// The 16-bit samples that the WAV decoder reads from `bytes`, interleaved,
/// or `None` where it refuses them.
pub uninterp spec fn wav_i16_samples(bytes: Seq<u8>) -> Option<Seq<i16>>;

/// The samples that the WAV decoder reads from `bytes` into `i32`,
/// interleaved, or `None` where it refuses them.
pub uninterp spec fn wav_i32_samples(bytes: Seq<u8>) -> Option<Seq<i32>>;

/// Decodes every sample of the WAV file in `input` with
/// `hound::WavReader::samples::<i8>`.
///
/// Claims: the result depends on the bytes alone, and is `wav_i8_samples`.
#[verifier::external_body]
fn read_i8_samples(input: &[u8]) -> (res: Result<Vec<i8>, hound::Error>)
    ensures
        res is Ok <==> wav_i8_samples(input@) is Some,
        res matches Ok(v) ==> wav_i8_samples(input@) == Some(v@),
{
    let mut reader = hound::WavReader::new(std::io::Cursor::new(input))?;
    reader.samples::<i8>().collect()
}

/// Decodes every sample of the WAV file in `input` with
/// `hound::WavReader::samples::<i16>`.
///
/// Claims: the result depends on the bytes alone, and is `wav_i16_samples`.
#[verifier::external_body]
fn read_i16_samples(input: &[u8]) -> (res: Result<Vec<i16>, hound::Error>)
    ensures
        res is Ok <==> wav_i16_samples(input@) is Some,
        res matches Ok(v) ==> wav_i16_samples(input@) == Some(v@),
{
    let mut reader = hound::WavReader::new(std::io::Cursor::new(input))?;
    reader.samples::<i16>().collect()
}

/// Decodes every sample of the WAV file in `input` with
/// `hound::WavReader::samples::<i32>`.
///
/// Claims: the result depends on the bytes alone, and is `wav_i32_samples`.
#[verifier::external_body]
fn read_i32_samples(input: &[u8]) -> (res: Result<Vec<i32>, hound::Error>)
    ensures
        res is Ok <==> wav_i32_samples(input@) is Some,
        res matches Ok(v) ==> wav_i32_samples(input@) == Some(v@),
{
    let mut reader = hound::WavReader::new(std::io::Cursor::new(input))?;
    reader.samples::<i32>().collect()
}

/// The PCM samples of `bytes` decoded at `width`, each widened to `i32`.
pub open spec fn pcm_samples(bytes: Seq<u8>, width: PcmWidth) -> Option<Seq<i32>> {
    match width {
        PcmWidth::Bits8 => match wav_i8_samples(bytes) {
            Some(s) => Some(s.map_values(|x: i8| x as i32)),
            None => None,
        },
        PcmWidth::Bits16 => match wav_i16_samples(bytes) {
            Some(s) => Some(s.map_values(|x: i16| x as i32)),
            None => None,
        },
        PcmWidth::Bits32 => wav_i32_samples(bytes),
    }
}

/// Reads the integer samples of the WAV file in `input` at `width`, widened to
/// `i32` and still interleaved; a refusal of the decoder gives `WavDecode`.
pub fn read_pcm_samples(input: &[u8], width: PcmWidth) -> (res: Result<Vec<i32>, FilterError>)
    ensures
        pcm_samples(input@, width) matches Some(s) ==> (res matches Ok(v) && v@ == s),
        pcm_samples(input@, width) is None ==> res matches Err(FilterError::WavDecode(_)),
        width == PcmWidth::Bits32 ==> (wav_i32_samples(input@) matches Some(s) ==> (res matches Ok(
            v,
        ) && v@ == s)),
        width == PcmWidth::Bits32 && wav_i32_samples(input@) is None ==> res matches Err(
            FilterError::WavDecode(_),
        ),
        width == PcmWidth::Bits16 ==> (wav_i16_samples(input@) matches Some(s) ==> (res matches Ok(
            v,
        ) && v@.len() == s.len() && forall|i: int| 0 <= i < s.len() ==> v@[i] == s[i] as i32)),
        width == PcmWidth::Bits16 && wav_i16_samples(input@) is None ==> res matches Err(
            FilterError::WavDecode(_),
        ),
        width == PcmWidth::Bits8 ==> (wav_i8_samples(input@) matches Some(s) ==> (res matches Ok(v)
            && v@.len() == s.len() && forall|i: int| 0 <= i < s.len() ==> v@[i] == s[i] as i32)),
        width == PcmWidth::Bits8 && wav_i8_samples(input@) is None ==> res matches Err(
            FilterError::WavDecode(_),
        ),
{
    match width {
        PcmWidth::Bits8 => match read_i8_samples(input) {
            Ok(narrow) => {
                let mut wide: Vec<i32> = Vec::with_capacity(narrow.len());
                let mut i: usize = 0;
                while i < narrow.len()
                    invariant
                        i <= narrow@.len(),
                        wide@ =~= narrow@.take(i as int).map_values(|x: i8| x as i32),
                    decreases narrow@.len() - i,
                {
                    wide.push(narrow[i] as i32);
                    i = i + 1;
                    assert(wide@ =~= narrow@.take(i as int).map_values(|x: i8| x as i32));
                }
                assert(narrow@.take(i as int) =~= narrow@);
                Ok(wide)
            },
            Err(err) => Err(FilterError::WavDecode(err)),
        },
        PcmWidth::Bits16 => match read_i16_samples(input) {
            Ok(narrow) => {
                let mut wide: Vec<i32> = Vec::with_capacity(narrow.len());
                let mut i: usize = 0;
                while i < narrow.len()
                    invariant
                        i <= narrow@.len(),
                        wide@ =~= narrow@.take(i as int).map_values(|x: i16| x as i32),
                    decreases narrow@.len() - i,
                {
                    wide.push(narrow[i] as i32);
                    i = i + 1;
                    assert(wide@ =~= narrow@.take(i as int).map_values(|x: i16| x as i32));
                }
                assert(narrow@.take(i as int) =~= narrow@);
                Ok(wide)
            },
            Err(err) => Err(FilterError::WavDecode(err)),
        },
        PcmWidth::Bits32 => match read_i32_samples(input) {
            Ok(samples) => Ok(samples),
            Err(err) => Err(FilterError::WavDecode(err)),
        },
    }
}

/// Reading PCM samples never alters a value the decoder produced: 32-bit
/// reads give the decoder's `i32` samples as they are, and narrower reads give
/// each decoded sample at the same position, with the same value.
pub proof fn lemma_pcm_samples_are_decoded_values(bytes: Seq<u8>)
    ensures
        pcm_samples(bytes, PcmWidth::Bits32) == wav_i32_samples(bytes),
        wav_i16_samples(bytes) matches Some(s) ==> pcm_samples(bytes, PcmWidth::Bits16) matches Some(
            v,
        ) && v.len() == s.len() && forall|i: int| 0 <= i < s.len() ==> v[i] == s[i] as i32,
        wav_i16_samples(bytes) is None ==> pcm_samples(bytes, PcmWidth::Bits16) is None,
        wav_i8_samples(bytes) matches Some(s) ==> pcm_samples(bytes, PcmWidth::Bits8) matches Some(
            v,
        ) && v.len() == s.len() && forall|i: int| 0 <= i < s.len() ==> v[i] == s[i] as i32,
        wav_i8_samples(bytes) is None ==> pcm_samples(bytes, PcmWidth::Bits8) is None,
{
}

impl PcmWidth {
    /// The largest value of the integer type that samples of this width are
    /// decoded into; a sample is scaled by it to the unit range.
    pub fn full_scale(&self) -> (scale: i32)
        ensures
            *self == PcmWidth::Bits8 ==> scale == i8::MAX,
            *self == PcmWidth::Bits16 ==> scale == i16::MAX,
            *self == PcmWidth::Bits32 ==> scale == i32::MAX,
    {
        match self {
            PcmWidth::Bits8 => 127,
            PcmWidth::Bits16 => 32767,
            PcmWidth::Bits32 => 2147483647,
        }
    }
}

/// The complete frames of an interleaved stream with `channels` channels:
/// frame `f` holds the samples at `f * channels .. (f + 1) * channels`, and a
/// trailing incomplete frame is left out.
pub open spec fn spec_frames<T>(samples: Seq<T>, channels: nat) -> Seq<Seq<T>> {
    Seq::new(
        samples.len() / channels,
        |f: int| samples.subrange(f * channels, f * channels + channels),
    )
}

/// `samples` with each item written `channels` times in a row.
pub open spec fn spec_interleaved<T>(samples: Seq<T>, channels: nat) -> Seq<T> {
    Seq::new(samples.len() * channels, |i: int| samples[i / channels as int])
}

proof fn lemma_frame_in_bounds(f: int, channels: int, len: int)
    requires
        channels > 0,
        0 <= f < len / channels,
        len >= 0,
    ensures
        0 <= f * channels,
        f * channels + channels <= len,
{
    assert(0 <= f * channels) by (nonlinear_arith)
        requires
            f >= 0,
            channels > 0,
    ;
    assert(f * channels + channels <= (len / channels) * channels) by (nonlinear_arith)
        requires
            f + 1 <= len / channels,
            channels > 0,
    ;
    assert((len / channels) * channels <= len) by (nonlinear_arith)
        requires
            channels > 0,
            len >= 0,
    ;
}

/// Groups interleaved samples into complete frames of `channels` samples each.
pub fn split_frames<T: Copy>(samples: &[T], channels: usize) -> (frames: Vec<Vec<T>>)
    requires
        channels > 0,
    ensures
        frames@.len() == samples@.len() / (channels as nat),
        frames@.map_values(|frame: Vec<T>| frame@) == spec_frames(samples@, channels as nat),
        forall|f: int| 0 <= f < frames@.len() ==> (#[trigger] frames@[f])@.len() == channels,
        forall|f: int, k: int|
            0 <= f < frames@.len() && 0 <= k < channels ==> #[trigger] frames@[f]@[k]
                == samples@[f * channels + k],
{
    let ghost len = samples@.len() as int;
    let ghost ch = channels as int;
    let mut frames: Vec<Vec<T>> = Vec::new();
    let mut start: usize = 0;
    assert(frames@.len() * channels == 0) by (nonlinear_arith)
        requires
            frames@.len() == 0,
    ;
    while channels <= samples.len() - start
        invariant
            channels > 0,
            ch == channels,
            len == samples@.len(),
            start <= samples@.len(),
            start == frames@.len() * channels,
            forall|f: int|
                0 <= f < frames@.len() ==> #[trigger] frames@[f]@ == samples@.subrange(
                    f * ch,
                    f * ch + ch,
                ),
        decreases samples@.len() - start,
    {
        let frame = crate::copy_range(samples, start, start + channels);
        proof {
            let n = frames@.len() as int;
            assert(n * ch + ch == (n + 1) * ch) by (nonlinear_arith);
        }
        frames.push(frame);
        start = start + channels;
    }
    proof {
        let n = frames@.len() as int;
        assert(n == len / ch) by (nonlinear_arith)
            requires
                n * ch <= len,
                len < n * ch + ch,
                ch > 0,
        ;
        assert(frames@.map_values(|frame: Vec<T>| frame@) =~= spec_frames(samples@, channels as nat));
        assert forall|f: int| 0 <= f < frames@.len() implies (#[trigger] frames@[f])@.len() == ch
            && forall|k: int| 0 <= k < ch ==> frames@[f]@[k] == samples@[f * ch + k] by {
            lemma_frame_in_bounds(f, ch, len);
        }
    }
    frames
}

/// Writes each sample `channels` times in a row, the layout of a stream whose
/// channels all carry the same signal.
pub fn interleave_channels<T: Copy>(samples: &[T], channels: u16) -> (out: Vec<T>)
    requires
        samples@.len() * channels <= usize::MAX,
    ensures
        out@ == spec_interleaved(samples@, channels as nat),
        out@.len() == samples@.len() * channels,
        forall|i: int| 0 <= i < out@.len() ==> #[trigger] out@[i] == samples@[i / channels as int],
{
    let ghost ch = channels as int;
    let mut out: Vec<T> = Vec::new();
    let mut i: usize = 0;
    while i < samples.len()
        invariant
            ch == channels,
            samples@.len() * ch <= usize::MAX,
            i <= samples@.len(),
            out@.len() == i * ch,
            forall|j: int| 0 <= j < out@.len() ==> #[trigger] out@[j] == samples@[j / ch],
        decreases samples@.len() - i,
    {
        let mut k: u16 = 0;
        while k < channels
            invariant
                ch == channels,
                samples@.len() * ch <= usize::MAX,
                i < samples@.len(),
                k <= channels,
                out@.len() == i * ch + k,
                forall|j: int| 0 <= j < out@.len() ==> #[trigger] out@[j] == samples@[j / ch],
            decreases channels - k,
        {
            proof {
                let ii = i as int;
                let kk = k as int;
                assert((ii * ch + kk) / ch == ii) by (nonlinear_arith)
                    requires
                        0 <= kk < ch,
                        ii >= 0,
                ;
            }
            out.push(samples[i]);
            k = k + 1;
        }
        proof {
            let ii = i as int;
            assert(ii * ch + ch == (ii + 1) * ch) by (nonlinear_arith);
            assert((ii + 1) * ch <= samples@.len() * ch) by (nonlinear_arith)
                requires
                    ii + 1 <= samples@.len(),
                    ch >= 0,
            ;
        }
        i = i + 1;
    }
    assert(out@ =~= spec_interleaved(samples@, channels as nat));
    out
}

/// Every frame of a stream written by `interleave_channels` carries one input
/// sample on all of its channels, and there is one frame per input sample.
pub proof fn lemma_interleaved_frames_repeat_sample<T>(samples: Seq<T>, channels: nat)
    requires
        channels > 0,
    ensures
        spec_frames(spec_interleaved(samples, channels), channels) == Seq::new(
            samples.len(),
            |f: int| Seq::new(channels, |k: int| samples[f]),
        ),
{
    let ch = channels as int;
    let n = samples.len() as int;
    let wide = spec_interleaved(samples, channels);
    assert(wide.len() / channels == samples.len()) by {
        assert((n * ch) / ch == n) by (nonlinear_arith)
            requires
                ch > 0,
                n >= 0,
        ;
    }
    let lhs = spec_frames(wide, channels);
    let rhs = Seq::new(samples.len(), |f: int| Seq::new(channels, |k: int| samples[f]));
    assert forall|f: int| 0 <= f < n implies #[trigger] lhs[f] =~= rhs[f] by {
        lemma_frame_in_bounds(f, ch, n * ch);
        assert forall|k: int| 0 <= k < ch implies #[trigger] lhs[f][k] == rhs[f][k] by {
            assert((f * ch + k) / ch == f) by (nonlinear_arith)
                requires
                    0 <= k < ch,
                    f >= 0,
            ;
        }
    }
    assert(lhs =~= rhs);
}

/// How many channels the encoder writes for the processed mono signal.
#[derive(Clone, Copy, Debug, PartialEq, Eq, Structural)]
pub enum OutputMode {
    /// Keep the processed signal mono.
    Preserve,
    /// Write the processed signal to both channels of a stereo stream.
    ForceStereo,
}

/// The channel count that the encoder is asked for in `mode`.
pub fn output_channels(mode: OutputMode) -> (channels: u16)
    ensures
        mode == OutputMode::Preserve ==> channels == 1,
        mode == OutputMode::ForceStereo ==> channels == 2,
{
    match mode {
        OutputMode::Preserve => 1,
        OutputMode::ForceStereo => 2,
    }
}

/// The number of bits of each encoded sample.
pub const ENCODED_BITS_PER_SAMPLE: u16 = 32;

/// The format the encoder writes: 32-bit floating-point samples at
/// `sample_rate` on `channels` channels. A zero sample rate or channel count is
/// refused, the sample rate first.
pub fn encode_format(sample_rate: u32, channels: u16) -> (res: Result<WavFormat, FilterError>)
    ensures
        sample_rate == 0 ==> (res matches Err(e) && is_invalid_input(
            e,
            "sample_rate must be greater than zero"@,
        )),
        sample_rate != 0 && channels == 0 ==> (res matches Err(e) && is_invalid_input(
            e,
            "channels must be greater than zero"@,
        )),
        sample_rate != 0 && channels != 0 ==> res == Ok::<WavFormat, FilterError>(
            WavFormat {
                channels,
                sample_rate,
                bits_per_sample: ENCODED_BITS_PER_SAMPLE,
                sample_format: SampleFormat::Float,
            },
        ),
{
    if sample_rate == 0 {
        return Err(FilterError::InvalidInput("sample_rate must be greater than zero"));
    }
    if channels == 0 {
        return Err(FilterError::InvalidInput("channels must be greater than zero"));
    }
    Ok(
        WavFormat {
            channels,
            sample_rate,
            bits_per_sample: ENCODED_BITS_PER_SAMPLE,
            sample_format: SampleFormat::Float,
        },
    )
}

/// The format in which the processed signal of a decoded stream is written:
/// the stream's own sample rate, the channel count of `mode`, 32-bit
/// floating-point samples. A stream whose header declares a zero sample rate
/// is refused.
pub fn output_format(layout: &WavLayout, mode: OutputMode) -> (res: Result<WavFormat, FilterError>)
    ensures
        layout.format.sample_rate == 0 ==> (res matches Err(e) && is_invalid_input(
            e,
            "sample_rate must be greater than zero"@,
        )),
        layout.format.sample_rate != 0 ==> (res matches Ok(format) && format == WavFormat {
            channels: if mode == OutputMode::Preserve { 1 } else { 2 },
            sample_rate: layout.format.sample_rate,
            bits_per_sample: ENCODED_BITS_PER_SAMPLE,
            sample_format: SampleFormat::Float,
        }),
{
    encode_format(layout.format.sample_rate, output_channels(mode))
}

} // verus!
