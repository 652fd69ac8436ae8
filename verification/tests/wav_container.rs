use std::io::Cursor;

use hound::{SampleFormat as HoundSampleFormat, WavSpec, WavWriter};
use quarian_voice_filter::error::FilterError;
use quarian_voice_filter::wav::{
    decode_wav_layout, encode_format, interleave_channels, layout_from_header, output_channels,
    output_format, read_pcm_samples, sample_decoder, split_frames, OutputMode, PcmWidth,
    SampleDecoder, SampleFormat, WavFormat, WavLayout,
};

fn pcm_wav(bits: u16, channels: u16, samples: &[i32]) -> Vec<u8> {
    let spec = WavSpec {
        channels,
        sample_rate: 8_000,
        bits_per_sample: bits,
        sample_format: HoundSampleFormat::Int,
    };
    let mut cursor = Cursor::new(Vec::new());
    {
        let mut writer = WavWriter::new(&mut cursor, spec).unwrap();
        for &sample in samples {
            writer.write_sample(sample).unwrap();
        }
        writer.finalize().unwrap();
    }
    cursor.into_inner()
}

fn int_format(bits: u16) -> WavFormat {
    WavFormat {
        channels: 1,
        sample_rate: 8_000,
        bits_per_sample: bits,
        sample_format: SampleFormat::Int,
    }
}

#[test]
fn decodes_pcm16_header_and_samples() {
    let bytes = pcm_wav(16, 1, &[100, -200, 32_767, -32_768]);
    let layout = decode_wav_layout(&bytes).unwrap();
    assert_eq!(
        layout,
        WavLayout {
            format: int_format(16),
            decoder: SampleDecoder::Pcm(PcmWidth::Bits16),
        }
    );
    let samples = read_pcm_samples(&bytes, PcmWidth::Bits16).unwrap();
    assert_eq!(samples, vec![100, -200, 32_767, -32_768]);
}

#[test]
fn decodes_pcm8_samples() {
    let bytes = pcm_wav(8, 2, &[-128, 127, 0, 5]);
    let layout = decode_wav_layout(&bytes).unwrap();
    assert_eq!(layout.format.channels, 2);
    assert_eq!(layout.decoder, SampleDecoder::Pcm(PcmWidth::Bits8));
    assert_eq!(
        read_pcm_samples(&bytes, PcmWidth::Bits8).unwrap(),
        vec![-128, 127, 0, 5]
    );
}

#[test]
fn decodes_pcm24_as_i32() {
    let bytes = pcm_wav(24, 1, &[8_388_607, -8_388_608, 1]);
    let layout = decode_wav_layout(&bytes).unwrap();
    assert_eq!(layout.decoder, SampleDecoder::Pcm(PcmWidth::Bits32));
    assert_eq!(
        read_pcm_samples(&bytes, PcmWidth::Bits32).unwrap(),
        vec![8_388_607, -8_388_608, 1]
    );
}

#[test]
fn reading_at_the_wrong_width_is_a_decode_error() {
    let bytes = pcm_wav(16, 1, &[1, 2]);
    assert!(matches!(
        read_pcm_samples(&bytes, PcmWidth::Bits8),
        Err(FilterError::WavDecode(_))
    ));
}

#[test]
fn bytes_that_are_not_a_wav_give_a_decode_error() {
    let error = decode_wav_layout(b"not a wave file at all").unwrap_err();
    assert!(matches!(error, FilterError::WavDecode(_)));
    assert!(error.message().starts_with("failed to decode wav: "));
    assert!(error.message().len() > "failed to decode wav: ".len());
}

#[test]
fn unsupported_bit_depth_is_refused() {
    let error = layout_from_header(int_format(12)).unwrap_err();
    assert!(matches!(
        error,
        FilterError::InvalidInput("unsupported PCM bit depth")
    ));
    assert!(matches!(
        sample_decoder(&int_format(20)),
        Err(FilterError::InvalidInput("unsupported PCM bit depth"))
    ));
}

#[test]
fn decoder_choice_for_every_supported_depth() {
    assert_eq!(
        sample_decoder(&int_format(8)).unwrap(),
        SampleDecoder::Pcm(PcmWidth::Bits8)
    );
    assert_eq!(
        sample_decoder(&int_format(16)).unwrap(),
        SampleDecoder::Pcm(PcmWidth::Bits16)
    );
    assert_eq!(
        sample_decoder(&int_format(24)).unwrap(),
        SampleDecoder::Pcm(PcmWidth::Bits32)
    );
    assert_eq!(
        sample_decoder(&int_format(32)).unwrap(),
        SampleDecoder::Pcm(PcmWidth::Bits32)
    );
    let float = WavFormat {
        sample_format: SampleFormat::Float,
        ..int_format(32)
    };
    assert_eq!(sample_decoder(&float).unwrap(), SampleDecoder::Float);
}

#[test]
fn zero_channels_are_refused_before_the_bit_depth() {
    let format = WavFormat {
        channels: 0,
        ..int_format(12)
    };
    let error = layout_from_header(format).unwrap_err();
    assert_eq!(error.message(), "wav must have at least one channel");
}

#[test]
fn full_scale_per_width() {
    assert_eq!(PcmWidth::Bits8.full_scale(), i8::MAX as i32);
    assert_eq!(PcmWidth::Bits16.full_scale(), i16::MAX as i32);
    assert_eq!(PcmWidth::Bits32.full_scale(), i32::MAX);
}

#[test]
fn encode_format_checks_sample_rate_then_channels() {
    assert_eq!(
        encode_format(0, 0).unwrap_err().message(),
        "sample_rate must be greater than zero"
    );
    assert_eq!(
        encode_format(44_100, 0).unwrap_err().message(),
        "channels must be greater than zero"
    );
    assert_eq!(
        encode_format(44_100, 2).unwrap(),
        WavFormat {
            channels: 2,
            sample_rate: 44_100,
            bits_per_sample: 32,
            sample_format: SampleFormat::Float,
        }
    );
}

#[test]
fn output_modes_choose_channel_counts() {
    assert_eq!(output_channels(OutputMode::Preserve), 1);
    assert_eq!(output_channels(OutputMode::ForceStereo), 2);
    let layout = WavLayout {
        format: WavFormat {
            channels: 2,
            sample_rate: 48_000,
            bits_per_sample: 16,
            sample_format: SampleFormat::Int,
        },
        decoder: SampleDecoder::Pcm(PcmWidth::Bits16),
    };
    let stereo = output_format(&layout, OutputMode::ForceStereo).unwrap();
    assert_eq!(stereo.channels, 2);
    assert_eq!(stereo.sample_rate, 48_000);
    assert_eq!(stereo.bits_per_sample, 32);
    assert_eq!(stereo.sample_format, SampleFormat::Float);
    let silent = WavLayout {
        format: WavFormat {
            sample_rate: 0,
            ..layout.format
        },
        ..layout
    };
    assert_eq!(
        output_format(&silent, OutputMode::Preserve)
            .unwrap_err()
            .message(),
        "sample_rate must be greater than zero"
    );
}

#[test]
fn split_frames_drops_an_incomplete_frame() {
    let frames = split_frames(&[1, 2, 3, 4, 5], 2);
    assert_eq!(frames, vec![vec![1, 2], vec![3, 4]]);
    let mono = split_frames(&[0.25_f32, -0.5], 1);
    assert_eq!(mono, vec![vec![0.25], vec![-0.5]]);
    assert!(split_frames::<i32>(&[], 3).is_empty());
}

#[test]
fn interleaving_repeats_each_sample_per_channel() {
    assert_eq!(interleave_channels(&[1, 2], 3), vec![1, 1, 1, 2, 2, 2]);
    assert_eq!(interleave_channels(&[7, 8], 1), vec![7, 8]);
    assert!(interleave_channels(&[7, 8], 0).is_empty());
}

#[test]
fn interleaved_frames_carry_one_sample_on_every_channel() {
    let samples = [0.5_f32, -0.25, 1.0];
    let frames = split_frames(&interleave_channels(&samples, 2), 2);
    assert_eq!(frames.len(), samples.len());
    for (frame, sample) in frames.iter().zip(samples.iter()) {
        assert_eq!(frame, &vec![*sample, *sample]);
    }
}
