use std::io::Cursor;

use hound::{SampleFormat as HoundSampleFormat, WavReader, WavSpec, WavWriter};
use quarian_voice_filter::error::FilterError;
use quarian_voice_filter::require_sample_rate;
use quarian_voice_filter::wav::{
    decode_wav_layout, output_format, split_frames, OutputMode, SampleDecoder, SampleFormat,
};

fn write_test_wav(samples: &[f32], spec: WavSpec) -> Vec<u8> {
    let mut cursor = Cursor::new(Vec::new());
    {
        let mut writer = WavWriter::new(&mut cursor, spec).unwrap();
        for &sample in samples {
            writer.write_sample(sample).unwrap();
        }
        writer.finalize().unwrap();
    }
    cursor.into_inner()
}

#[test]
fn regression_process_mono_f32_requires_non_zero_sample_rate() {
    let error = require_sample_rate(0).unwrap_err();

    assert_eq!(error.message(), "sample_rate must be greater than zero");
}

#[test]
fn regression_process_wav_bytes_rejects_empty_input() {
    let error = decode_wav_layout(&[]).unwrap_err();

    assert!(matches!(
        error,
        FilterError::InvalidInput("input WAV bytes cannot be empty")
    ));
}

#[test]
fn regression_process_wav_bytes_downmixes_stereo_and_preserves_sample_rate() {
    let input = write_test_wav(
        &[0.5, -0.5, 0.25, 0.75],
        WavSpec {
            channels: 2,
            sample_rate: 24_000,
            bits_per_sample: 32,
            sample_format: HoundSampleFormat::Float,
        },
    );

    let layout = decode_wav_layout(&input).unwrap();
    assert_eq!(layout.decoder, SampleDecoder::Float);
    let interleaved: Vec<f32> = WavReader::new(Cursor::new(&input[..]))
        .unwrap()
        .samples::<f32>()
        .map(Result::unwrap)
        .collect();
    let frames = split_frames(&interleaved, layout.format.channels as usize);
    let samples: Vec<f32> = frames
        .iter()
        .map(|frame| frame.iter().sum::<f32>() / frame.len() as f32)
        .collect();
    let spec = output_format(&layout, OutputMode::Preserve).unwrap();

    assert_eq!(spec.channels, 1);
    assert_eq!(spec.sample_rate, 24_000);
    assert_eq!(spec.sample_format, SampleFormat::Float);
    assert_eq!(spec.bits_per_sample, 32);
    assert_eq!(samples.len(), 2);
    assert!((samples[0] - 0.0).abs() < 1e-6);
    assert!((samples[1] - 0.5).abs() < 1e-6);
}
