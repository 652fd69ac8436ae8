use quarian_voice_filter::phase_vocoder::padded_frames;
use quarian_voice_filter::resample::{trim_resampler_delay, ResampleCursor};

#[test]
fn trim_drops_delay_and_keeps_expected_len() {
    let output: Vec<i32> = (1..=10).collect();
    assert_eq!(trim_resampler_delay(&output, 3, 4, 0), vec![4, 5, 6, 7]);
    assert_eq!(
        trim_resampler_delay(&output, 3, 10, 0),
        vec![4, 5, 6, 7, 8, 9, 10, 0, 0, 0]
    );
    assert_eq!(trim_resampler_delay(&output, 20, 3, -1), vec![-1, -1, -1]);
}

#[test]
fn trim_to_expected_length_of_resampled_clip() {
    let output = vec![0.0_f32; 1300];
    assert_eq!(trim_resampler_delay(&output, 40, 1249, 0.0).len(), 1249);
}

#[test]
fn cursor_feeds_full_chunks_then_a_partial_one() {
    let mut cursor = ResampleCursor::new(2500);
    assert!(!cursor.is_done());
    assert_eq!(cursor.partial_len(1024), None);
    cursor.advance(1024);
    assert_eq!(cursor.partial_len(1024), None);
    cursor.advance(1024);
    assert_eq!(cursor.partial_len(1024), Some(452));
    cursor.advance(452);
    assert!(cursor.is_done());
    assert_eq!(cursor.input_offset, 2500);
}

#[test]
fn cursor_that_reads_past_the_end_stops() {
    let mut cursor = ResampleCursor::new(10);
    cursor.advance(16);
    assert!(cursor.is_done());
    assert_eq!(cursor.input_offset, 16);
}

#[test]
fn padded_frames_append_two_silent_frames() {
    let frames = vec![vec![1, 2], vec![3, 4]];
    let padded = padded_frames(&frames, 2, 0);
    assert_eq!(padded, vec![vec![1, 2], vec![3, 4], vec![0, 0], vec![0, 0]]);
    assert_eq!(padded_frames::<i32>(&[], 3, 7), vec![vec![7, 7, 7], vec![7, 7, 7]]);
}
