use quarian_voice_filter::stft::{
    center_pad, fix_length, rebuild_full_spectrum, StftLayout, DEFAULT_HOP_LENGTH, DEFAULT_N_FFT,
};
use rustfft::num_complex::Complex;

#[test]
fn fix_length_cuts_and_pads() {
    assert_eq!(fix_length(&[1, 2, 3, 4], 2, 0), vec![1, 2]);
    assert_eq!(fix_length(&[1, 2], 4, 9), vec![1, 2, 9, 9]);
    assert!(fix_length(&[1, 2], 0, 9).is_empty());
}

#[test]
fn fix_length_to_own_length_is_identity() {
    let input: Vec<f32> = (0..4096).map(|i| (i as f32 * 0.01).sin()).collect();
    assert_eq!(fix_length(&input, input.len(), 0.0), input);
}

#[test]
fn fixing_twice_to_a_shorter_length_is_fixing_once() {
    let input = [1, 2, 3];
    let twice = fix_length(&fix_length(&input, 6, 0), 4, 0);
    assert_eq!(twice, fix_length(&input, 4, 0));
}

#[test]
fn center_pad_surrounds_the_signal() {
    let padded = center_pad(&[1.0_f32, 2.0], 2, 0.0);
    assert_eq!(padded, vec![0.0, 0.0, 1.0, 2.0, 0.0, 0.0]);
    assert_eq!(&padded[2..4], &[1.0, 2.0]);
    assert_eq!(center_pad(&[5], 0, 0), vec![5]);
}

#[test]
fn default_layout_sizes() {
    let layout = StftLayout::default();
    assert_eq!(layout.n_fft, DEFAULT_N_FFT);
    assert_eq!(layout.hop_length, DEFAULT_HOP_LENGTH);
    assert_eq!(layout.hop_length, 512);
    assert_eq!(layout.bin_count(), 1025);
    assert_eq!(layout.pad(), 1024);
}

#[test]
fn frame_count_of_centred_signal() {
    let layout = StftLayout::default();
    assert_eq!(layout.frame_count(4096), 9);
    assert_eq!(layout.frame_count(0), 1);
    let small = StftLayout {
        n_fft: 8,
        hop_length: 4,
    };
    assert_eq!(small.frame_count(3), 1);
    assert_eq!(small.frame_count(4), 2);
    let odd = StftLayout {
        n_fft: 5,
        hop_length: 2,
    };
    assert_eq!(odd.frame_count(0), 0);
}

#[test]
fn every_frame_lies_inside_the_centred_signal() {
    let layout = StftLayout::default();
    let count = layout.frame_count(4096);
    let padded_len = 4096 + 2 * layout.pad();
    for index in 0..count {
        let (start, end) = layout.frame_range(4096, index);
        assert_eq!(start, index * 512);
        assert_eq!(end, start + 2048);
        assert!(end <= padded_len);
    }
    assert!(count * 512 + 2048 > padded_len);
}

#[test]
fn overlap_buffer_and_trim() {
    let layout = StftLayout::default();
    assert_eq!(layout.overlap_len(9), 6144);
    assert_eq!(layout.overlap_len(1), 2048);
    assert_eq!(layout.overlap_len(0), 2048);
    assert_eq!(layout.trim_start(6144), 768);
    assert_eq!(layout.trim_start(10), 10);
    let coarse = StftLayout {
        n_fft: 4,
        hop_length: 8,
    };
    assert_eq!(coarse.trim_start(100), 0);
}

#[test]
fn full_spectrum_of_even_size_mirrors_conjugates() {
    let full = rebuild_full_spectrum(&[10, 11, 12, 13, 14], 8, 0, |x: i32| -x);
    assert_eq!(full, vec![10, 11, 12, 13, 14, -13, -12, -11]);
}

#[test]
fn full_spectrum_of_odd_size_leaves_middle_empty() {
    let full = rebuild_full_spectrum(&[10, 11, 12, 13], 7, 0, |x: i32| -x);
    assert_eq!(full, vec![10, 11, 12, 13, 0, -12, -11]);
}

#[test]
fn full_spectrum_of_complex_bins() {
    let half = [
        Complex::new(1.0_f32, 0.0),
        Complex::new(2.0, 3.0),
        Complex::new(4.0, -1.0),
    ];
    let zero = Complex::new(0.0_f32, 0.0);
    let full = rebuild_full_spectrum(&half, 4, zero, |c: Complex<f32>| c.conj());
    assert_eq!(full.len(), 4);
    assert_eq!(full[1], Complex::new(2.0, 3.0));
    assert_eq!(full[3], Complex::new(2.0, -3.0));
    assert_eq!(full[2], Complex::new(4.0, -1.0));
}
