//! Frame bookkeeping of the phase vocoder.
use vstd::prelude::*;

verus! {

/// The frames of a spectrogram followed by two frames of `bin_count` copies of
/// `zero`, so that interpolation between a frame and the next never runs off
/// the end.
pub fn padded_frames<T: Copy>(frames: &[Vec<T>], bin_count: usize, zero: T) -> (padded: Vec<Vec<T>>)
    requires
        frames@.len() + 2 <= usize::MAX,
    ensures
        padded@.len() == frames@.len() + 2,
        forall|i: int| 0 <= i < frames@.len() ==> #[trigger] padded@[i]@ == frames@[i]@,
        padded@[frames@.len() as int]@ == Seq::new(bin_count as nat, |b: int| zero),
        padded@[frames@.len() as int + 1]@ == Seq::new(bin_count as nat, |b: int| zero),
{
    let mut padded: Vec<Vec<T>> = Vec::with_capacity(frames.len() + 2);
    let mut i: usize = 0;
    while i < frames.len()
        invariant
            i <= frames@.len(),
            padded@.len() == i,
            forall|j: int| 0 <= j < i ==> #[trigger] padded@[j]@ == frames@[j]@,
        decreases frames@.len() - i,
    {
        let frame = crate::copy_range(frames[i].as_slice(), 0, frames[i].len());
        assert(frame@ =~= frames@[i as int]@);
        padded.push(frame);
        i = i + 1;
    }
    let mut silent: Vec<T> = Vec::with_capacity(bin_count);
    let mut b: usize = 0;
    while b < bin_count
        invariant
            b <= bin_count,
            silent@ =~= Seq::new(b as nat, |k: int| zero),
        decreases bin_count - b,
    {
        silent.push(zero);
        b = b + 1;
    }
    let second = crate::copy_range(silent.as_slice(), 0, silent.len());
    assert(second@ =~= silent@);
    padded.push(silent);
    padded.push(second);
    padded
}

} // verus!
