//! Frame layout, buffer shaping, WAV container decisions and error
//! reporting for the Quarian-style voice filter, stated and proved with Verus.
//!
//! Sample arithmetic itself lives in the application crate; everything here
//! works on indices, lengths, headers and sample containers of any type.
use vstd::prelude::*;
use crate::error::{FilterError, is_invalid_input};

pub mod stft;
pub mod codec;
pub mod error;
pub mod phase_vocoder;
pub mod resample;
pub mod wav;

verus! {

/// Copies `samples[start..end]` into a new vector.
pub(crate) fn copy_range<T: Copy>(samples: &[T], start: usize, end: usize) -> (out: Vec<T>)
    requires
        start <= end <= samples@.len(),
    ensures
        out@ == samples@.subrange(start as int, end as int),
{
    let mut out: Vec<T> = Vec::with_capacity(end - start);
    let mut i = start;
    while i < end
        invariant
            start <= i <= end <= samples@.len(),
            out@ =~= samples@.subrange(start as int, i as int),
        decreases end - i,
    {
        out.push(samples[i]);
        i = i + 1;
    }
    out
}

/// Refuses a zero sample rate before any processing.
pub fn require_sample_rate(sample_rate: u32) -> (res: Result<(), FilterError>)
    ensures
        sample_rate == 0 ==> (res matches Err(e) && is_invalid_input(
            e,
            "sample_rate must be greater than zero"@,
        )),
        sample_rate != 0 ==> res is Ok,
{
    if sample_rate == 0 {
        Err(FilterError::InvalidInput("sample_rate must be greater than zero"))
    } else {
        Ok(())
    }
}

} // verus!
