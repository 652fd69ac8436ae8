//! Bookkeeping around the resampler: feeding it chunk by chunk and cutting
//! its output to the expected length.
use vstd::prelude::*;
use crate::stft::fixed_length;

verus! {

/// The output of a resampler with its start-up delay cut off, cut or
/// extended with `fill` to `expected_len` items.
pub open spec fn trimmed_output<T>(samples: Seq<T>, delay: nat, expected_len: nat, fill: T) -> Seq<T> {
    let start = if delay <= samples.len() { delay } else { samples.len() };
    let end = if start + expected_len <= samples.len() { start + expected_len } else { samples.len() };
    fixed_length(samples.subrange(start as int, end as int), expected_len, fill)
}

/// Drops the first `delay` items of the resampler's output (all of them if
/// there are fewer) and returns the next `expected_len` items, padded with
/// `fill` where the output runs short.
pub fn trim_resampler_delay<T: Copy>(
    samples: &[T],
    delay: usize,
    expected_len: usize,
    fill: T,
) -> (out: Vec<T>)
    requires
        (if delay <= samples@.len() { delay as nat } else { samples@.len() }) + expected_len
            <= usize::MAX,
    ensures
        out@ == trimmed_output(samples@, delay as nat, expected_len as nat, fill),
        out@.len() == expected_len,
        forall|j: int|
            0 <= j < expected_len && delay + j < samples@.len() ==> #[trigger] out@[j]
                == samples@[delay + j],
        forall|j: int|
            0 <= j < expected_len && delay + j >= samples@.len() ==> #[trigger] out@[j] == fill,
{
    let start = if delay <= samples.len() {
        delay
    } else {
        samples.len()
    };
    let end = if start + expected_len <= samples.len() {
        start + expected_len
    } else {
        samples.len()
    };
    let ghost kept = samples@.subrange(start as int, end as int);
    let mut out: Vec<T> = Vec::with_capacity(expected_len);
    let mut i: usize = 0;
    while i < expected_len
        invariant
            start <= end <= samples@.len(),
            end <= start + expected_len,
            kept == samples@.subrange(start as int, end as int),
            i <= expected_len,
            out@.len() == i,
            forall|j: int|
                0 <= j < i ==> #[trigger] out@[j] == (if j < kept.len() {
                    kept[j]
                } else {
                    fill
                }),
        decreases expected_len - i,
    {
        if i < end - start {
            out.push(samples[start + i]);
        } else {
            out.push(fill);
        }
        i = i + 1;
    }
    assert(out@ =~= trimmed_output(samples@, delay as nat, expected_len as nat, fill));
    out
}

/// The trimmed output begins exactly after the delay: item `j` is the
/// resampler's item `delay + j` where the output has one, and `fill` past its
/// end; so when the output is long enough it is the slice
/// `delay .. delay + expected_len`.
pub proof fn lemma_trimmed_output_starts_after_delay<T>(
    samples: Seq<T>,
    delay: nat,
    expected_len: nat,
    fill: T,
)
    ensures
        trimmed_output(samples, delay, expected_len, fill).len() == expected_len,
        forall|j: int|
            0 <= j < expected_len && delay + j < samples.len() ==> #[trigger] trimmed_output(
                samples,
                delay,
                expected_len,
                fill,
            )[j] == samples[delay + j],
        forall|j: int|
            0 <= j < expected_len && delay + j >= samples.len() ==> #[trigger] trimmed_output(
                samples,
                delay,
                expected_len,
                fill,
            )[j] == fill,
        delay + expected_len <= samples.len() ==> trimmed_output(samples, delay, expected_len, fill)
            == samples.subrange(delay as int, (delay + expected_len) as int),
{
    let out = trimmed_output(samples, delay, expected_len, fill);
    if delay + expected_len <= samples.len() {
        assert(out =~= samples.subrange(delay as int, (delay + expected_len) as int));
    }
}

/// Where the resampler stands in its input: the offset of the next chunk and
/// the number of input frames not yet consumed.
#[derive(Clone, Copy, Debug, PartialEq, Eq, Structural)]
pub struct ResampleCursor {
    pub input_offset: usize,
    pub frames_left: usize,
}

impl ResampleCursor {
    /// A cursor at the start of an input of `input_len` frames.
    pub fn new(input_len: usize) -> (cursor: Self)
        ensures
            cursor.input_offset == 0,
            cursor.frames_left == input_len,
    {
        ResampleCursor { input_offset: 0, frames_left: input_len }
    }

    /// True once the whole input has been fed to the resampler.
    pub fn is_done(&self) -> (done: bool)
        ensures
            done == (self.frames_left == 0),
    {
        self.frames_left == 0
    }

    /// The length of the next chunk when fewer frames are left than the
    /// resampler asks for (`frames_next`); `None` when a full chunk is left.
    pub fn partial_len(&self, frames_next: usize) -> (len: Option<usize>)
        ensures
            self.frames_left < frames_next ==> len == Some(self.frames_left),
            self.frames_left >= frames_next ==> len is None,
    {
        if self.frames_left < frames_next {
            Some(self.frames_left)
        } else {
            None
        }
    }

    /// Moves past the `frames_read` frames that the resampler consumed; a
    /// resampler that reads past the end leaves nothing to feed.
    pub fn advance(&mut self, frames_read: usize)
        requires
            old(self).input_offset + frames_read <= usize::MAX,
        ensures
            final(self).input_offset == old(self).input_offset + frames_read,
            frames_read <= old(self).frames_left ==> final(self).frames_left == old(
                self,
            ).frames_left - frames_read,
            frames_read > old(self).frames_left ==> final(self).frames_left == 0,
    {
        self.input_offset = self.input_offset + frames_read;
        self.frames_left = self.frames_left.saturating_sub(frames_read);
    }
}

/// Feeding the resampler never loses or repeats input: while each chunk
/// consumes no more than is left, offset plus frames left stays the input
/// length, and a chunk that consumes something brings the end nearer.
pub proof fn lemma_cursor_conserves_input(before: ResampleCursor, after: ResampleCursor, frames_read: nat, input_len: nat)
    requires
        before.input_offset + before.frames_left == input_len,
        frames_read <= before.frames_left,
        after.input_offset == before.input_offset + frames_read,
        after.frames_left == before.frames_left - frames_read,
    ensures
        after.input_offset + after.frames_left == input_len,
        frames_read > 0 ==> after.frames_left < before.frames_left,
{
}

} // verus!
