//! Frame layout of the short-time Fourier transform and the buffer shaping
//! around it: centring, length fixing and spectrum mirroring.
use vstd::prelude::*;

verus! {

/// The default transform size.
pub const DEFAULT_N_FFT: usize = 2048;

/// The default hop between frames: a quarter of the transform size.
pub const DEFAULT_HOP_LENGTH: usize = DEFAULT_N_FFT / 4;

/// `s` cut or extended to exactly `length` items, extended with `fill`.
pub open spec fn fixed_length<T>(s: Seq<T>, length: nat, fill: T) -> Seq<T> {
    Seq::new(length, |i: int| if i < s.len() { s[i] } else { fill })
}

/// Cuts `samples` to `length` items, or extends it with `fill` up to `length`.
pub fn fix_length<T: Copy>(samples: &[T], length: usize, fill: T) -> (out: Vec<T>)
    ensures
        out@ == fixed_length(samples@, length as nat, fill),
        out@.len() == length,
        forall|j: int| 0 <= j < length && j < samples@.len() ==> #[trigger] out@[j] == samples@[j],
        forall|j: int| 0 <= j < length && j >= samples@.len() ==> #[trigger] out@[j] == fill,
{
    let mut out: Vec<T> = Vec::with_capacity(length);
    let mut i: usize = 0;
    while i < length
        invariant
            i <= length,
            out@.len() == i,
            forall|j: int|
                0 <= j < i ==> #[trigger] out@[j] == (if j < samples@.len() {
                    samples@[j]
                } else {
                    fill
                }),
        decreases length - i,
    {
        if i < samples.len() {
            out.push(samples[i]);
        } else {
            out.push(fill);
        }
        i = i + 1;
    }
    assert(out@ =~= fixed_length(samples@, length as nat, fill));
    out
}

/// Fixing a signal to its own length leaves it unchanged.
pub proof fn lemma_fix_length_own_length<T>(s: Seq<T>, fill: T)
    ensures
        fixed_length(s, s.len(), fill) == s,
{
    assert(fixed_length(s, s.len(), fill) =~= s);
}

/// Fixing to a length and then to a shorter one is fixing to the shorter one.
pub proof fn lemma_fix_length_shorten<T>(s: Seq<T>, long: nat, short: nat, fill: T)
    requires
        short <= long,
    ensures
        fixed_length(fixed_length(s, long, fill), short, fill) == fixed_length(s, short, fill),
{
    assert(fixed_length(fixed_length(s, long, fill), short, fill) =~= fixed_length(
        s,
        short,
        fill,
    ));
}

/// `s` with `pad` copies of `fill` before and after it.
pub open spec fn centered<T>(s: Seq<T>, pad: nat, fill: T) -> Seq<T> {
    Seq::new(pad, |i: int| fill) + s + Seq::new(pad, |i: int| fill)
}

/// Surrounds `samples` with `pad` copies of `fill` on each side.
pub fn center_pad<T: Copy>(samples: &[T], pad: usize, fill: T) -> (out: Vec<T>)
    requires
        samples@.len() + 2 * pad <= usize::MAX,
    ensures
        out@ == centered(samples@, pad as nat, fill),
        out@.len() == samples@.len() + 2 * pad,
        forall|j: int| 0 <= j < samples@.len() ==> #[trigger] out@[pad + j] == samples@[j],
        forall|j: int| 0 <= j < pad ==> #[trigger] out@[j] == fill,
        forall|j: int|
            pad + samples@.len() <= j < samples@.len() + 2 * pad ==> #[trigger] out@[j] == fill,
{
    let total = samples.len() + 2 * pad;
    let mut out: Vec<T> = Vec::with_capacity(total);
    let mut i: usize = 0;
    while i < total
        invariant
            total == samples@.len() + 2 * pad,
            i <= total,
            out@.len() == i,
            forall|j: int| 0 <= j < i ==> #[trigger] out@[j] == centered(samples@, pad as nat, fill)[j],
        decreases total - i,
    {
        if pad <= i && i - pad < samples.len() {
            out.push(samples[i - pad]);
        } else {
            out.push(fill);
        }
        i = i + 1;
    }
    assert(out@ =~= centered(samples@, pad as nat, fill));
    out
}

/// The samples of a centred signal, taken back out of the padding, are the
/// signal itself.
pub proof fn lemma_centered_middle<T>(s: Seq<T>, pad: nat, fill: T)
    ensures
        centered(s, pad, fill).len() == s.len() + 2 * pad,
        centered(s, pad, fill).subrange(pad as int, (pad + s.len()) as int) == s,
{
    assert(centered(s, pad, fill).subrange(pad as int, (pad + s.len()) as int) =~= s);
}

/// The sizes of a short-time Fourier transform: frames of `n_fft` samples
/// whose starts lie `hop_length` samples apart.
#[derive(Clone, Copy, Debug, PartialEq, Eq, Structural)]
pub struct StftLayout {
    pub n_fft: usize,
    pub hop_length: usize,
}

impl StftLayout {
    /// Frames are not empty and their starts advance.
    pub open spec fn wf(self) -> bool {
        self.n_fft > 0 && self.hop_length > 0
    }

    /// The padding on each side of a signal before it is cut into frames.
    pub open spec fn spec_pad(self) -> nat {
        (self.n_fft / 2) as nat
    }

    /// The number of spectrum bins that a frame keeps: those up to the
    /// Nyquist frequency.
    pub open spec fn spec_bin_count(self) -> nat {
        (self.n_fft / 2 + 1) as nat
    }

    /// The length of a signal of `sample_len` samples once centred.
    pub open spec fn spec_padded_len(self, sample_len: nat) -> nat {
        sample_len + 2 * self.spec_pad()
    }

    /// How many frames the transform of `sample_len` samples has: as many as
    /// fit, one hop apart, in the centred signal.
    pub open spec fn spec_frame_count(self, sample_len: nat) -> nat {
        let padded = self.spec_padded_len(sample_len);
        if padded < self.n_fft {
            0
        } else {
            (1 + (padded - self.n_fft) / (self.hop_length as int)) as nat
        }
    }

    /// The length of the overlap-add buffer that `frames` frames fill.
    pub open spec fn spec_overlap_len(self, frames: nat) -> nat {
        (self.n_fft + self.hop_length * (if frames == 0 { 0 } else { (frames - 1) as nat })) as nat
    }

    /// Where the reconstructed signal starts in an overlap-add buffer of
    /// `output_len` samples: half a frame in, less half a hop.
    pub open spec fn spec_trim_start(self, output_len: nat) -> nat {
        let half_frame = (self.n_fft / 2) as nat;
        let half_hop = (self.hop_length / 2) as nat;
        let start: nat = if half_frame >= half_hop { (half_frame - half_hop) as nat } else { 0 };
        if start <= output_len { start } else { output_len }
    }

    /// The padding on each side of a signal before it is cut into frames.
    pub fn pad(&self) -> (pad: usize)
        ensures
            pad == self.spec_pad(),
            pad == self.n_fft / 2,
    {
        self.n_fft / 2
    }

    /// The number of spectrum bins that a frame keeps.
    pub fn bin_count(&self) -> (bins: usize)
        ensures
            bins == self.spec_bin_count(),
            bins == self.n_fft / 2 + 1,
            2 * (bins - 1) <= self.n_fft < 2 * bins,
    {
        self.n_fft / 2 + 1
    }

    /// The number of frames in the transform of `sample_len` samples.
    pub fn frame_count(&self, sample_len: usize) -> (count: usize)
        requires
            self.wf(),
            self.spec_padded_len(sample_len as nat) <= usize::MAX,
        ensures
            count == self.spec_frame_count(sample_len as nat),
    {
        let padded = sample_len + 2 * (self.n_fft / 2);
        if padded < self.n_fft {
            0
        } else {
            1 + (padded - self.n_fft) / self.hop_length
        }
    }

    /// The samples of the centred signal that frame `index` covers: it starts
    /// `index` hops in and ends a frame later, inside the centred signal.
    pub fn frame_range(&self, sample_len: usize, index: usize) -> (range: (usize, usize))
        requires
            self.wf(),
            self.spec_padded_len(sample_len as nat) <= usize::MAX,
            index < self.spec_frame_count(sample_len as nat),
        ensures
            range.0 == index * self.hop_length,
            range.1 == range.0 + self.n_fft,
            range.1 <= self.spec_padded_len(sample_len as nat),
    {
        proof {
            self.lemma_frame_count_exact(sample_len as nat, index as nat);
        }
        let start = index * self.hop_length;
        (start, start + self.n_fft)
    }

    /// A frame fits in the centred signal exactly when its index is below the
    /// frame count: every frame is whole, and no further frame would be.
    pub proof fn lemma_frame_count_exact(self, sample_len: nat, index: nat)
        requires
            self.wf(),
        ensures
            (index < self.spec_frame_count(sample_len)) <==> (index * self.hop_length + self.n_fft
                <= self.spec_padded_len(sample_len)),
    {
        let padded = self.spec_padded_len(sample_len) as int;
        let n = self.n_fft as int;
        let h = self.hop_length as int;
        let i = index as int;
        if padded >= n {
            let q = (padded - n) / h;
            assert(q * h <= padded - n < q * h + h) by (nonlinear_arith)
                requires
                    q == (padded - n) / h,
                    h > 0,
                    padded - n >= 0,
            ;
            if i <= q {
                assert(i * h <= q * h) by (nonlinear_arith)
                    requires
                        i <= q,
                        h > 0,
                ;
            } else {
                assert(i * h >= q * h + h) by (nonlinear_arith)
                    requires
                        i >= q + 1,
                        h > 0,
                ;
            }
        } else {
            assert(i * h >= 0) by (nonlinear_arith)
                requires
                    i >= 0,
                    h > 0,
            ;
        }
    }

    /// The length of the overlap-add buffer that `frames` frames fill.
    pub fn overlap_len(&self, frames: usize) -> (len: usize)
        requires
            self.spec_overlap_len(frames as nat) <= usize::MAX,
        ensures
            len == self.spec_overlap_len(frames as nat),
            frames == 0 ==> len == self.n_fft,
            frames > 0 ==> len == self.n_fft + self.hop_length * (frames - 1),
    {
        let steps = if frames == 0 {
            0
        } else {
            frames - 1
        };
        proof {
            assert(self.hop_length * steps <= self.spec_overlap_len(frames as nat));
        }
        self.n_fft + self.hop_length * steps
    }

    /// Every sample of every frame lands inside the overlap-add buffer.
    pub proof fn lemma_frames_inside_overlap(self, frames: nat, index: nat, offset: nat)
        requires
            index < frames,
            offset < self.n_fft,
        ensures
            index * self.hop_length + offset < self.spec_overlap_len(frames),
    {
        let h = self.hop_length as int;
        let steps = (frames - 1) as nat;
        assert(self.spec_overlap_len(frames) == self.n_fft + h * steps);
        assert(index * h <= steps * h) by (nonlinear_arith)
            requires
                index <= steps,
                h >= 0,
        ;
        assert(steps * h == h * steps) by (nonlinear_arith);
    }

    /// Where the reconstructed signal starts in an overlap-add buffer of
    /// `output_len` samples.
    pub fn trim_start(&self, output_len: usize) -> (start: usize)
        ensures
            start == self.spec_trim_start(output_len as nat),
            start <= output_len,
            self.n_fft / 2 >= self.hop_length / 2 && self.n_fft / 2 - self.hop_length / 2
                <= output_len ==> start == self.n_fft / 2 - self.hop_length / 2,
            self.n_fft / 2 >= self.hop_length / 2 && self.n_fft / 2 - self.hop_length / 2
                > output_len ==> start == output_len,
            self.n_fft / 2 < self.hop_length / 2 ==> start == 0,
    {
        let start = (self.n_fft / 2).saturating_sub(self.hop_length / 2);
        if start <= output_len {
            start
        } else {
            output_len
        }
    }
}

/// The bins kept per frame run from 0 up to the Nyquist bin of the layout's own
/// transform size: there are `n_fft / 2 + 1` of them, so that twice the last
/// bin index is at most `n_fft` and twice the bin count exceeds it.
pub proof fn lemma_bin_count_reaches_nyquist(layout: StftLayout)
    ensures
        layout.spec_bin_count() == layout.n_fft / 2 + 1,
        2 * (layout.spec_bin_count() - 1) <= layout.n_fft,
        layout.n_fft < 2 * layout.spec_bin_count(),
{
}

/// The reconstructed signal starts half a frame into the overlap-add buffer,
/// less half of the layout's own hop, never before the buffer's start and
/// never past its end.
pub proof fn lemma_trim_start_is_half_frame_less_half_hop(layout: StftLayout, output_len: nat)
    ensures
        layout.spec_trim_start(output_len) <= output_len,
        layout.n_fft / 2 >= layout.hop_length / 2 && layout.n_fft / 2 - layout.hop_length / 2
            <= output_len ==> layout.spec_trim_start(output_len) == layout.n_fft / 2
            - layout.hop_length / 2,
        layout.n_fft / 2 >= layout.hop_length / 2 && layout.n_fft / 2 - layout.hop_length / 2
            > output_len ==> layout.spec_trim_start(output_len) == output_len,
        layout.n_fft / 2 < layout.hop_length / 2 ==> layout.spec_trim_start(output_len) == 0,
{
}

/// Two layouts with the same frame size and different halves of their hops
/// start the reconstructed signal at different places, when both starts lie
/// inside the buffer: the start follows each layout's own hop.
pub proof fn lemma_trim_start_follows_hop(a: StftLayout, b: StftLayout, output_len: nat)
    requires
        a.n_fft == b.n_fft,
        a.hop_length / 2 != b.hop_length / 2,
        a.hop_length / 2 <= a.n_fft / 2,
        b.hop_length / 2 <= b.n_fft / 2,
        a.n_fft / 2 <= output_len,
    ensures
        a.spec_trim_start(output_len) != b.spec_trim_start(output_len),
        a.spec_trim_start(output_len) + a.hop_length / 2 == a.n_fft / 2,
        b.spec_trim_start(output_len) + b.hop_length / 2 == b.n_fft / 2,
{
}

/// Rebuilds the full spectrum of a real signal of `n_fft` samples from the
/// bins up to the Nyquist frequency: those bins are kept, bin `n_fft - k` is
/// the conjugate (`conj`) of bin `k` for `1 <= k < n_fft / 2`, and a position
/// that neither rule fills (the one just above the middle when `n_fft` is odd)
/// holds `zero`.
pub fn rebuild_full_spectrum<T: Copy, F: Fn(T) -> T>(
    half_spectrum: &[T],
    n_fft: usize,
    zero: T,
    conj: F,
) -> (full: Vec<T>)
    requires
        n_fft > 0,
        half_spectrum@.len() >= n_fft / 2 + 1,
        forall|x: T| call_requires(conj, (x,)),
    ensures
        full@.len() == n_fft,
        forall|j: int| 0 <= j <= n_fft / 2 ==> full@[j] == half_spectrum@[j],
        forall|k: int|
            1 <= k < n_fft / 2 ==> call_ensures(conj, (half_spectrum@[k],), #[trigger] full@[n_fft - k]),
        forall|j: int| n_fft / 2 < j <= n_fft - n_fft / 2 && j < n_fft ==> full@[j] == zero,
        forall|k: int|
            1 <= k < n_fft / 2 ==> call_ensures(conj, (full@[k],), #[trigger] full@[n_fft - k]),
{
    let half = n_fft / 2;
    let mut full: Vec<T> = Vec::with_capacity(n_fft);
    let mut j: usize = 0;
    while j < n_fft
        invariant
            n_fft > 0,
            half == n_fft / 2,
            half_spectrum@.len() >= half + 1,
            forall|x: T| call_requires(conj, (x,)),
            j <= n_fft,
            full@.len() == j,
            forall|i: int| 0 <= i < j && i <= half ==> full@[i] == half_spectrum@[i],
            forall|i: int|
                0 <= i < j && n_fft - half < i ==> call_ensures(
                    conj,
                    (half_spectrum@[n_fft - i],),
                    #[trigger] full@[i],
                ),
            forall|i: int| 0 <= i < j && half < i <= n_fft - half ==> full@[i] == zero,
        decreases n_fft - j,
    {
        if j <= half {
            full.push(half_spectrum[j]);
        } else if j > n_fft - half {
            let mirrored = conj(half_spectrum[n_fft - j]);
            full.push(mirrored);
        } else {
            full.push(zero);
        }
        j = j + 1;
    }
    assert forall|k: int| 1 <= k < n_fft / 2 implies call_ensures(
        conj,
        (half_spectrum@[k],),
        #[trigger] full@[n_fft - k],
    ) by {
        assert(n_fft - (n_fft - k) == k);
    }
    full
}

impl Default for StftLayout {
    /// Frames of `DEFAULT_N_FFT` samples, `DEFAULT_HOP_LENGTH` apart.
    fn default() -> (layout: Self)
        ensures
            layout.n_fft == DEFAULT_N_FFT,
            layout.hop_length == DEFAULT_HOP_LENGTH,
            layout.wf(),
    {
        StftLayout { n_fft: DEFAULT_N_FFT, hop_length: DEFAULT_HOP_LENGTH }
    }
}

} // verus!
