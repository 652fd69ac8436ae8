# quarian_voice_filter

A Quarian-style voice filter for WAV audio: pitch shift, high-pass, low-pass
and notch filtering, tanh drive, dry/wet mixing and peak normalisation.

- `src/` is the verified library. It holds everything that does not compute
  on sample values: the WAV container rules (which headers are accepted, how
  samples are read, which format is written, how channels are grouped and
  interleaved), the frame layout of the short-time Fourier transform and of
  its overlap-add inverse, the buffer shaping around them (centring, length
  fixing, spectrum mirroring, resampler trimming, vocoder padding), the
  resampler's chunk bookkeeping and the error type.
- `app/` is the command-line program and the floating-point signal
  processing, which call into the library for each of those decisions.
- `tests/` exercises the library on concrete inputs, with real WAV bytes.
