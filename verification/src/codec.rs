//! The outside WAV codec's error type, as the library sees it.
use vstd::prelude::*;

verus! {

/// The error that the WAV decoder and encoder report; opaque to proofs.
#[verifier::external_type_specification]
#[verifier::external_body]
pub struct ExWavCodecError(hound::Error);

} // verus!
