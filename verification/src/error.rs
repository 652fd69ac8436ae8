//! The library's error type.
use vstd::prelude::*;
use vstd::string::*;

verus! {

/// Why a request was refused.
#[derive(Debug)]
pub enum FilterError {
    /// The input breaks one of the library's own rules; the text says which.
    InvalidInput(&'static str),
    /// The WAV decoder refused the input bytes.
    WavDecode(hound::Error),
    /// The WAV encoder refused to write the output.
    WavEncode(hound::Error),
}

/// True when `e` is an `InvalidInput` error that carries the text `msg`.
pub open spec fn is_invalid_input(e: FilterError, msg: Seq<char>) -> bool {
    e matches FilterError::InvalidInput(m) && m@ == msg
}

/// The text that the codec error's `Display` implementation writes.
///
/// Nothing is stated of the text: it is whatever the decoder's message for
/// that error is.
#[verifier::external_body]
fn wav_error_text(err: &hound::Error) -> String {
    err.to_string()
}

impl FilterError {
    /// The error's human-readable message: the rule's own text for
    /// `InvalidInput`, and a fixed prefix followed by the decoder's or
    /// encoder's message for the other two.
    pub fn message(&self) -> (text: String)
        ensures
            self matches FilterError::InvalidInput(m) ==> text@ == m@,
            self is WavDecode ==> "failed to decode wav: "@.is_prefix_of(text@),
            self is WavEncode ==> "failed to encode wav: "@.is_prefix_of(text@),
    {
        match self {
            FilterError::InvalidInput(m) => String::from_str(m),
            FilterError::WavDecode(err) => {
                let prefix = "failed to decode wav: ";
                let detail = wav_error_text(err);
                let text = String::from_str(prefix).concat(detail.as_str());
                assert(text@.subrange(0, prefix@.len() as int) =~= prefix@);
                text
            },
            FilterError::WavEncode(err) => {
                let prefix = "failed to encode wav: ";
                let detail = wav_error_text(err);
                let text = String::from_str(prefix).concat(detail.as_str());
                assert(text@.subrange(0, prefix@.len() as int) =~= prefix@);
                text
            },
        }
    }
}

} // verus!
