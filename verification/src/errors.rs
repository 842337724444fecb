//! The error kinds that the envelope's codecs and verification report.

use vstd::prelude::*;

verus! {

/// Everything that can go wrong while decoding an envelope, adapting a
/// verifying key, or running the external verifier.
#[derive(Clone, Copy, Debug, PartialEq, Eq, Structural)]
pub enum EnvelopeError {
    /// Binary bytes decode as neither the current nor the legacy variant.
    MalformedProof,
    /// The human-readable form has neither recognized field, or the nested
    /// value of a recognized field fails to decode.
    InvalidEnvelopeEncoding,
    /// Re-encoding the current verifying key as a legacy key failed: the
    /// two key layouts have diverged.
    IncompatibleVerifyingKey,
    /// The external verifier itself faulted, as opposed to returning a
    /// definite negative verdict.
    VerifierFault,
}

impl EnvelopeError {
    /// A short description of the error, for diagnostics at the caller.
    pub fn describe(&self) -> (r: &'static str)
        ensures
            r@.len() > 0,
    {
        proof {
            reveal_strlit("binary bytes decode as neither proof variant");
            reveal_strlit("human-readable form holds no decodable proof field");
            reveal_strlit("verifying key cannot be re-encoded for the legacy format");
            reveal_strlit("the external verifier faulted");
        }
        match self {
            EnvelopeError::MalformedProof => "binary bytes decode as neither proof variant",
            EnvelopeError::InvalidEnvelopeEncoding => "human-readable form holds no decodable proof field",
            EnvelopeError::IncompatibleVerifyingKey => "verifying key cannot be re-encoded for the legacy format",
            EnvelopeError::VerifierFault => "the external verifier faulted",
        }
    }
}

} // verus!
