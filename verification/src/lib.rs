//! A versioned proof envelope for proof-of-succinct-work headers.
//!
//! The envelope holds exactly one of two structurally different proof
//! encodings: the current (non-hiding) format, whose binary length is a
//! network-specific constant, and the deprecated (hiding) legacy format,
//! whose binary length is fixed at 771 bytes. The binary wire form stores
//! no discriminant: a decoder recovers the variant by trial decoding, with
//! the current format tried first. A human-readable form tags the payload
//! with a `"current"` or `"legacy"` field instead.

pub mod codec;
pub mod dispatch;
pub mod envelope;
pub mod errors;
pub mod hex;
pub mod key;
pub mod text;
