//! Verification dispatch: selecting the verification path that matches
//! the envelope's variant.
//!
//! The SNARK verifier itself is an external collaborator, supplied by the
//! network parameter source as an implementation of [`SnarkVerifier`].
//! Verification never raises: a verifier fault and a failed key
//! re-encoding both surface as a `false` verdict.

use vstd::prelude::*;

use crate::envelope::PoSWProof;
use crate::errors::EnvelopeError;
use crate::key::{adapt_spec, derive_legacy_key, VerifyingKey};

verus! {

/// The external SNARK verifier interface: the caller's network supplies
/// the implementation. A returned error is a verifier-internal fault,
/// distinct from a definite negative verdict.
pub trait SnarkVerifier {
    /// The verdict this verifier stands for on the given key bytes,
    /// public inputs, and proof bytes.
    spec fn accepts(&self, vk: Seq<u8>, inputs: Seq<u64>, proof: Seq<u8>) -> bool;

    /// Runs the verifier. When it completes without a fault, the returned
    /// verdict is exactly the verdict the verifier stands for.
    fn verify(&self, vk: &[u8], inputs: &[u64], proof: &[u8]) -> (r: Result<bool, EnvelopeError>)
        ensures
            r matches Ok(b) ==> b == self.accepts(vk@, inputs@, proof@),
    ;
}

/// Maps what the external verifier returned to the caller's boolean:
/// `true` only when the verifier accepted; a rejection and an internal
/// fault both count as failed verification, and a fault never crashes.
pub fn settle_verdict(outcome: Result<bool, EnvelopeError>) -> (r: bool)
    ensures
        r == (outcome matches Ok(true)),
{
    match outcome {
        Ok(verdict) => verdict,
        Err(_) => false,
    }
}

impl PoSWProof {
    /// Returns `true` if the PoSW proof is valid.
    ///
    /// The current case hands the supplied key, inputs, and payload to the
    /// verifier directly. The legacy case first derives the legacy-format
    /// key; when that derivation fails, verification reports failure
    /// rather than crashing. A `true` verdict is only ever returned when
    /// the verifier accepts the matching key and payload.
    pub fn verify<V: SnarkVerifier>(
        &self,
        verifying_key: &VerifyingKey,
        inputs: &Vec<u64>,
        verifier: &V,
    ) -> (r: bool)
        ensures
            r && !self.hiding_spec() ==> verifier.accepts(
                verifying_key.bytes_spec(),
                inputs@,
                self.payload_spec(),
            ),
            r && self.hiding_spec() ==> adapt_spec(verifying_key.bytes_spec())
                == Some(verifying_key.bytes_spec()) && verifier.accepts(
                verifying_key.bytes_spec(),
                inputs@,
                self.payload_spec(),
            ),
            self.hiding_spec() && adapt_spec(verifying_key.bytes_spec()) is None ==> !r,
    {
        match self {
            PoSWProof::NonHiding(proof) => settle_verdict(
                verifier.verify(verifying_key.as_bytes(), inputs.as_slice(), proof.as_bytes()),
            ),
            PoSWProof::Hiding(proof) => {
                match derive_legacy_key(verifying_key) {
                    Ok(legacy_key) => settle_verdict(
                        verifier.verify(
                            legacy_key.as_bytes(),
                            inputs.as_slice(),
                            proof.as_bytes(),
                        ),
                    ),
                    Err(_) => false,
                }
            },
        }
    }
}

/// The checksum modulus of the reference verifier below.
pub const CHECK_MODULUS: u64 = 65521;

/// The running checksum of a byte sequence, folded modulo
/// [`CHECK_MODULUS`].
pub open spec fn byte_sum_mod(s: Seq<u8>) -> int
    decreases s.len(),
{
    if s.len() == 0 {
        0
    } else {
        (byte_sum_mod(s.drop_last()) + s.last()) % (CHECK_MODULUS as int)
    }
}

/// The running checksum of the public inputs, folded modulo
/// [`CHECK_MODULUS`].
pub open spec fn input_sum_mod(s: Seq<u64>) -> int
    decreases s.len(),
{
    if s.len() == 0 {
        0
    } else {
        (input_sum_mod(s.drop_last()) + (s.last() as int) % (CHECK_MODULUS as int))
            % (CHECK_MODULUS as int)
    }
}

/// A deterministic reference verifier: it accepts exactly when the
/// checksums of proof and public inputs line up with the checksum of the
/// verifying key. It stands in for the network's SNARK verifier in tests
/// and never faults.
pub struct ChecksumVerifier;

impl ChecksumVerifier {
    /// The relation the reference verifier decides.
    pub open spec fn accepts_spec(vk: Seq<u8>, inputs: Seq<u64>, proof: Seq<u8>) -> bool {
        (byte_sum_mod(proof) + input_sum_mod(inputs)) % (CHECK_MODULUS as int)
            == byte_sum_mod(vk)
    }
}

/// Folds the checksum of a byte buffer.
fn byte_fold(b: &[u8]) -> (r: u64)
    ensures
        r == byte_sum_mod(b@),
{
    let n = b.len();
    let mut acc: u64 = 0;
    let mut i: usize = 0;
    while i < n
        invariant
            n == b@.len(),
            i <= n,
            acc < CHECK_MODULUS,
            acc == byte_sum_mod(b@.take(i as int)),
        decreases n - i,
    {
        let x = *vstd::slice::slice_index_get(b, i);
        acc = (acc + x as u64) % CHECK_MODULUS;
        proof {
            assert(b@.take(i + 1).drop_last() =~= b@.take(i as int));
            assert(b@.take(i + 1).last() == b@[i as int]);
        }
        i += 1;
    }
    assert(b@.take(n as int) =~= b@);
    acc
}

/// Folds the checksum of the public inputs.
fn input_fold(inputs: &[u64]) -> (r: u64)
    ensures
        r == input_sum_mod(inputs@),
{
    let n = inputs.len();
    let mut acc: u64 = 0;
    let mut i: usize = 0;
    while i < n
        invariant
            n == inputs@.len(),
            i <= n,
            acc < CHECK_MODULUS,
            acc == input_sum_mod(inputs@.take(i as int)),
        decreases n - i,
    {
        let x = *vstd::slice::slice_index_get(inputs, i);
        acc = (acc + x % CHECK_MODULUS) % CHECK_MODULUS;
        proof {
            assert(inputs@.take(i + 1).drop_last() =~= inputs@.take(i as int));
            assert(inputs@.take(i + 1).last() == inputs@[i as int]);
        }
        i += 1;
    }
    assert(inputs@.take(n as int) =~= inputs@);
    acc
}

impl SnarkVerifier for ChecksumVerifier {
    open spec fn accepts(&self, vk: Seq<u8>, inputs: Seq<u64>, proof: Seq<u8>) -> bool {
        ChecksumVerifier::accepts_spec(vk, inputs, proof)
    }

    fn verify(&self, vk: &[u8], inputs: &[u64], proof: &[u8]) -> (r: Result<bool, EnvelopeError>) {
        let p = byte_fold(proof);
        let q = input_fold(inputs);
        let k = byte_fold(vk);
        Ok((p + q) % CHECK_MODULUS == k)
    }
}

} // verus!
