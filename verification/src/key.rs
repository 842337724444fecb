//! Verifying keys and the legacy key adapter.
//!
//! A verifying key is produced and stored only in the current encoding.
//! The legacy verification path re-encodes it deterministically: the key's
//! canonical little-endian bytes are structurally decoded under the legacy
//! key layout, whose coordinate words are drawn from a narrower field. A
//! key whose words overflow that field cannot be re-encoded, and the
//! failure is reported rather than silently ignored.

use vstd::prelude::*;

use crate::errors::EnvelopeError;

verus! {

/// Exclusive bound on the most significant byte of every coordinate word
/// of a current-format verifying key.
pub const KEY_TOP_BOUND: u8 = 240;

/// Exclusive bound on the most significant byte of every coordinate word
/// of a legacy-format verifying key: the legacy field is narrower.
pub const LEGACY_KEY_TOP_BOUND: u8 = 16;

/// Structural validity of a current-format key: whole eight-byte words,
/// at least one of them, each below the field bound.
pub open spec fn wf_key(b: Seq<u8>) -> bool {
    &&& 8 <= b.len()
    &&& b.len() % 8 == 0
    &&& forall|k: int| 0 <= k < b.len() / 8 ==> #[trigger] b[8 * k + 7] < KEY_TOP_BOUND
}

/// Whether a current key's bytes also decode under the legacy key layout.
pub open spec fn legacy_compatible(b: Seq<u8>) -> bool {
    forall|k: int| 0 <= k < b.len() / 8 ==> #[trigger] b[8 * k + 7] < LEGACY_KEY_TOP_BOUND
}

/// What legacy key derivation yields from the current key's canonical
/// bytes: the same bytes under the legacy layout, or nothing when the two
/// layouts have diverged on this key.
pub open spec fn adapt_spec(b: Seq<u8>) -> Option<Seq<u8>> {
    if legacy_compatible(b) {
        Some(b)
    } else {
        None
    }
}

/// A current-format verifying key.
#[derive(Debug, PartialEq, Eq)]
pub struct VerifyingKey {
    bytes: Vec<u8>,
}

impl VerifyingKey {
    /// The canonical little-endian bytes of the key.
    pub closed spec fn bytes_spec(&self) -> Seq<u8> {
        self.bytes@
    }

    #[verifier::type_invariant]
    pub closed spec fn inv(&self) -> bool {
        wf_key(self.bytes@)
    }

    /// Strict decode of a current-format key from its canonical bytes.
    pub fn from_bytes(bytes: Vec<u8>) -> (r: Result<VerifyingKey, EnvelopeError>)
        ensures
            match r {
                Ok(k) => k.bytes_spec() == bytes@ && wf_key(bytes@),
                Err(e) => e == EnvelopeError::IncompatibleVerifyingKey && !wf_key(bytes@),
            },
    {
        if check_key_words(bytes.as_slice(), KEY_TOP_BOUND) && bytes.len() >= 8
            && bytes.len() % 8 == 0 {
            Ok(VerifyingKey { bytes })
        } else {
            Err(EnvelopeError::IncompatibleVerifyingKey)
        }
    }

    /// The canonical little-endian serialization of the key. The ensures
    /// republishes the structural validity every constructed key has.
    pub fn as_bytes(&self) -> (r: &[u8])
        ensures
            r@ == self.bytes_spec(),
            wf_key(self.bytes_spec()),
    {
        proof {
            use_type_invariant(self);
        }
        self.bytes.as_slice()
    }
}

/// A legacy-format verifying key. It has no independent identity: it is
/// only ever derived from a current key and never persisted.
#[derive(Debug, PartialEq, Eq)]
pub struct LegacyVerifyingKey {
    bytes: Vec<u8>,
}

impl LegacyVerifyingKey {
    /// The canonical little-endian bytes of the key.
    pub closed spec fn bytes_spec(&self) -> Seq<u8> {
        self.bytes@
    }

    #[verifier::type_invariant]
    pub closed spec fn inv(&self) -> bool {
        wf_key(self.bytes@) && legacy_compatible(self.bytes@)
    }

    /// The canonical little-endian serialization of the key.
    pub fn as_bytes(&self) -> (r: &[u8])
        ensures
            r@ == self.bytes_spec(),
            wf_key(self.bytes_spec()),
            legacy_compatible(self.bytes_spec()),
    {
        proof {
            use_type_invariant(self);
        }
        self.bytes.as_slice()
    }
}

/// Decides whether every coordinate word's most significant byte of `b`
/// is below `bound`.
fn check_key_words(b: &[u8], bound: u8) -> (r: bool)
    ensures
        r == forall|k: int| 0 <= k < b@.len() / 8 ==> #[trigger] b@[8 * k + 7] < bound,
{
    let n = b.len();
    let words = n / 8;
    let mut k: usize = 0;
    while k < words
        invariant
            n == b@.len(),
            words == b@.len() / 8,
            k <= words,
            forall|j: int| 0 <= j < k ==> #[trigger] b@[8 * j + 7] < bound,
        decreases words - k,
    {
        proof {
            vstd::arithmetic::div_mod::lemma_fundamental_div_mod(b@.len() as int, 8);
        }
        assert(8 * (k as int) + 7 < b@.len());
        if *vstd::slice::slice_index_get(b, 8 * k + 7) >= bound {
            assert(b@[8 * (k as int) + 7] >= bound);
            return false;
        }
        k += 1;
    }
    true
}

/// Legacy key derivation: serialize the current key to its canonical
/// little-endian bytes and structurally decode them as a legacy-format
/// key. The transformation is pure and stateless; when the legacy layout
/// cannot hold the key, the divergence is reported as
/// `IncompatibleVerifyingKey`.
pub fn derive_legacy_key(key: &VerifyingKey) -> (r: Result<LegacyVerifyingKey, EnvelopeError>)
    ensures
        match r {
            Ok(lk) => adapt_spec(key.bytes_spec()) == Some(lk.bytes_spec())
                && lk.bytes_spec() == key.bytes_spec(),
            Err(e) => e == EnvelopeError::IncompatibleVerifyingKey
                && adapt_spec(key.bytes_spec()) is None,
        },
{
    proof {
        use_type_invariant(key);
    }
    let encoded = key.as_bytes();
    if check_key_words(encoded, LEGACY_KEY_TOP_BOUND) {
        let bytes = vstd::slice::slice_to_vec(encoded);
        Ok(LegacyVerifyingKey { bytes })
    } else {
        Err(EnvelopeError::IncompatibleVerifyingKey)
    }
}

/// Legacy key derivation is deterministic: its outcome is a pure function
/// of the current key's canonical bytes, so repeated derivations from
/// identical input yield identical output.
pub proof fn lemma_adapter_deterministic(k1: Seq<u8>, k2: Seq<u8>)
    requires
        k1 == k2,
    ensures
        adapt_spec(k1) == adapt_spec(k2),
{
}

} // verus!
