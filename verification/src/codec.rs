//! Strict fixed-length binary layout for proof payloads.
//!
//! A payload is a little-endian byte buffer made of 64-bit coordinate
//! words followed by a three-byte trailer whose final byte carries the
//! flag bits. Structural validity is what the envelope's format sniffing
//! relies on: a buffer that fails these checks decodes as neither variant.

use vstd::prelude::*;

verus! {

/// Canonical binary length of a legacy (hiding) proof payload.
pub const LEGACY_PROOF_SIZE: usize = 771;

/// Smallest structurally possible payload: one coordinate word plus the trailer.
pub const MIN_PROOF_SIZE: usize = 11;

/// Exclusive bound on the most significant byte of every coordinate word,
/// mirroring the field modulus of the coordinate encoding.
pub const COORD_TOP_BOUND: u8 = 240;

/// Exclusive bound on the trailer's flag byte: only two flag bits exist.
pub const FLAG_BOUND: u8 = 4;

/// The number of coordinate bytes in a payload of length `n`: everything
/// before the three-byte trailer.
pub open spec fn coord_len(n: int) -> int {
    n - 3
}

/// A structurally possible payload length: coordinate words of eight bytes
/// each, a three-byte trailer, and no more than the legacy size.
pub open spec fn valid_len(n: int) -> bool {
    MIN_PROOF_SIZE <= n <= LEGACY_PROOF_SIZE && n % 8 == 3
}

/// Every coordinate word's most significant byte is below the modulus bound.
pub open spec fn words_bounded(b: Seq<u8>) -> bool {
    forall|k: int| 0 <= k < coord_len(b.len() as int) / 8 ==> #[trigger] b[8 * k + 7] < COORD_TOP_BOUND
}

/// Some coordinate byte is nonzero: the identity element is not a valid
/// proof coordinate.
pub open spec fn has_nonzero_coord(b: Seq<u8>) -> bool {
    exists|i: int| 0 <= i < coord_len(b.len() as int) && b[i] != 0
}

/// The flag byte of a payload: its final byte.
pub open spec fn flag_byte(b: Seq<u8>) -> u8 {
    b[b.len() - 1]
}

/// Structural validity of a payload. The low flag bit records whether the
/// payload uses the hiding encoding, so the two variants are disjoint on
/// buffers of equal length.
pub open spec fn wf_payload(b: Seq<u8>, hiding: bool) -> bool {
    &&& valid_len(b.len() as int)
    &&& words_bounded(b)
    &&& has_nonzero_coord(b)
    &&& flag_byte(b) < FLAG_BOUND
    &&& (flag_byte(b) % 2 == 1) <==> hiding
}

/// Decides structural validity of the first `len` bytes of `b` as a payload
/// of the requested variant.
pub fn check_payload(b: &[u8], len: usize, hiding: bool) -> (r: bool)
    requires
        len <= b@.len(),
    ensures
        r == wf_payload(b@.take(len as int), hiding),
{
    let ghost p = b@.take(len as int);
    if len < MIN_PROOF_SIZE || len > LEGACY_PROOF_SIZE || len % 8 != 3 {
        return false;
    }
    let words: usize = (len - 3) / 8;
    let mut k: usize = 0;
    while k < words
        invariant
            words == coord_len(len as int) / 8,
            MIN_PROOF_SIZE <= len <= b@.len(),
            len % 8 == 3,
            k <= words,
            p == b@.take(len as int),
            forall|j: int| 0 <= j < k ==> #[trigger] p[8 * j + 7] < COORD_TOP_BOUND,
        decreases words - k,
    {
        if *vstd::slice::slice_index_get(b, 8 * k + 7) >= COORD_TOP_BOUND {
            assert(p[8 * (k as int) + 7] >= COORD_TOP_BOUND);
            return false;
        }
        k += 1;
    }
    assert(words_bounded(p));
    let coords: usize = len - 3;
    let mut i: usize = 0;
    let mut found: bool = false;
    while i < coords
        invariant
            coords == coord_len(len as int),
            MIN_PROOF_SIZE <= len <= b@.len(),
            i <= coords,
            p == b@.take(len as int),
            found ==> has_nonzero_coord(p),
            !found ==> forall|j: int| 0 <= j < i ==> p[j] == 0,
        decreases coords - i,
    {
        if *vstd::slice::slice_index_get(b, i) != 0 {
            assert(p[i as int] != 0);
            found = true;
        }
        i += 1;
    }
    if !found {
        assert(!has_nonzero_coord(p));
        return false;
    }
    let flags: u8 = *vstd::slice::slice_index_get(b, len - 1);
    assert(flags == flag_byte(p));
    if flags >= FLAG_BOUND {
        return false;
    }
    (flags % 2 == 1) == hiding
}

} // verus!
