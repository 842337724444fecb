//! The proof envelope: a tagged union of the two proof encodings, its
//! binary codec, and the format-sniffing decode logic.

use vstd::prelude::*;

use crate::codec::{
    check_payload, valid_len, wf_payload, LEGACY_PROOF_SIZE,
};
use crate::errors::EnvelopeError;

verus! {

/// The network-supplied parameters the envelope depends on: the canonical
/// binary length of a current (non-hiding) proof.
#[derive(Clone, Copy, Debug, PartialEq, Eq, Structural)]
pub struct NetworkParams {
    pub header_proof_size: usize,
}

impl NetworkParams {
    /// The declared current-proof length must itself be a structurally
    /// possible payload length, and no longer than the legacy payload.
    pub open spec fn wf(&self) -> bool {
        valid_len(self.header_proof_size as int)
    }

    /// Builds the parameter set, rejecting a structurally impossible
    /// current-proof length.
    pub fn new(header_proof_size: usize) -> (r: Option<NetworkParams>)
        ensures
            match r {
                Some(p) => p.wf() && p.header_proof_size == header_proof_size,
                None => !valid_len(header_proof_size as int),
            },
    {
        if header_proof_size >= 11 && header_proof_size <= LEGACY_PROOF_SIZE
            && header_proof_size % 8 == 3 {
            Some(NetworkParams { header_proof_size })
        } else {
            None
        }
    }
}

/// A current-format (non-hiding) proof payload: structurally valid bytes
/// with an even flag byte.
#[derive(Debug, PartialEq, Eq)]
pub struct CurrentProof {
    bytes: Vec<u8>,
}

impl CurrentProof {
    /// The canonical little-endian bytes of the payload.
    pub closed spec fn bytes_spec(&self) -> Seq<u8> {
        self.bytes@
    }

    #[verifier::type_invariant]
    pub closed spec fn inv(&self) -> bool {
        wf_payload(self.bytes@, false)
    }

    /// Strict decode: accepts the buffer only if it is a structurally
    /// valid non-hiding payload in its full length.
    pub fn from_bytes(bytes: Vec<u8>) -> (r: Result<CurrentProof, EnvelopeError>)
        ensures
            match r {
                Ok(p) => p.bytes_spec() == bytes@ && wf_payload(bytes@, false),
                Err(e) => e == EnvelopeError::MalformedProof && !wf_payload(bytes@, false),
            },
    {
        let n = bytes.len();
        if check_payload(bytes.as_slice(), n, false) {
            assert(bytes@.take(n as int) =~= bytes@);
            Ok(CurrentProof { bytes })
        } else {
            assert(bytes@.take(n as int) =~= bytes@);
            Err(EnvelopeError::MalformedProof)
        }
    }

    /// The payload bytes, exactly as they appear on the wire. Every
    /// constructed current proof is structurally valid, and the ensures
    /// republishes that fact.
    pub fn as_bytes(&self) -> (r: &[u8])
        ensures
            r@ == self.bytes_spec(),
            wf_payload(self.bytes_spec(), false),
    {
        proof {
            use_type_invariant(self);
        }
        self.bytes.as_slice()
    }
}

/// A legacy (hiding) proof payload: structurally valid bytes of the fixed
/// legacy length with an odd flag byte.
#[derive(Debug, PartialEq, Eq)]
pub struct LegacyProof {
    bytes: Vec<u8>,
}

impl LegacyProof {
    /// The canonical little-endian bytes of the payload.
    pub closed spec fn bytes_spec(&self) -> Seq<u8> {
        self.bytes@
    }

    #[verifier::type_invariant]
    pub closed spec fn inv(&self) -> bool {
        wf_payload(self.bytes@, true) && self.bytes@.len() == LEGACY_PROOF_SIZE
    }

    /// Strict decode: accepts the buffer only if it is a structurally
    /// valid hiding payload of exactly the legacy length.
    pub fn from_bytes(bytes: Vec<u8>) -> (r: Result<LegacyProof, EnvelopeError>)
        ensures
            match r {
                Ok(p) => p.bytes_spec() == bytes@ && wf_payload(bytes@, true)
                    && bytes@.len() == LEGACY_PROOF_SIZE,
                Err(e) => e == EnvelopeError::MalformedProof
                    && !(wf_payload(bytes@, true) && bytes@.len() == LEGACY_PROOF_SIZE),
            },
    {
        let n = bytes.len();
        if n == LEGACY_PROOF_SIZE && check_payload(bytes.as_slice(), n, true) {
            assert(bytes@.take(n as int) =~= bytes@);
            Ok(LegacyProof { bytes })
        } else {
            assert(bytes@.take(n as int) =~= bytes@);
            Err(EnvelopeError::MalformedProof)
        }
    }

    /// The payload bytes, exactly as they appear on the wire. Every
    /// constructed legacy proof is structurally valid and of the fixed
    /// legacy length, and the ensures republishes that fact.
    pub fn as_bytes(&self) -> (r: &[u8])
        ensures
            r@ == self.bytes_spec(),
            wf_payload(self.bytes_spec(), true),
            self.bytes_spec().len() == LEGACY_PROOF_SIZE,
    {
        proof {
            use_type_invariant(self);
        }
        self.bytes.as_slice()
    }
}

/// A wrapper enum for a PoSW proof: exactly one of the two encodings is
/// populated, and the binary form stores no discriminant.
#[derive(Debug, PartialEq, Eq)]
pub enum PoSWProof {
    NonHiding(CurrentProof),
    Hiding(LegacyProof),
}

/// What sniffing a full-length buffer yields: the hiding flag and payload
/// of the decoded variant, or nothing when neither decode succeeds. The
/// current variant is tried first and wins on ambiguity.
pub open spec fn sniff_spec(buffer: Seq<u8>, header_proof_size: int) -> Option<(bool, Seq<u8>)> {
    if wf_payload(buffer.take(header_proof_size), false) {
        Some((false, buffer.take(header_proof_size)))
    } else if wf_payload(buffer, true) {
        Some((true, buffer))
    } else {
        None
    }
}

impl PoSWProof {
    /// True in the spec iff the legacy (hiding) case is populated.
    pub open spec fn hiding_spec(&self) -> bool {
        self matches PoSWProof::Hiding(_)
    }

    /// The payload bytes of whichever variant is populated.
    pub open spec fn payload_spec(&self) -> Seq<u8> {
        match self {
            PoSWProof::NonHiding(p) => p.bytes_spec(),
            PoSWProof::Hiding(p) => p.bytes_spec(),
        }
    }

    /// The canonical binary length of the envelope: the fixed legacy
    /// length for the hiding case, the payload's own length otherwise.
    pub open spec fn size_spec(&self) -> int {
        if self.hiding_spec() {
            LEGACY_PROOF_SIZE as int
        } else {
            self.payload_spec().len() as int
        }
    }

    /// Initializes a new instance of a PoSW proof.
    pub fn new(proof: CurrentProof) -> (r: PoSWProof)
        ensures
            r == PoSWProof::NonHiding(proof),
    {
        PoSWProof::NonHiding(proof)
    }

    /// Initializes a new instance of a hiding PoSW proof.
    pub fn new_hiding(proof: LegacyProof) -> (r: PoSWProof)
        ensures
            r == PoSWProof::Hiding(proof),
    {
        PoSWProof::Hiding(proof)
    }

    /// Returns `true` if the PoSW proof is hiding.
    pub fn is_hiding(&self) -> (r: bool)
        ensures
            r == self.hiding_spec(),
    {
        match self {
            PoSWProof::NonHiding(_) => false,
            PoSWProof::Hiding(_) => true,
        }
    }

    /// Returns the PoSW proof size in bytes.
    pub fn size(&self) -> (r: usize)
        ensures
            r == self.size_spec(),
            r == self.payload_spec().len(),
    {
        match self {
            PoSWProof::NonHiding(proof) => proof.bytes.len(),
            PoSWProof::Hiding(proof) => {
                proof {
                    use_type_invariant(proof);
                }
                LEGACY_PROOF_SIZE
            },
        }
    }

    /// Binary encode: exactly the payload bytes, with no tag byte and no
    /// length prefix. The bytes are structurally valid for the populated
    /// variant's layout, and a hiding payload has the fixed legacy length.
    pub fn to_bytes_le(&self) -> (r: Vec<u8>)
        ensures
            r@ == self.payload_spec(),
            wf_payload(r@, self.hiding_spec()),
            self.hiding_spec() ==> r@.len() == LEGACY_PROOF_SIZE,
    {
        match self {
            PoSWProof::NonHiding(proof) => {
                proof {
                    use_type_invariant(proof);
                }
                vstd::slice::slice_to_vec(proof.bytes.as_slice())
            },
            PoSWProof::Hiding(proof) => {
                proof {
                    use_type_invariant(proof);
                }
                vstd::slice::slice_to_vec(proof.bytes.as_slice())
            },
        }
    }

    /// Binary decode by format sniffing: the caller supplies a buffer of
    /// exactly the legacy length, the larger of the two possible sizes.
    /// The first `header_proof_size` bytes are tried as a current proof;
    /// only if that fails is the whole buffer tried as a legacy proof.
    pub fn read_le(buffer: &[u8], params: &NetworkParams) -> (r: Result<PoSWProof, EnvelopeError>)
        requires
            buffer@.len() == LEGACY_PROOF_SIZE,
            params.wf(),
        ensures
            match r {
                Ok(p) => sniff_spec(buffer@, params.header_proof_size as int)
                    == Some((p.hiding_spec(), p.payload_spec())),
                Err(e) => e == EnvelopeError::MalformedProof
                    && sniff_spec(buffer@, params.header_proof_size as int) is None,
            },
    {
        let hps = params.header_proof_size;
        if check_payload(buffer, hps, false) {
            let bytes = vstd::slice::slice_to_vec(vstd::slice::slice_subrange(buffer, 0, hps));
            assert(bytes@ =~= buffer@.take(hps as int));
            Ok(PoSWProof::NonHiding(CurrentProof { bytes }))
        } else {
            let n = buffer.len();
            assert(buffer@.take(n as int) =~= buffer@);
            if check_payload(buffer, n, true) {
                let bytes = vstd::slice::slice_to_vec(buffer);
                Ok(PoSWProof::Hiding(LegacyProof { bytes }))
            } else {
                Err(EnvelopeError::MalformedProof)
            }
        }
    }
}

/// On one buffer the two structural layouts never both hold: the flag
/// byte's low bit records the variant, so equal-length decodes disagree
/// on it.
pub proof fn lemma_variants_disjoint(b: Seq<u8>)
    ensures
        !(wf_payload(b, false) && wf_payload(b, true)),
{
}

/// Binary round trip, current variant: a full-length buffer whose prefix
/// holds the canonical bytes of a current proof sized for the network
/// sniffs back to exactly that proof.
pub proof fn lemma_binary_round_trip_current(payload: Seq<u8>, buffer: Seq<u8>, params: NetworkParams)
    requires
        params.wf(),
        wf_payload(payload, false),
        payload.len() == params.header_proof_size,
        buffer.len() == LEGACY_PROOF_SIZE,
        buffer.take(params.header_proof_size as int) == payload,
    ensures
        sniff_spec(buffer, params.header_proof_size as int) == Some((false, payload)),
{
}

/// Binary round trip, legacy variant: a buffer holding the canonical bytes
/// of a legacy proof sniffs back to exactly that proof, provided its
/// prefix does not also pass as a current proof — when the two declared
/// lengths coincide this proviso always holds, since the flag bit of the
/// two layouts differs.
pub proof fn lemma_binary_round_trip_legacy(buffer: Seq<u8>, params: NetworkParams)
    requires
        params.wf(),
        wf_payload(buffer, true),
        buffer.len() == LEGACY_PROOF_SIZE,
        !wf_payload(buffer.take(params.header_proof_size as int), false),
    ensures
        sniff_spec(buffer, params.header_proof_size as int) == Some((true, buffer)),
{
}

/// When the network's current-proof length equals the legacy length, the
/// legacy round trip needs no proviso at all: the full buffer cannot pass
/// as a current proof because its hiding flag bit is set.
pub proof fn lemma_binary_round_trip_legacy_full(buffer: Seq<u8>, params: NetworkParams)
    requires
        params.wf(),
        wf_payload(buffer, true),
        buffer.len() == LEGACY_PROOF_SIZE,
        params.header_proof_size == LEGACY_PROOF_SIZE,
    ensures
        sniff_spec(buffer, params.header_proof_size as int) == Some((true, buffer)),
{
    assert(buffer.take(params.header_proof_size as int) =~= buffer);
    lemma_variants_disjoint(buffer);
}

/// Sniffing tie-break: a buffer that would structurally decode as both a
/// current and a legacy proof decodes as current — first-match priority.
pub proof fn lemma_sniffing_tie_break(buffer: Seq<u8>, params: NetworkParams)
    requires
        params.wf(),
        buffer.len() == LEGACY_PROOF_SIZE,
        wf_payload(buffer.take(params.header_proof_size as int), false),
        wf_payload(buffer, true),
    ensures
        sniff_spec(buffer, params.header_proof_size as int)
            == Some((false, buffer.take(params.header_proof_size as int))),
{
}

/// A full-length all-zero buffer decodes as neither variant: no coordinate
/// byte is nonzero, so both structural decodes fail.
pub proof fn lemma_all_zero_malformed(buffer: Seq<u8>, params: NetworkParams)
    requires
        params.wf(),
        buffer.len() == LEGACY_PROOF_SIZE,
        forall|i: int| 0 <= i < buffer.len() ==> buffer[i] == 0,
    ensures
        sniff_spec(buffer, params.header_proof_size as int) is None,
{
    let hps = params.header_proof_size as int;
    assert(forall|i: int| 0 <= i < hps ==> buffer.take(hps)[i] == 0);
    assert(!crate::codec::has_nonzero_coord(buffer.take(hps)));
    assert(!crate::codec::has_nonzero_coord(buffer));
}

/// Length invariant: the envelope's binary length is the network's
/// current-proof constant for the current variant and the fixed legacy
/// constant for the hiding variant.
pub proof fn lemma_byte_length(p: PoSWProof, params: NetworkParams)
    requires
        params.wf(),
        !p.hiding_spec() ==> p.payload_spec().len() == params.header_proof_size,
    ensures
        p.size_spec() == if p.hiding_spec() {
            LEGACY_PROOF_SIZE as int
        } else {
            params.header_proof_size as int
        },
{
}

} // verus!
