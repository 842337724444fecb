//! Round-trip and size tests for the proof envelope, over both wire
//! representations.

use posw_envelope::envelope::{CurrentProof, LegacyProof, NetworkParams, PoSWProof};

/// The current-proof size the test network declares.
const HEADER_PROOF_SIZE: usize = 387;

const LEGACY_PROOF_SIZE: usize = 771;

/// A structurally valid current (non-hiding) payload of the given length:
/// one nonzero coordinate byte, bounded word tops, even flag byte.
fn current_payload(len: usize) -> Vec<u8> {
    let mut v = vec![0u8; len];
    v[0] = 1;
    v
}

/// A structurally valid legacy (hiding) payload: fixed length and an odd
/// flag byte. The byte at the current-proof boundary is out of flag range
/// so that the payload's prefix does not also pass as a current proof —
/// an ambiguous prefix would (by design) win the sniffing tie-break.
fn legacy_payload() -> Vec<u8> {
    let mut v = vec![0u8; LEGACY_PROOF_SIZE];
    v[0] = 2;
    v[HEADER_PROOF_SIZE - 1] = 5;
    v[LEGACY_PROOF_SIZE - 1] = 1;
    v
}

fn current_envelope() -> PoSWProof {
    PoSWProof::new(CurrentProof::from_bytes(current_payload(HEADER_PROOF_SIZE)).unwrap())
}

fn legacy_envelope() -> PoSWProof {
    PoSWProof::new_hiding(LegacyProof::from_bytes(legacy_payload()).unwrap())
}

fn params() -> NetworkParams {
    NetworkParams::new(HEADER_PROOF_SIZE).unwrap()
}

#[test]
fn test_load_genesis_proof() {
    {
        let proof = current_envelope();
        assert_eq!(proof.to_bytes_le().len(), HEADER_PROOF_SIZE);
    }
    {
        let proof = legacy_envelope();
        assert_eq!(proof.to_bytes_le().len(), 771);
    }
}

#[test]
fn test_proof_genesis_size() {
    let proof = current_envelope();
    assert_eq!(proof.to_bytes_le().len(), HEADER_PROOF_SIZE);
    assert_eq!(proof.size(), HEADER_PROOF_SIZE);

    let proof = legacy_envelope();
    assert_eq!(proof.to_bytes_le().len(), 771);
    assert_eq!(proof.size(), 771);
}

#[test]
fn test_proof_serde_json() {
    {
        let proof = current_envelope();

        // Serialize
        let expected_string = proof.to_string();
        let candidate_string = String::from_utf8(proof.to_json_bytes()).unwrap();
        assert_eq!(788, candidate_string.len(), "Update me if serialization has changed");
        assert_eq!(expected_string, candidate_string);

        // Deserialize
        assert_eq!(proof, PoSWProof::from_str(&candidate_string).unwrap());
        assert_eq!(proof, PoSWProof::from_json_bytes(candidate_string.as_bytes()).unwrap());
    }
    {
        let proof = legacy_envelope();

        // Serialize
        let expected_string = proof.to_string();
        let candidate_string = String::from_utf8(proof.to_json_bytes()).unwrap();
        assert_eq!(1555, candidate_string.len(), "Update me if serialization has changed");
        assert_eq!(expected_string, candidate_string);

        // Deserialize
        assert_eq!(proof, PoSWProof::from_str(&candidate_string).unwrap());
        assert_eq!(proof, PoSWProof::from_json_bytes(candidate_string.as_bytes()).unwrap());
    }
}

#[test]
fn test_proof_bincode() {
    {
        let proof = current_envelope();

        let expected_bytes = proof.to_bytes_le();
        assert_eq!(expected_bytes.len(), HEADER_PROOF_SIZE);

        let mut buffer = expected_bytes.clone();
        buffer.resize(LEGACY_PROOF_SIZE, 0);
        let decoded = PoSWProof::read_le(&buffer, &params()).unwrap();
        assert_eq!(proof, decoded);
        assert_eq!(&expected_bytes[..], &decoded.to_bytes_le()[..]);
    }
    {
        let proof = legacy_envelope();

        let expected_bytes = proof.to_bytes_le();
        assert_eq!(expected_bytes.len(), LEGACY_PROOF_SIZE);

        let decoded = PoSWProof::read_le(&expected_bytes, &params()).unwrap();
        assert_eq!(proof, decoded);
        assert_eq!(&expected_bytes[..], &decoded.to_bytes_le()[..]);
    }
}

#[test]
fn test_is_hiding() {
    assert!(!current_envelope().is_hiding());
    assert!(legacy_envelope().is_hiding());
}

#[test]
fn test_exact_json_text() {
    // A reference proof small enough to write its canonical text out in
    // full: the encoder must produce exactly this string, so a codec that
    // handed bytes through unchanged or drifted in its framing would fail.
    let payload = current_payload(11);
    let proof = PoSWProof::new(CurrentProof::from_bytes(payload).unwrap());
    assert_eq!(proof.to_string(), "{\"current\":\"0100000000000000000000\"}");
    let legacy = legacy_envelope();
    let text = legacy.to_string();
    assert!(text.starts_with("{\"legacy\":\"02"));
    assert!(text.ends_with("01\"}"));
}
