//! Scenario tests: sniffing priority, malformed input, key adaptation,
//! verification dispatch, and the permissive human-readable parser.

use posw_envelope::dispatch::{ChecksumVerifier, SnarkVerifier};
use posw_envelope::envelope::{CurrentProof, LegacyProof, NetworkParams, PoSWProof};
use posw_envelope::errors::EnvelopeError;
use posw_envelope::hex::{hex_decode, hex_encode};
use posw_envelope::key::{derive_legacy_key, VerifyingKey};

const HEADER_PROOF_SIZE: usize = 387;
const LEGACY_PROOF_SIZE: usize = 771;

fn current_payload(len: usize) -> Vec<u8> {
    let mut v = vec![0u8; len];
    v[0] = 1;
    v
}

fn legacy_payload() -> Vec<u8> {
    let mut v = vec![0u8; LEGACY_PROOF_SIZE];
    v[0] = 2;
    v[LEGACY_PROOF_SIZE - 1] = 1;
    v
}

fn params() -> NetworkParams {
    NetworkParams::new(HEADER_PROOF_SIZE).unwrap()
}

#[test]
fn test_sniffing_tie_break() {
    // A buffer that decodes validly as both variants: its first
    // HEADER_PROOF_SIZE bytes form a current proof (even flag byte) and
    // the whole buffer forms a legacy proof (odd final flag byte). The
    // decoder must prefer the current variant.
    let mut buffer = vec![0u8; LEGACY_PROOF_SIZE];
    buffer[0] = 1;
    buffer[LEGACY_PROOF_SIZE - 1] = 1;
    let both_current = CurrentProof::from_bytes(buffer[..HEADER_PROOF_SIZE].to_vec());
    let both_legacy = LegacyProof::from_bytes(buffer.clone());
    assert!(both_current.is_ok() && both_legacy.is_ok());

    let decoded = PoSWProof::read_le(&buffer, &params()).unwrap();
    assert!(!decoded.is_hiding());
    assert_eq!(decoded.to_bytes_le(), buffer[..HEADER_PROOF_SIZE].to_vec());
}

#[test]
fn test_all_zero_buffer_is_malformed() {
    let buffer = vec![0u8; LEGACY_PROOF_SIZE];
    let decoded = PoSWProof::read_le(&buffer, &params());
    assert_eq!(decoded, Err(EnvelopeError::MalformedProof));
}

#[test]
fn test_from_bytes_rejects_malformed() {
    // All-zero coordinates.
    assert_eq!(
        CurrentProof::from_bytes(vec![0u8; 11]),
        Err(EnvelopeError::MalformedProof)
    );
    // Wrong variant flag: odd flag byte is the hiding layout.
    let mut odd = current_payload(11);
    odd[10] = 1;
    assert_eq!(CurrentProof::from_bytes(odd), Err(EnvelopeError::MalformedProof));
    // Wrong length for a legacy proof.
    let mut short = vec![0u8; 770];
    short[0] = 2;
    short[769] = 1;
    assert_eq!(LegacyProof::from_bytes(short), Err(EnvelopeError::MalformedProof));
    // Coordinate word over the field bound.
    let mut over = current_payload(11);
    over[7] = 240;
    assert_eq!(CurrentProof::from_bytes(over), Err(EnvelopeError::MalformedProof));
    // Flag byte out of range.
    let mut flags = current_payload(11);
    flags[10] = 4;
    assert_eq!(CurrentProof::from_bytes(flags), Err(EnvelopeError::MalformedProof));
}

#[test]
fn test_text_round_trip() {
    let current = PoSWProof::new(CurrentProof::from_bytes(current_payload(HEADER_PROOF_SIZE)).unwrap());
    let text = current.to_string();
    assert_eq!(PoSWProof::from_str(&text).unwrap(), current);

    let legacy = PoSWProof::new_hiding(LegacyProof::from_bytes(legacy_payload()).unwrap());
    let text = legacy.to_string();
    assert_eq!(PoSWProof::from_str(&text).unwrap(), legacy);
}

#[test]
fn test_tag_exclusivity() {
    let current = PoSWProof::new(CurrentProof::from_bytes(current_payload(HEADER_PROOF_SIZE)).unwrap());
    let text = current.to_string();
    assert_eq!(text.matches("\"current\"").count(), 1);
    assert_eq!(text.matches("\"legacy\"").count(), 0);

    let legacy = PoSWProof::new_hiding(LegacyProof::from_bytes(legacy_payload()).unwrap());
    let text = legacy.to_string();
    assert_eq!(text.matches("\"legacy\"").count(), 1);
    assert_eq!(text.matches("\"current\"").count(), 0);
}

#[test]
fn test_permissive_parse() {
    let current = PoSWProof::new(CurrentProof::from_bytes(current_payload(11)).unwrap());
    let legacy = PoSWProof::new_hiding(LegacyProof::from_bytes(legacy_payload()).unwrap());
    let cur_hex = String::from_utf8(hex_encode(&current.to_bytes_le())).unwrap();
    let leg_hex = String::from_utf8(hex_encode(&legacy.to_bytes_le())).unwrap();

    // Extraneous fields of every JSON kind are ignored; order is free.
    let text = format!(
        " {{ \"noise\": [1, {{\"x\": \"y\"}}, null], \"legacy\": \"{}\", \"n\": -2.5e3, \"current\": \"{}\" }} ",
        leg_hex, cur_hex
    );
    assert_eq!(PoSWProof::from_str(&text).unwrap(), current);

    // The current field is preferred even when it comes second.
    let text = format!("{{\"legacy\":\"{}\",\"current\":\"{}\"}}", leg_hex, cur_hex);
    assert_eq!(PoSWProof::from_str(&text).unwrap(), current);

    // A current field whose nested value fails to decode falls back to
    // the legacy field.
    let text = format!("{{\"current\":\"zz\",\"legacy\":\"{}\"}}", leg_hex);
    assert_eq!(PoSWProof::from_str(&text).unwrap(), legacy);

    // Of duplicate fields, the last occurrence wins.
    let text = format!("{{\"current\":\"zz\",\"current\":\"{}\"}}", cur_hex);
    assert_eq!(PoSWProof::from_str(&text).unwrap(), current);
}

#[test]
fn test_invalid_envelope_encoding() {
    let cases: Vec<String> = vec![
        String::from("{}"),
        String::from("[1,2]"),
        String::from("{\"current\": 5}"),
        String::from("{\"other\":\"00\"}"),
        String::from("{\"current\":\"0100000000000000000000\"} trailing"),
        String::from("{\"current\":\"01000000000000000000\"}"),
        String::from("not json at all"),
        String::from(""),
    ];
    for text in cases {
        assert_eq!(
            PoSWProof::from_str(&text),
            Err(EnvelopeError::InvalidEnvelopeEncoding),
            "input: {}",
            text
        );
    }
}

#[test]
fn test_legacy_key_derivation_deterministic() {
    let key_bytes = vec![3u8, 0, 0, 0, 0, 0, 0, 0, 9, 0, 0, 0, 0, 0, 0, 15];
    let key = VerifyingKey::from_bytes(key_bytes.clone()).unwrap();
    let first = derive_legacy_key(&key).unwrap();
    let second = derive_legacy_key(&key).unwrap();
    assert_eq!(first, second);
    assert_eq!(first.as_bytes(), &key_bytes[..]);
}

#[test]
fn test_incompatible_verifying_key() {
    // The top byte of the second word fits the current field but not the
    // narrower legacy field.
    let key = VerifyingKey::from_bytes(vec![3u8, 0, 0, 0, 0, 0, 0, 0, 0, 0, 0, 0, 0, 0, 0, 20])
        .unwrap();
    assert_eq!(
        derive_legacy_key(&key),
        Err(EnvelopeError::IncompatibleVerifyingKey)
    );
    // A hiding envelope verified with such a key reports failure rather
    // than crashing.
    let legacy = PoSWProof::new_hiding(LegacyProof::from_bytes(legacy_payload()).unwrap());
    assert!(!legacy.verify(&key, &vec![], &ChecksumVerifier));
}

#[test]
fn test_verification_correctness() {
    // A genesis-style current envelope: the reference verifier accepts
    // exactly when the checksums line up, so the matching key yields true
    // and tampered public inputs yield false.
    let proof = PoSWProof::new(CurrentProof::from_bytes(current_payload(11)).unwrap());
    let key = VerifyingKey::from_bytes(vec![1u8, 0, 0, 0, 0, 0, 0, 0]).unwrap();
    assert!(proof.verify(&key, &vec![], &ChecksumVerifier));
    assert!(!proof.verify(&key, &vec![5], &ChecksumVerifier));

    // The matching inputs still verify: proof checksum 1 plus input 65520
    // folds to 0 mod 65521... so a key with checksum 0 accepts.
    let zero_key = VerifyingKey::from_bytes(vec![0u8, 0, 0, 0, 0, 0, 0, 1]).unwrap();
    // key checksum: byte 1 at the top position -> sum 1; inputs sum 65520:
    // (1 + 65520) % 65521 == 0 != 1, rejected; empty inputs: 1 == 1, accepted.
    assert!(zero_key.as_bytes()[7] == 1);
    assert!(proof.verify(&zero_key, &vec![], &ChecksumVerifier));

    // Legacy path: the derived key has the same bytes, so the same
    // checksum rule decides.
    let legacy = PoSWProof::new_hiding(LegacyProof::from_bytes(legacy_payload()).unwrap());
    // Payload checksum: bytes 2 and 1 -> 3.
    let key3 = VerifyingKey::from_bytes(vec![3u8, 0, 0, 0, 0, 0, 0, 0]).unwrap();
    assert!(legacy.verify(&key3, &vec![], &ChecksumVerifier));
    assert!(!legacy.verify(&key3, &vec![1], &ChecksumVerifier));
    let key1 = VerifyingKey::from_bytes(vec![1u8, 0, 0, 0, 0, 0, 0, 0]).unwrap();
    assert!(!legacy.verify(&key1, &vec![], &ChecksumVerifier));
}

/// A verifier that always faults, standing in for a SNARK backend that
/// errors internally rather than returning a verdict.
struct FaultingVerifier;

impl SnarkVerifier for FaultingVerifier {
    // The ghost part of the trait is erased at runtime and never called.
    fn accepts(
        &self,
        _vk: vstd::seq::Seq<u8>,
        _inputs: vstd::seq::Seq<u64>,
        _proof: vstd::seq::Seq<u8>,
    ) -> bool {
        unreachable!()
    }

    fn verify(&self, _vk: &[u8], _inputs: &[u64], _proof: &[u8]) -> Result<bool, EnvelopeError> {
        Err(EnvelopeError::VerifierFault)
    }
}

#[test]
fn test_verifier_fault_reports_failure() {
    // A verifier-internal fault is treated as a failed verification on
    // both paths, never as a crash.
    let key = VerifyingKey::from_bytes(vec![1u8, 0, 0, 0, 0, 0, 0, 0]).unwrap();
    let current = PoSWProof::new(CurrentProof::from_bytes(current_payload(11)).unwrap());
    assert!(!current.verify(&key, &vec![], &FaultingVerifier));
    let legacy = PoSWProof::new_hiding(LegacyProof::from_bytes(legacy_payload()).unwrap());
    assert!(!legacy.verify(&key, &vec![], &FaultingVerifier));
}

#[test]
fn test_hex_round_trip() {
    let bytes = vec![0u8, 1, 15, 16, 171, 255];
    let encoded = hex_encode(&bytes);
    assert_eq!(String::from_utf8(encoded.clone()).unwrap(), "00010f10abff");
    assert_eq!(hex_decode(&encoded).unwrap(), bytes);
    assert_eq!(hex_decode(b"0g"), None);
    assert_eq!(hex_decode(b"012"), None);
    assert_eq!(hex_decode(b"AB"), None);
}

#[test]
fn test_network_params() {
    assert!(NetworkParams::new(387).is_some());
    assert!(NetworkParams::new(771).is_some());
    assert!(NetworkParams::new(770).is_none());
    assert!(NetworkParams::new(3).is_none());
    assert!(NetworkParams::new(772).is_none());
}

#[test]
fn test_full_size_current_round_trip() {
    // When the network's current-proof length equals the legacy length,
    // the flag bit alone separates the variants in both directions.
    let p = NetworkParams::new(LEGACY_PROOF_SIZE).unwrap();
    let current = PoSWProof::new(CurrentProof::from_bytes(current_payload(LEGACY_PROOF_SIZE)).unwrap());
    let decoded = PoSWProof::read_le(&current.to_bytes_le(), &p).unwrap();
    assert_eq!(decoded, current);

    let legacy = PoSWProof::new_hiding(LegacyProof::from_bytes(legacy_payload()).unwrap());
    let decoded = PoSWProof::read_le(&legacy.to_bytes_le(), &p).unwrap();
    assert_eq!(decoded, legacy);
}

#[test]
fn test_error_descriptions() {
    assert!(!EnvelopeError::MalformedProof.describe().is_empty());
    assert!(!EnvelopeError::InvalidEnvelopeEncoding.describe().is_empty());
    assert!(!EnvelopeError::IncompatibleVerifyingKey.describe().is_empty());
    assert!(!EnvelopeError::VerifierFault.describe().is_empty());
}
