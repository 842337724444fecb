//! The human-readable codec: a JSON object with exactly one of the two
//! recognized fields, `"current"` or `"legacy"`, whose value is the
//! lowercase hex encoding of the payload bytes.
//!
//! Emitting always produces the canonical form. Parsing recognizes the
//! canonical form exactly, and falls back to a permissive object scanner
//! for non-canonical input: field order is free, extraneous fields are
//! ignored, and `"current"` is preferred over `"legacy"` whenever both
//! decode.

use vstd::prelude::*;
use vstd::string::StringSliceAdditionalSpecFns;

use crate::codec::{wf_payload, LEGACY_PROOF_SIZE};
use crate::envelope::{CurrentProof, LegacyProof, PoSWProof};
use crate::errors::EnvelopeError;
use crate::hex::{
    hex_decode, hex_encode, hex_seq, is_hex_digit, lemma_hex_seq_digits, lemma_hex_seq_injective,
};

verus! {

/// The opening bytes of the canonical current form: `{"current":"`.
pub open spec fn current_prefix() -> Seq<u8> {
    seq![123u8, 34, 99, 117, 114, 114, 101, 110, 116, 34, 58, 34]
}

/// The opening bytes of the canonical legacy form: `{"legacy":"`.
pub open spec fn legacy_prefix() -> Seq<u8> {
    seq![123u8, 34, 108, 101, 103, 97, 99, 121, 34, 58, 34]
}

/// The closing bytes of either canonical form: `"}`.
pub open spec fn canonical_suffix() -> Seq<u8> {
    seq![34u8, 125]
}

/// The opening bytes of the canonical form with the given tag.
pub open spec fn tag_prefix(hiding: bool) -> Seq<u8> {
    if hiding {
        legacy_prefix()
    } else {
        current_prefix()
    }
}

/// The canonical human-readable bytes of an envelope: the tag's field
/// name, then the payload in lowercase hex, in a one-field JSON object.
pub open spec fn canonical_json(hiding: bool, payload: Seq<u8>) -> Seq<u8> {
    tag_prefix(hiding) + hex_seq(payload) + canonical_suffix()
}

/// The canonical human-readable text of an envelope, character by
/// character; every byte of the canonical form is ASCII.
pub open spec fn canonical_json_chars(hiding: bool, payload: Seq<u8>) -> Seq<char> {
    canonical_json(hiding, payload).map_values(|b: u8| b as char)
}

/// The shape a byte string must have to be the canonical form of some
/// payload under the given tag: the tag's prefix, an even number of
/// lowercase hex digits, and the closing quote and brace.
pub open spec fn is_canonical_shape(b: Seq<u8>, hiding: bool) -> bool {
    let plen = tag_prefix(hiding).len() as int;
    &&& b.len() >= plen + 2
    &&& b.subrange(0, plen) == tag_prefix(hiding)
    &&& b.subrange(b.len() - 2, b.len() as int) == canonical_suffix()
    &&& (b.len() - plen - 2) % 2 == 0
    &&& forall|i: int| plen <= i < b.len() - 2 ==> is_hex_digit(#[trigger] b[i])
}

/// How the canonical form decomposes into its three parts.
pub proof fn lemma_canonical_parts(hiding: bool, payload: Seq<u8>)
    ensures
        canonical_json(hiding, payload).len() == tag_prefix(hiding).len() + 2 * payload.len()
            + 2,
        canonical_json(hiding, payload).subrange(0, tag_prefix(hiding).len() as int)
            == tag_prefix(hiding),
        canonical_json(hiding, payload).subrange(
            tag_prefix(hiding).len() as int,
            canonical_json(hiding, payload).len() - 2,
        ) == hex_seq(payload),
        canonical_json(hiding, payload).subrange(
            canonical_json(hiding, payload).len() - 2,
            canonical_json(hiding, payload).len() as int,
        ) == canonical_suffix(),
{
    let c = canonical_json(hiding, payload);
    let plen = tag_prefix(hiding).len() as int;
    assert(c.subrange(0, plen) =~= tag_prefix(hiding));
    assert(c.subrange(plen, c.len() - 2) =~= hex_seq(payload));
    assert(c.subrange(c.len() - 2, c.len() as int) =~= canonical_suffix());
}

/// The canonical form of a payload has the canonical shape of its tag.
pub proof fn lemma_canonical_is_shape(hiding: bool, payload: Seq<u8>)
    ensures
        is_canonical_shape(canonical_json(hiding, payload), hiding),
{
    let c = canonical_json(hiding, payload);
    let plen = tag_prefix(hiding).len() as int;
    lemma_canonical_parts(hiding, payload);
    lemma_hex_seq_digits(payload);
    assert forall|i: int| plen <= i < c.len() - 2 implies is_hex_digit(#[trigger] c[i]) by {
        assert(c[i] == hex_seq(payload)[i - plen]);
    }
}

/// Tag exclusivity: the canonical human-readable form of an envelope has
/// the shape of exactly one recognized field — its own tag's — and never
/// the other's.
pub proof fn lemma_tag_exclusivity(hiding: bool, payload: Seq<u8>)
    ensures
        is_canonical_shape(canonical_json(hiding, payload), hiding),
        !is_canonical_shape(canonical_json(hiding, payload), !hiding),
{
    lemma_canonical_is_shape(hiding, payload);
    let c = canonical_json(hiding, payload);
    let other = tag_prefix(!hiding);
    assert(c[2] == tag_prefix(hiding)[2]) by {
        lemma_canonical_parts(hiding, payload);
        assert(c.subrange(0, tag_prefix(hiding).len() as int)[2] == c[2]);
    }
    if is_canonical_shape(c, !hiding) {
        assert(c.subrange(0, other.len() as int)[2] == c[2]);
        assert(c[2] == other[2]);
        assert(tag_prefix(hiding)[2] != other[2]);
    }
}

/// Every byte of the canonical form is ASCII.
pub proof fn lemma_canonical_ascii(hiding: bool, payload: Seq<u8>)
    ensures
        forall|i: int| 0 <= i < canonical_json(hiding, payload).len()
            ==> #[trigger] canonical_json(hiding, payload)[i] < 128,
{
    let c = canonical_json(hiding, payload);
    let plen = tag_prefix(hiding).len() as int;
    lemma_hex_seq_digits(payload);
    assert forall|i: int| 0 <= i < c.len() implies #[trigger] c[i] < 128 by {
        if i < plen {
            assert(c[i] == tag_prefix(hiding)[i]);
        } else if i < plen + 2 * payload.len() {
            assert(c[i] == hex_seq(payload)[i - plen]);
            assert(is_hex_digit(hex_seq(payload)[i - plen]));
        } else {
            assert(c[i] == canonical_suffix()[i - plen - 2 * payload.len()]);
        }
    }
}

/// Builds the canonical prefix of the given tag.
fn tag_prefix_vec(hiding: bool) -> (r: Vec<u8>)
    ensures
        r@ == tag_prefix(hiding),
{
    let mut v: Vec<u8> = Vec::new();
    v.push(123);
    v.push(34);
    if hiding {
        v.push(108);
        v.push(101);
        v.push(103);
        v.push(97);
        v.push(99);
        v.push(121);
    } else {
        v.push(99);
        v.push(117);
        v.push(114);
        v.push(114);
        v.push(101);
        v.push(110);
        v.push(116);
    }
    v.push(34);
    v.push(58);
    v.push(34);
    assert(v@ =~= tag_prefix(hiding));
    v
}

/// Relies on `String::from_utf8`: an all-ASCII byte buffer is valid UTF-8
/// and decodes to exactly one character per byte, each with the byte's
/// code point.
#[verifier::external_body]
fn string_from_ascii(bytes: Vec<u8>) -> (r: String)
    requires
        forall|i: int| 0 <= i < bytes@.len() ==> bytes@[i] < 128,
    ensures
        r@ == bytes@.map_values(|b: u8| b as char),
{
    match String::from_utf8(bytes) {
        Ok(s) => s,
        Err(_) => String::new(),
    }
}

impl PoSWProof {
    /// Human-readable encode: a single-field object whose one field is
    /// `"current"` or `"legacy"`, never both and never neither.
    pub fn to_json_bytes(&self) -> (r: Vec<u8>)
        ensures
            r@ == canonical_json(self.hiding_spec(), self.payload_spec()),
    {
        let mut out = tag_prefix_vec(self.is_hiding());
        let mut digits = match self {
            PoSWProof::NonHiding(proof) => hex_encode(proof.as_bytes()),
            PoSWProof::Hiding(proof) => hex_encode(proof.as_bytes()),
        };
        out.append(&mut digits);
        out.push(34);
        out.push(125);
        assert(out@ =~= canonical_json(self.hiding_spec(), self.payload_spec()));
        out
    }

    /// The textual form of the envelope: the canonical human-readable
    /// encoding, character for character.
    pub fn to_string(&self) -> (r: String)
        ensures
            r@ == canonical_json_chars(self.hiding_spec(), self.payload_spec()),
    {
        let bytes = self.to_json_bytes();
        proof {
            lemma_canonical_ascii(self.hiding_spec(), self.payload_spec());
        }
        string_from_ascii(bytes)
    }
}

/// Recognizes the canonical form of the given tag and returns the decoded
/// payload bytes: succeeds exactly on byte strings of the canonical shape.
fn match_canonical(b: &[u8], hiding: bool) -> (r: Option<Vec<u8>>)
    ensures
        r is Some <==> is_canonical_shape(b@, hiding),
        r matches Some(p) ==> b@ == canonical_json(hiding, p@),
{
    let n = b.len();
    let prefix = tag_prefix_vec(hiding);
    let plen = prefix.len();
    if n < plen + 2 {
        return None;
    }
    let mut j: usize = 0;
    while j < plen
        invariant
            n == b@.len(),
            plen == prefix@.len(),
            n >= plen + 2,
            prefix@ == tag_prefix(hiding),
            j <= plen,
            forall|k: int| 0 <= k < j ==> b@[k] == prefix@[k],
        decreases plen - j,
    {
        if *vstd::slice::slice_index_get(b, j) != prefix[j] {
            assert(b@[j as int] != tag_prefix(hiding)[j as int]);
            assert(!is_canonical_shape(b@, hiding)) by {
                if is_canonical_shape(b@, hiding) {
                    assert(b@.subrange(0, plen as int)[j as int] == b@[j as int]);
                }
            }
            return None;
        }
        j += 1;
    }
    assert(b@.subrange(0, plen as int) =~= tag_prefix(hiding));
    if *vstd::slice::slice_index_get(b, n - 2) != 34
        || *vstd::slice::slice_index_get(b, n - 1) != 125 {
        assert(!is_canonical_shape(b@, hiding)) by {
            if is_canonical_shape(b@, hiding) {
                assert(b@.subrange(n - 2, n as int)[0] == b@[n - 2]);
                assert(b@.subrange(n - 2, n as int)[1] == b@[n - 1]);
            }
        }
        return None;
    }
    assert(b@.subrange(n - 2, n as int) =~= canonical_suffix());
    let mid = vstd::slice::slice_subrange(b, plen, n - 2);
    let ghost mid_seq = b@.subrange(plen as int, n - 2);
    match hex_decode(mid) {
        Some(payload) => {
            assert(hex_seq(payload@) == mid_seq);
            assert(b@ =~= b@.subrange(0, plen as int) + mid_seq + b@.subrange(n - 2, n as int));
            assert(b@ == canonical_json(hiding, payload@));
            assert(is_canonical_shape(b@, hiding)) by {
                lemma_canonical_is_shape(hiding, payload@);
            }
            Some(payload)
        },
        None => {
            assert(!is_canonical_shape(b@, hiding)) by {
                if is_canonical_shape(b@, hiding) {
                    assert(mid_seq.len() % 2 == 0);
                    assert forall|i: int| 0 <= i < mid_seq.len() implies is_hex_digit(
                        #[trigger] mid_seq[i],
                    ) by {
                        assert(mid_seq[i] == b@[plen + i]);
                        assert(is_hex_digit(b@[plen + i]));
                    }
                }
            }
            None
        },
    }
}

/// Advances past ASCII whitespace.
fn skip_ws(b: &[u8], i: usize) -> (r: usize)
    requires
        i <= b@.len(),
    ensures
        i <= r <= b@.len(),
{
    let n = b.len();
    let mut j: usize = i;
    while j < n
        invariant
            n == b@.len(),
            i <= j <= n,
        decreases n - j,
    {
        let c = *vstd::slice::slice_index_get(b, j);
        if c == 32 || c == 9 || c == 10 || c == 13 {
            j += 1;
        } else {
            return j;
        }
    }
    j
}

/// Reads the raw content of a JSON string starting just after its opening
/// quote; an escaped character is kept verbatim, backslash included.
/// Returns the content and the position just past the closing quote.
fn read_string(b: &[u8], i: usize) -> (r: Option<(Vec<u8>, usize)>)
    requires
        i <= b@.len(),
    ensures
        r matches Some(p) ==> i < p.1 <= b@.len(),
{
    let n = b.len();
    let mut j: usize = i;
    let mut out: Vec<u8> = Vec::new();
    while j < n
        invariant
            n == b@.len(),
            i <= j <= n,
        decreases n - j,
    {
        let c = *vstd::slice::slice_index_get(b, j);
        if c == 34 {
            return Some((out, j + 1));
        }
        if c == 92 {
            if j + 1 >= n {
                return None;
            }
            out.push(c);
            out.push(*vstd::slice::slice_index_get(b, j + 1));
            j += 2;
        } else {
            out.push(c);
            j += 1;
        }
    }
    None
}

/// Skips one JSON value of any kind, tracking nesting depth and string
/// state; stops just before the comma or closing brace that ends it.
fn skip_value(b: &[u8], i: usize) -> (r: Option<usize>)
    requires
        i <= b@.len(),
    ensures
        r matches Some(j) ==> i <= j <= b@.len(),
{
    let n = b.len();
    let mut j: usize = i;
    let mut depth: usize = 0;
    let mut in_str: bool = false;
    let mut esc: bool = false;
    while j < n
        invariant
            n == b@.len(),
            i <= j <= n,
        decreases n - j,
    {
        let c = *vstd::slice::slice_index_get(b, j);
        if in_str {
            if esc {
                esc = false;
            } else if c == 92 {
                esc = true;
            } else if c == 34 {
                in_str = false;
            }
            j += 1;
        } else if c == 34 {
            in_str = true;
            j += 1;
        } else if c == 123 || c == 91 {
            if depth == usize::MAX {
                return None;
            }
            depth += 1;
            j += 1;
        } else if c == 125 || c == 93 {
            if depth == 0 {
                return Some(j);
            }
            depth -= 1;
            j += 1;
        } else if c == 44 {
            if depth == 0 {
                return Some(j);
            }
            j += 1;
        } else {
            j += 1;
        }
    }
    if depth == 0 && !in_str {
        Some(j)
    } else {
        None
    }
}

/// Whether a raw key equals the given recognized field name.
fn key_matches(key: &Vec<u8>, hiding: bool) -> (r: bool)
    ensures
        r == (key@ == tag_prefix(hiding).subrange(2, tag_prefix(hiding).len() - 3)),
{
    let prefix = tag_prefix_vec(hiding);
    let name_len = prefix.len() - 5;
    if key.len() != name_len {
        assert(key@.len() != tag_prefix(hiding).subrange(2, tag_prefix(hiding).len() - 3).len());
        return false;
    }
    let mut j: usize = 0;
    while j < name_len
        invariant
            name_len == tag_prefix(hiding).len() - 5,
            key@.len() == name_len,
            prefix@ == tag_prefix(hiding),
            prefix@.len() == name_len + 5,
            j <= name_len,
            forall|k: int| 0 <= k < j ==> key@[k] == prefix@[k + 2],
        decreases name_len - j,
    {
        if key[j] != prefix[j + 2] {
            assert(key@[j as int] != tag_prefix(hiding).subrange(
                2,
                tag_prefix(hiding).len() - 3,
            )[j as int]);
            return false;
        }
        j += 1;
    }
    assert(key@ =~= tag_prefix(hiding).subrange(2, tag_prefix(hiding).len() - 3));
    true
}

/// Permissive scan of a JSON object: collects the raw string values of the
/// last `"current"` and last `"legacy"` members, skipping members of any
/// other key and members whose value is not a string. Returns `None` when
/// the input is not an object followed only by whitespace.
fn scan_object(b: &[u8]) -> (r: Option<(Option<Vec<u8>>, Option<Vec<u8>>)>) {
    let n = b.len();
    let mut cur: Option<Vec<u8>> = None;
    let mut leg: Option<Vec<u8>> = None;
    let mut i: usize = skip_ws(b, 0);
    if i >= n || *vstd::slice::slice_index_get(b, i) != 123 {
        return None;
    }
    i += 1;
    i = skip_ws(b, i);
    if i < n && *vstd::slice::slice_index_get(b, i) == 125 {
        let j = skip_ws(b, i + 1);
        if j == n {
            return Some((cur, leg));
        }
        return None;
    }
    loop
        invariant
            n == b@.len(),
            i <= n,
        decreases n - i,
    {
        i = skip_ws(b, i);
        if i >= n || *vstd::slice::slice_index_get(b, i) != 34 {
            return None;
        }
        let key: Vec<u8>;
        match read_string(b, i + 1) {
            Some((k, j)) => {
                key = k;
                i = j;
            },
            None => {
                return None;
            },
        }
        i = skip_ws(b, i);
        if i >= n || *vstd::slice::slice_index_get(b, i) != 58 {
            return None;
        }
        i += 1;
        i = skip_ws(b, i);
        if i >= n {
            return None;
        }
        if *vstd::slice::slice_index_get(b, i) == 34 {
            match read_string(b, i + 1) {
                Some((val, j)) => {
                    if key_matches(&key, false) {
                        cur = Some(val);
                    } else if key_matches(&key, true) {
                        leg = Some(val);
                    }
                    i = j;
                },
                None => {
                    return None;
                },
            }
        } else {
            match skip_value(b, i) {
                Some(j) => {
                    i = j;
                },
                None => {
                    return None;
                },
            }
        }
        i = skip_ws(b, i);
        if i >= n {
            return None;
        }
        let c = *vstd::slice::slice_index_get(b, i);
        if c == 44 {
            i += 1;
        } else if c == 125 {
            let j = skip_ws(b, i + 1);
            if j == n {
                return Some((cur, leg));
            }
            return None;
        } else {
            return None;
        }
    }
}

impl PoSWProof {
    /// Human-readable decode. The `"current"` field is preferred: only
    /// when it is absent or its value fails to decode is `"legacy"`
    /// tried; when neither yields a proof, decoding fails with
    /// `InvalidEnvelopeEncoding`. On the canonical form this recovers
    /// exactly the encoded envelope.
    pub fn from_json_bytes(b: &[u8]) -> (r: Result<PoSWProof, EnvelopeError>)
        ensures
            forall|payload: Seq<u8>|
                wf_payload(payload, false) && b@ == canonical_json(false, payload) ==> (r
                    matches Ok(p) && !p.hiding_spec() && p.payload_spec() == payload),
            forall|payload: Seq<u8>|
                wf_payload(payload, true) && payload.len() == LEGACY_PROOF_SIZE && b@
                    == canonical_json(true, payload) ==> (r matches Ok(p) && p.hiding_spec()
                    && p.payload_spec() == payload),
            r matches Err(e) ==> e == EnvelopeError::InvalidEnvelopeEncoding,
    {
        match match_canonical(b, false) {
            Some(payload) => {
                let ghost decoded = payload@;
                proof {
                    lemma_cancel_canonical(false, decoded, b@);
                    lemma_other_tag_free(false, true, decoded, b@);
                }
                match CurrentProof::from_bytes(payload) {
                    Ok(proof) => Ok(PoSWProof::NonHiding(proof)),
                    Err(_) => Err(EnvelopeError::InvalidEnvelopeEncoding),
                }
            },
            None => {
                match match_canonical(b, true) {
                    Some(payload) => {
                        let ghost decoded = payload@;
                        proof {
                            lemma_cancel_canonical(true, decoded, b@);
                            lemma_other_tag_free(true, false, decoded, b@);
                        }
                        match LegacyProof::from_bytes(payload) {
                            Ok(proof) => Ok(PoSWProof::Hiding(proof)),
                            Err(_) => Err(EnvelopeError::InvalidEnvelopeEncoding),
                        }
                    },
                    None => {
                        proof {
                            lemma_no_canonical(b@);
                        }
                        match scan_object(b) {
                            None => Err(EnvelopeError::InvalidEnvelopeEncoding),
                            Some((cur, leg)) => {
                                match cur {
                                    Some(raw) => {
                                        match hex_decode(raw.as_slice()) {
                                            Some(payload) => {
                                                match CurrentProof::from_bytes(payload) {
                                                    Ok(proof) => {
                                                        return Ok(PoSWProof::NonHiding(proof));
                                                    },
                                                    Err(_) => {},
                                                }
                                            },
                                            None => {},
                                        }
                                    },
                                    None => {},
                                }
                                match leg {
                                    Some(raw) => {
                                        match hex_decode(raw.as_slice()) {
                                            Some(payload) => {
                                                match LegacyProof::from_bytes(payload) {
                                                    Ok(proof) => {
                                                        return Ok(PoSWProof::Hiding(proof));
                                                    },
                                                    Err(_) => {},
                                                }
                                            },
                                            None => {},
                                        }
                                    },
                                    None => {},
                                }
                                Err(EnvelopeError::InvalidEnvelopeEncoding)
                            },
                        }
                    },
                }
            },
        }
    }

    /// Textual decode: the exact inverse of `to_string` on canonical
    /// forms, stated over the UTF-8 bytes of the input text.
    pub fn from_str(s: &str) -> (r: Result<PoSWProof, EnvelopeError>)
        ensures
            forall|payload: Seq<u8>|
                wf_payload(payload, false) && s.spec_bytes() == canonical_json(false, payload)
                    ==> (r matches Ok(p) && !p.hiding_spec() && p.payload_spec() == payload),
            forall|payload: Seq<u8>|
                wf_payload(payload, true) && payload.len() == LEGACY_PROOF_SIZE && s.spec_bytes()
                    == canonical_json(true, payload) ==> (r matches Ok(p) && p.hiding_spec()
                    && p.payload_spec() == payload),
            r matches Err(e) ==> e == EnvelopeError::InvalidEnvelopeEncoding,
    {
        PoSWProof::from_json_bytes(s.as_bytes())
    }
}

/// Two payloads with the same canonical form under one tag are the same
/// payload: the hex digits between the fixed prefix and suffix determine
/// every byte.
proof fn lemma_cancel_canonical(hiding: bool, decoded: Seq<u8>, b: Seq<u8>)
    requires
        b == canonical_json(hiding, decoded),
    ensures
        forall|payload: Seq<u8>| b == canonical_json(hiding, payload) ==> payload == decoded,
{
    assert forall|payload: Seq<u8>| b == canonical_json(hiding, payload) implies payload
        == decoded by {
        lemma_canonical_parts(hiding, payload);
        lemma_canonical_parts(hiding, decoded);
        assert(hex_seq(payload) == hex_seq(decoded));
        lemma_hex_seq_injective(payload, decoded);
    }
}

/// A byte string that is canonical under one tag is canonical under the
/// other tag for no payload at all.
proof fn lemma_other_tag_free(hiding: bool, other: bool, decoded: Seq<u8>, b: Seq<u8>)
    requires
        other == !hiding,
        b == canonical_json(hiding, decoded),
    ensures
        forall|payload: Seq<u8>| b != canonical_json(other, payload),
{
    assert forall|payload: Seq<u8>| b != canonical_json(other, payload) by {
        if b == canonical_json(other, payload) {
            lemma_tag_exclusivity(hiding, decoded);
            lemma_canonical_is_shape(!hiding, payload);
        }
    }
}

/// A byte string of neither canonical shape is the canonical form of no
/// payload under either tag.
proof fn lemma_no_canonical(b: Seq<u8>)
    requires
        !is_canonical_shape(b, false),
        !is_canonical_shape(b, true),
    ensures
        forall|payload: Seq<u8>| b != canonical_json(false, payload),
        forall|payload: Seq<u8>| b != canonical_json(true, payload),
{
    assert forall|payload: Seq<u8>| b != canonical_json(false, payload) by {
        if b == canonical_json(false, payload) {
            lemma_canonical_is_shape(false, payload);
        }
    }
    assert forall|payload: Seq<u8>| b != canonical_json(true, payload) by {
        if b == canonical_json(true, payload) {
            lemma_canonical_is_shape(true, payload);
        }
    }
}

/// Text round trip: the canonical text of an envelope is ASCII, and its
/// UTF-8 bytes are exactly the canonical human-readable bytes — so
/// parsing the text `to_string` produced recovers, by the contract of
/// `from_str`, an envelope with the same tag and the same payload.
pub proof fn lemma_text_round_trip(hiding: bool, payload: Seq<u8>, s: Seq<char>)
    requires
        s == canonical_json_chars(hiding, payload),
    ensures
        vstd::utf8::is_ascii_chars(s),
        vstd::utf8::encode_utf8(s) == canonical_json(hiding, payload),
{
    let c = canonical_json(hiding, payload);
    lemma_canonical_ascii(hiding, payload);
    assert(s.len() == c.len());
    assert forall|i: int| 0 <= i < s.len() implies '\0' <= #[trigger] s[i] <= '\u{7f}' by {
        assert(s[i] == c[i] as char);
        assert(c[i] < 128);
    }
    assert(vstd::utf8::is_ascii_chars(s));
    vstd::utf8::is_ascii_chars_encode_utf8(s);
    assert forall|i: int| 0 <= i < s.len() implies vstd::utf8::encode_utf8(s)[i] == c[i] by {
        assert(s[i] as u8 == vstd::utf8::encode_utf8(s)[i]);
        assert(s[i] == c[i] as char);
        assert((c[i] as char) as u8 == c[i]);
    }
    assert(vstd::utf8::encode_utf8(s) =~= c);
}

} // verus!
