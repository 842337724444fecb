//! Lowercase hexadecimal encoding of payload bytes, used as the nested
//! value inside the human-readable envelope form.

use vstd::prelude::*;

verus! {

/// The ASCII byte of the lowercase hex digit for a value below sixteen.
pub open spec fn hex_digit(n: u8) -> u8
    recommends
        n < 16,
{
    if n < 10 {
        (48 + n) as u8
    } else {
        (87 + n) as u8
    }
}

/// Whether an ASCII byte is a lowercase hex digit.
pub open spec fn is_hex_digit(c: u8) -> bool {
    (48 <= c <= 57) || (97 <= c <= 102)
}

/// The lowercase hex encoding of a byte sequence: two digits per byte,
/// high nibble first.
pub open spec fn hex_seq(s: Seq<u8>) -> Seq<u8> {
    Seq::new(2 * s.len(), |i: int| if i % 2 == 0 {
        hex_digit(s[i / 2] / 16)
    } else {
        hex_digit(s[i / 2] % 16)
    })
}

/// Every byte of a hex encoding is a lowercase hex digit.
pub proof fn lemma_hex_seq_digits(s: Seq<u8>)
    ensures
        forall|i: int| 0 <= i < hex_seq(s).len() ==> is_hex_digit(#[trigger] hex_seq(s)[i]),
{
}

/// Hex encoding is injective: the encoded digits determine every byte.
pub proof fn lemma_hex_seq_injective(s: Seq<u8>, t: Seq<u8>)
    requires
        hex_seq(s) == hex_seq(t),
    ensures
        s == t,
{
    assert(hex_seq(s).len() == hex_seq(t).len());
    assert(hex_seq(s).len() == 2 * s.len());
    assert(hex_seq(t).len() == 2 * t.len());
    assert(s.len() == t.len());
    assert forall|i: int| 0 <= i < s.len() implies s[i] == t[i] by {
        assert(0 <= 2 * i && 2 * i + 1 < hex_seq(s).len());
        assert(hex_seq(s)[2 * i] == hex_digit(s[i] / 16));
        assert(hex_seq(t)[2 * i] == hex_digit(t[i] / 16));
        assert(hex_seq(s)[2 * i + 1] == hex_digit(s[i] % 16));
        assert(hex_seq(t)[2 * i + 1] == hex_digit(t[i] % 16));
        assert(s[i] / 16 == t[i] / 16);
        assert(s[i] % 16 == t[i] % 16);
        assert(s[i] == (s[i] / 16) * 16 + s[i] % 16) by (nonlinear_arith);
        assert(t[i] == (t[i] / 16) * 16 + t[i] % 16) by (nonlinear_arith);
    }
    assert(s =~= t);
}

/// Encodes bytes as lowercase hex, two digits per byte.
pub fn hex_encode(v: &[u8]) -> (r: Vec<u8>)
    ensures
        r@ == hex_seq(v@),
{
    let n = v.len();
    let mut out: Vec<u8> = Vec::new();
    let mut i: usize = 0;
    while i < n
        invariant
            n == v@.len(),
            i <= n,
            out@.len() == 2 * i,
            forall|j: int| 0 <= j < out@.len() ==> out@[j] == #[trigger] hex_seq(v@)[j],
        decreases n - i,
    {
        let b = *vstd::slice::slice_index_get(v, i);
        let hi = b / 16;
        let lo = b % 16;
        let hc: u8 = if hi < 10 { 48 + hi } else { 87 + hi };
        let lc: u8 = if lo < 10 { 48 + lo } else { 87 + lo };
        out.push(hc);
        out.push(lc);
        assert(out@[2 * i as int] == hex_seq(v@)[2 * i as int]);
        assert(out@[2 * i as int + 1] == hex_seq(v@)[2 * i as int + 1]);
        i += 1;
    }
    assert(out@ =~= hex_seq(v@));
    out
}

/// Decodes lowercase hex. Succeeds exactly on even-length strings of
/// lowercase hex digits, and is a right inverse of the encoder.
pub fn hex_decode(v: &[u8]) -> (r: Option<Vec<u8>>)
    ensures
        match r {
            Some(p) => hex_seq(p@) == v@,
            None => !(v@.len() % 2 == 0 && forall|i: int|
                0 <= i < v@.len() ==> is_hex_digit(#[trigger] v@[i])),
        },
{
    let n = v.len();
    if n % 2 != 0 {
        return None;
    }
    let mut out: Vec<u8> = Vec::new();
    let mut i: usize = 0;
    while i < n
        invariant
            n == v@.len(),
            n % 2 == 0,
            i <= n,
            i % 2 == 0,
            out@.len() * 2 == i,
            forall|j: int| 0 <= j < i ==> is_hex_digit(#[trigger] v@[j]),
            forall|j: int| 0 <= j < out@.len() ==> #[trigger] hex_seq(out@)[2 * j] == v@[2 * j]
                && hex_seq(out@)[2 * j + 1] == v@[2 * j + 1],
        decreases n - i,
    {
        let hc = *vstd::slice::slice_index_get(v, i);
        let lc = *vstd::slice::slice_index_get(v, i + 1);
        let hi: u8 = if 48 <= hc && hc <= 57 {
            hc - 48
        } else if 97 <= hc && hc <= 102 {
            hc - 87
        } else {
            return None;
        };
        let lo: u8 = if 48 <= lc && lc <= 57 {
            lc - 48
        } else if 97 <= lc && lc <= 102 {
            lc - 87
        } else {
            return None;
        };
        let ghost old_out = out@;
        out.push(hi * 16 + lo);
        assert forall|j: int| 0 <= j < out@.len() implies #[trigger] hex_seq(out@)[2 * j]
            == v@[2 * j] && hex_seq(out@)[2 * j + 1] == v@[2 * j + 1] by {
            if j < old_out.len() {
                assert(hex_seq(old_out)[2 * j] == v@[2 * j]);
                assert(hex_seq(old_out)[2 * j + 1] == v@[2 * j + 1]);
            } else {
                assert(out@[j] == hi * 16 + lo);
                assert((hi * 16 + lo) / 16 == hi && (hi * 16 + lo) % 16 == lo) by (nonlinear_arith)
                    requires hi < 16 && lo < 16;
            }
        }
        i += 2;
    }
    assert(hex_seq(out@).len() == v@.len());
    assert forall|k: int| 0 <= k < v@.len() implies hex_seq(out@)[k] == v@[k] by {
        let j = k / 2;
        assert(0 <= j < out@.len());
        if k % 2 == 0 {
            assert(k == 2 * j);
            assert(hex_seq(out@)[2 * j] == v@[2 * j]);
        } else {
            assert(k == 2 * j + 1);
            assert(hex_seq(out@)[2 * j] == v@[2 * j]);
            assert(hex_seq(out@)[2 * j + 1] == v@[2 * j + 1]);
        }
    }
    assert(hex_seq(out@) =~= v@);
    Some(out)
}

} // verus!
