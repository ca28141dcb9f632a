//! Byte-level helpers shared by the credential hasher and the session keyring:
//! lowercase hexadecimal text for session tokens, and a comparison whose running
//! time does not depend on where two byte strings first differ.
use vstd::prelude::*;

verus! {

/// The ASCII code of the lowercase hexadecimal digit for `n` (`n < 16`).
pub open spec fn hex_digit(n: u8) -> u8 {
    if n < 10 {
        (48 + n) as u8
    } else {
        (87 + n) as u8
    }
}

/// `h` is the lowercase hexadecimal text of `b`: two digits per byte, high nibble first.
pub open spec fn is_hex_of(h: Seq<u8>, b: Seq<u8>) -> bool {
    &&& h.len() == 2 * b.len()
    &&& forall|k: int|
        0 <= k < b.len() ==> {
            &&& #[trigger] h[2 * k] == hex_digit(b[k] / 16)
            &&& h[2 * k + 1] == hex_digit(b[k] % 16)
        }
}

/// Every byte of `h` is a lowercase hexadecimal digit.
pub open spec fn all_hex_digits(h: Seq<u8>) -> bool {
    forall|j: int| 0 <= j < h.len() ==> is_hex_digit(#[trigger] h[j])
}

pub open spec fn is_hex_digit(c: u8) -> bool {
    (48 <= c <= 57) || (97 <= c <= 102)
}

fn hex_digit_exec(n: u8) -> (r: u8)
    requires
        n < 16,
    ensures
        r == hex_digit(n),
        is_hex_digit(r),
{
    if n < 10 {
        48 + n
    } else {
        87 + n
    }
}

/// Lowercase hexadecimal text of `bytes`.
pub fn to_hex(bytes: &[u8]) -> (r: Vec<u8>)
    requires
        bytes@.len() <= usize::MAX / 2,
    ensures
        is_hex_of(r@, bytes@),
        all_hex_digits(r@),
{
    let mut out: Vec<u8> = Vec::new();
    let mut i: usize = 0;
    while i < bytes.len()
        invariant
            i <= bytes@.len() <= usize::MAX / 2,
            out@.len() == 2 * i,
            forall|k: int|
                0 <= k < i ==> {
                    &&& #[trigger] out@[2 * k] == hex_digit(bytes@[k] / 16)
                    &&& out@[2 * k + 1] == hex_digit(bytes@[k] % 16)
                },
            all_hex_digits(out@),
        decreases bytes@.len() - i,
    {
        let b = bytes[i];
        out.push(hex_digit_exec(b / 16));
        out.push(hex_digit_exec(b % 16));
        i = i + 1;
    }
    out
}

proof fn lemma_or_xor_zero(acc: u8, x: u8, y: u8)
    ensures
        (acc | (x ^ y)) == 0 <==> (acc == 0 && x == y),
{
    assert((acc | (x ^ y)) == 0 <==> (acc == 0 && x == y)) by (bit_vector);
}

/// Equality of two byte strings. When the lengths agree, every byte is
/// examined, whatever the contents, so the time taken reveals nothing about
/// the position of a mismatch.
pub fn ct_eq(a: &[u8], b: &[u8]) -> (r: bool)
    ensures
        r == (a@ == b@),
{
    if a.len() != b.len() {
        return false;
    }
    let mut acc: u8 = 0;
    let mut i: usize = 0;
    while i < a.len()
        invariant
            i <= a@.len() == b@.len(),
            (acc == 0) <==> (forall|j: int| 0 <= j < i ==> a@[j] == b@[j]),
        decreases a@.len() - i,
    {
        proof {
            lemma_or_xor_zero(acc, a@[i as int], b@[i as int]);
        }
        acc = acc | (a[i] ^ b[i]);
        proof {
            if acc == 0 {
                assert forall|j: int| 0 <= j < i + 1 implies a@[j] == b@[j] by {
                    if j < i {
                    }
                }
            }
        }
        i = i + 1;
    }
    if acc == 0 {
        assert(a@ =~= b@);
        true
    } else {
        false
    }
}

} // verus!
