//! Hexadecimal rendering of contract code.
use vstd::prelude::*;

verus! {

/// The lowercase hexadecimal digit of a value below sixteen.
pub open spec fn hex_digit(v: u8) -> char {
    if v < 10 {
        (48 + v) as char
    } else {
        (87 + v) as char
    }
}

/// Two lowercase hexadecimal digits for each byte, high nibble first.
pub open spec fn hex_spec(b: Seq<u8>) -> Seq<char>
    decreases b.len(),
{
    if b.len() == 0 {
        Seq::empty()
    } else {
        hex_spec(b.drop_last()).push(hex_digit(b.last() / 16)).push(hex_digit(b.last() % 16))
    }
}

/// Relies on hex::encode: two lowercase digits per byte, high nibble first,
/// from the alphabet `0123456789abcdef`.
#[verifier::external_body]
fn encode_hex(b: &[u8]) -> (r: String)
    ensures
        r@ == hex_spec(b@),
{
    hex::encode(b)
}

/// Contract code as lowercase hexadecimal digits, without a prefix.
pub fn code_hex(code: &[u8]) -> (r: String)
    ensures
        r@ == hex_spec(code@),
        r@.len() == 2 * code@.len(),
{
    let r = encode_hex(code);
    proof {
        lemma_hex_len(code@);
    }
    r
}

proof fn lemma_hex_len(b: Seq<u8>)
    ensures
        hex_spec(b).len() == 2 * b.len(),
    decreases b.len(),
{
    if b.len() > 0 {
        lemma_hex_len(b.drop_last());
    }
}

} // verus!
