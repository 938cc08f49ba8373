//! Big-endian integer fields of the wire format: the byte images of 16- and
//! 32-bit values and the values read back from bytes.
use vstd::prelude::*;

verus! {

/// The two bytes of a 16-bit big-endian field.
#[verifier::opaque]
pub open spec fn be16_bytes(n: int) -> Seq<u8> {
    seq![((n / 256) % 256) as u8, (n % 256) as u8]
}

/// The four bytes of a 32-bit big-endian field.
#[verifier::opaque]
pub open spec fn be32_bytes(n: int) -> Seq<u8> {
    seq![
        ((n / 0x1000000) % 256) as u8,
        ((n / 0x10000) % 256) as u8,
        ((n / 256) % 256) as u8,
        (n % 256) as u8,
    ]
}

/// The value of a 16-bit big-endian field.
pub open spec fn be16_val(s: Seq<u8>) -> int {
    s[0] * 256 + s[1]
}

/// The value of a 32-bit big-endian field.
pub open spec fn be32_val(s: Seq<u8>) -> int {
    s[0] * 0x1000000 + s[1] * 0x10000 + s[2] * 256 + s[3]
}

/// A 16-bit field is always two bytes.
pub broadcast proof fn lemma_be16_bytes_len(n: int)
    ensures
        (#[trigger] be16_bytes(n)).len() == 2,
{
    reveal(be16_bytes);
}

/// A 32-bit field is always four bytes.
pub broadcast proof fn lemma_be32_bytes_len(n: int)
    ensures
        (#[trigger] be32_bytes(n)).len() == 4,
{
    reveal(be32_bytes);
}

pub proof fn lemma_be16_roundtrip(n: int)
    requires
        0 <= n < 0x10000,
    ensures
        be16_bytes(n).len() == 2,
        be16_val(be16_bytes(n)) == n,
{
    reveal(be16_bytes);
    assert(n / 256 < 256) by {
        assert(n < 256 * 256);
    };
    assert((n / 256) % 256 == n / 256);
    assert(256 * (n / 256) + n % 256 == n) by {
        vstd::arithmetic::div_mod::lemma_fundamental_div_mod(n, 256);
    };
}

pub proof fn lemma_be32_roundtrip(n: int)
    requires
        0 <= n < 0x100000000,
    ensures
        be32_bytes(n).len() == 4,
        be32_val(be32_bytes(n)) == n,
{
    reveal(be32_bytes);
    vstd::arithmetic::div_mod::lemma_fundamental_div_mod(n, 256);
    vstd::arithmetic::div_mod::lemma_fundamental_div_mod(n / 256, 256);
    vstd::arithmetic::div_mod::lemma_fundamental_div_mod(n / 256 / 256, 256);
    vstd::arithmetic::div_mod::lemma_div_denominator(n, 256, 256);
    vstd::arithmetic::div_mod::lemma_div_denominator(n, 0x10000, 256);
    vstd::arithmetic::div_mod::lemma_div_denominator(n / 256, 256, 256);
    assert(n / 0x1000000 < 256) by {
        assert(n < 0x1000000 * 256);
    };
    assert((n / 0x1000000) % 256 == n / 0x1000000);
}

} // verus!
