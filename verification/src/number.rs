//! Integers of any size, held as big-endian bytes and computed by
//! `num_bigint`.

use vstd::prelude::*;
use vstd::arithmetic::power2::pow2;
use num_bigint::BigInt;
use num_bigint::Sign;

verus! {

/// 256 to the power of `n`.
pub open spec fn radix_power(n: nat) -> nat
    decreases n,
{
    if n == 0 {
        1
    } else {
        256 * radix_power((n - 1) as nat)
    }
}

/// The number that the bytes spell in base 256, most significant byte first.
pub open spec fn unsigned_value(bytes: Seq<u8>) -> nat
    decreases bytes.len(),
{
    if bytes.len() == 0 {
        0
    } else {
        unsigned_value(bytes.drop_last()) * 256 + bytes.last() as nat
    }
}

/// The number that the bytes spell in two's complement, most significant
/// byte first. No bytes spell zero.
pub open spec fn signed_value(bytes: Seq<u8>) -> int {
    if bytes.len() > 0 && bytes[0] >= 128 {
        unsigned_value(bytes) - radix_power(bytes.len())
    } else {
        unsigned_value(bytes) as int
    }
}

/// The bytes are the shortest that spell their number in two's complement,
/// and there is at least one.
pub open spec fn is_shortest_signed(bytes: Seq<u8>) -> bool {
    &&& bytes.len() >= 1
    &&& bytes.len() >= 2 ==> !(bytes[0] == 0 && bytes[1] < 128)
    &&& bytes.len() >= 2 ==> !(bytes[0] == 255 && bytes[1] >= 128)
}

/// The bytes are the shortest that spell their number in base 256, but that
/// zero is spelled by one zero byte.
pub open spec fn is_shortest_magnitude(bytes: Seq<u8>) -> bool {
    &&& bytes.len() >= 1
    &&& bytes.len() >= 2 ==> bytes[0] != 0
}

/// `<=` of `BigInt`, on two numbers read by `BigInt::from_signed_bytes_be`.
#[verifier::external_body]
pub(crate) fn number_le(x: &[u8], y: &[u8]) -> (r: bool)
    ensures
        r == (signed_value(x@) <= signed_value(y@)),
{
    BigInt::from_signed_bytes_be(x) <= BigInt::from_signed_bytes_be(y)
}

/// `BigInt::bit`, on a number read by `BigInt::from_signed_bytes_be`:
/// whether the bit at the given position of the number's two's complement
/// form is set.
#[verifier::external_body]
pub(crate) fn number_bit(x: &[u8], position: u64) -> (r: bool)
    ensures
        r == ((signed_value(x@) / (pow2(position as nat) as int)) % 2 == 1),
{
    BigInt::from_signed_bytes_be(x).bit(position)
}

/// Whether the number is odd.
pub(crate) fn number_is_odd(x: &[u8]) -> (r: bool)
    ensures
        r == (signed_value(x@) % 2 == 1),
{
    proof {
        vstd::arithmetic::power2::lemma2_to64();
    }
    number_bit(x, 0)
}

/// `>>` of `BigInt`, which rounds towards minus infinity, on a number read
/// by `BigInt::from_signed_bytes_be` and written by
/// `BigInt::to_signed_bytes_be`.
#[verifier::external_body]
pub(crate) fn number_shr(x: &[u8], bits: u8) -> (r: Vec<u8>)
    ensures
        signed_value(r@) == signed_value(x@) / (pow2(bits as nat) as int),
        is_shortest_signed(r@),
{
    (BigInt::from_signed_bytes_be(x) >> bits).to_signed_bytes_be()
}

/// `<<` of `BigInt`, on a number read by `BigInt::from_signed_bytes_be` and
/// written by `BigInt::to_signed_bytes_be`.
#[verifier::external_body]
pub(crate) fn number_shl(x: &[u8], bits: u8) -> (r: Vec<u8>)
    ensures
        signed_value(r@) == signed_value(x@) * pow2(bits as nat),
        is_shortest_signed(r@),
{
    (BigInt::from_signed_bytes_be(x) << bits).to_signed_bytes_be()
}

/// `+` of `BigInt`, on numbers read by `BigInt::from_signed_bytes_be` and
/// written by `BigInt::to_signed_bytes_be`.
#[verifier::external_body]
pub(crate) fn number_add(x: &[u8], y: &[u8]) -> (r: Vec<u8>)
    ensures
        signed_value(r@) == signed_value(x@) + signed_value(y@),
        is_shortest_signed(r@),
{
    (BigInt::from_signed_bytes_be(x) + BigInt::from_signed_bytes_be(y)).to_signed_bytes_be()
}

/// `BigInt::to_signed_bytes_be`, on a number read by
/// `BigInt::from_signed_bytes_be`: the shortest bytes that spell the number.
#[verifier::external_body]
pub(crate) fn number_shortest(x: &[u8]) -> (r: Vec<u8>)
    ensures
        signed_value(r@) == signed_value(x@),
        is_shortest_signed(r@),
{
    BigInt::from_signed_bytes_be(x).to_signed_bytes_be()
}

/// `BigInt::from_bytes_be` with a plus sign, written by
/// `BigInt::to_signed_bytes_be`: the number that the bytes spell in base 256.
#[verifier::external_body]
pub(crate) fn number_from_unsigned(x: &[u8]) -> (r: Vec<u8>)
    ensures
        signed_value(r@) == unsigned_value(x@),
        is_shortest_signed(r@),
{
    BigInt::from_bytes_be(Sign::Plus, x).to_signed_bytes_be()
}

/// `BigInt::to_bytes_be`, on a number read by
/// `BigInt::from_signed_bytes_be`: the bytes of the number's absolute value.
#[verifier::external_body]
pub(crate) fn number_magnitude(x: &[u8]) -> (r: Vec<u8>)
    ensures
        unsigned_value(r@) == (if signed_value(x@) < 0 {
            -signed_value(x@)
        } else {
            signed_value(x@)
        }),
        is_shortest_magnitude(r@),
{
    BigInt::from_signed_bytes_be(x).to_bytes_be().1
}

/// A byte more at the end multiplies by 256 and adds the byte.
pub proof fn lemma_signed_value_step(bytes: Seq<u8>)
    requires
        bytes.len() >= 2,
    ensures
        signed_value(bytes) == signed_value(bytes.drop_last()) * 256 + bytes.last(),
{
    assert(radix_power(bytes.len()) == 256 * radix_power((bytes.len() - 1) as nat));
    assert(bytes.drop_last()[0] == bytes[0]);
}

/// One byte spells the number itself.
pub proof fn lemma_value_of_byte(b: u8)
    ensures
        unsigned_value(seq![b]) == b,
        signed_value(seq![b]) == (if b >= 128 {
            b - 256
        } else {
            b as int
        }),
{
    assert(seq![b].drop_last() =~= Seq::<u8>::empty());
    assert(unsigned_value(seq![b].drop_last()) == 0);
    assert(radix_power(1) == 256) by {
        assert(radix_power(0) == 1);
    }
}

/// Bytes that start with a byte other than zero spell a number above zero.
pub proof fn lemma_unsigned_value_positive(bytes: Seq<u8>)
    requires
        bytes.len() >= 1,
        bytes[0] != 0,
    ensures
        unsigned_value(bytes) >= 1,
    decreases bytes.len(),
{
    if bytes.len() == 1 {
        assert(bytes.drop_last() =~= Seq::<u8>::empty());
        assert(unsigned_value(bytes.drop_last()) == 0);
    } else {
        lemma_unsigned_value_positive(bytes.drop_last());
    }
}

/// The bytes of a number below zero start with a byte of 128 or more, and
/// spell in base 256 the number plus 256 to the power of their length.
pub proof fn lemma_negative_as_unsigned(bytes: Seq<u8>)
    requires
        signed_value(bytes) < 0,
    ensures
        bytes.len() > 0,
        bytes[0] >= 128,
        unsigned_value(bytes) == signed_value(bytes) + radix_power(bytes.len()),
{
}

} // verus!
