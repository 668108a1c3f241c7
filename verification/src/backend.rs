//! The calls into the big-integer crates. Every function here is believed,
//! not proved: its body hands the limbs to the outside type, makes one call
//! and takes the limbs back.

use arrow_buffer::i256;
use primitive_types::U256;
use sha3::{Digest, Keccak256};
use vstd::arithmetic::power::pow;
use vstd::arithmetic::power2::pow2;
use vstd::prelude::*;

use crate::arith::{truncated_quotient, truncated_remainder};
use crate::bytes::{be_bytes, be_value};
use crate::word::{modulus, sign_bit, Word};

verus! {

/// The Keccak-256 digest of a byte string.
pub uninterp spec fn keccak256_digest(data: Seq<u8>) -> Seq<u8>;

/// The text that `hex::encode` gives for a byte string: two lower-case
/// hexadecimal digits for each byte, the high one first.
pub open spec fn hex_string(bytes: Seq<u8>) -> Seq<char>
    decreases bytes.len(),
{
    if bytes.len() == 0 {
        Seq::empty()
    } else {
        hex_string(bytes.drop_last()).push(hex_digit(bytes.last() / 16)).push(
            hex_digit(bytes.last() % 16),
        )
    }
}

/// The lower-case hexadecimal digit for a number below 16.
pub open spec fn hex_digit(n: u8) -> char {
    seq!['0', '1', '2', '3', '4', '5', '6', '7', '8', '9', 'a', 'b', 'c', 'd', 'e', 'f'][n as int]
}

/// `Keccak256::digest`: the digest of the bytes, which is 32 bytes long.
#[verifier::external_body]
pub(crate) fn keccak256_bytes(data: &[u8]) -> (r: Vec<u8>)
    ensures
        r@ == keccak256_digest(data@),
        r@.len() == 32,
{
    Keccak256::digest(data).to_vec()
}

/// `hex::encode`: the bytes as lower-case hexadecimal text.
#[verifier::external_body]
pub(crate) fn hex_encode(data: &[u8]) -> (r: String)
    ensures
        r@ == hex_string(data@),
{
    hex::encode(data)
}

/// `U256::overflowing_add`, first component: the sum modulo two to the
/// power 256.
#[verifier::external_body]
pub(crate) fn uint_add(a: Word, b: Word) -> (r: Word)
    ensures
        r@ == (a@ + b@) % modulus(),
{
    let (s, _) = U256([a.w0, a.w1, a.w2, a.w3]).overflowing_add(U256([b.w0, b.w1, b.w2, b.w3]));
    Word { w0: s.0[0], w1: s.0[1], w2: s.0[2], w3: s.0[3] }
}

/// `U256::overflowing_sub`, first component: the difference modulo two to
/// the power 256.
#[verifier::external_body]
pub(crate) fn uint_sub(a: Word, b: Word) -> (r: Word)
    ensures
        r@ == (a@ - b@) % (modulus() as int),
{
    let (s, _) = U256([a.w0, a.w1, a.w2, a.w3]).overflowing_sub(U256([b.w0, b.w1, b.w2, b.w3]));
    Word { w0: s.0[0], w1: s.0[1], w2: s.0[2], w3: s.0[3] }
}

/// `U256::overflowing_mul`, first component: the product modulo two to the
/// power 256.
#[verifier::external_body]
pub(crate) fn uint_mul(a: Word, b: Word) -> (r: Word)
    ensures
        r@ == (a@ * b@) % modulus(),
{
    let (s, _) = U256([a.w0, a.w1, a.w2, a.w3]).overflowing_mul(U256([b.w0, b.w1, b.w2, b.w3]));
    Word { w0: s.0[0], w1: s.0[1], w2: s.0[2], w3: s.0[3] }
}

/// `U256`'s `/`: the quotient rounded down. The outside function panics on
/// a zero divisor, which is left out.
#[verifier::external_body]
pub(crate) fn uint_div(a: Word, b: Word) -> (r: Word)
    requires
        b@ != 0,
    ensures
        r@ == a@ / b@,
{
    let s = U256([a.w0, a.w1, a.w2, a.w3]) / U256([b.w0, b.w1, b.w2, b.w3]);
    Word { w0: s.0[0], w1: s.0[1], w2: s.0[2], w3: s.0[3] }
}

/// `U256`'s `%`: the remainder. The outside function panics on a zero
/// divisor, which is left out.
#[verifier::external_body]
pub(crate) fn uint_rem(a: Word, b: Word) -> (r: Word)
    requires
        b@ != 0,
    ensures
        r@ == a@ % b@,
{
    let s = U256([a.w0, a.w1, a.w2, a.w3]) % U256([b.w0, b.w1, b.w2, b.w3]);
    Word { w0: s.0[0], w1: s.0[1], w2: s.0[2], w3: s.0[3] }
}

/// `U256::overflowing_pow`, first component: the power modulo two to the
/// power 256, with zero to the power zero read as one.
#[verifier::external_body]
pub(crate) fn uint_pow(a: Word, e: Word) -> (r: Word)
    ensures
        r@ == pow(a@ as int, e@) % (modulus() as int),
{
    let (s, _) = U256([a.w0, a.w1, a.w2, a.w3]).overflowing_pow(U256([e.w0, e.w1, e.w2, e.w3]));
    Word { w0: s.0[0], w1: s.0[1], w2: s.0[2], w3: s.0[3] }
}

/// `U256`'s `<<` by a `usize`: the bits move up, those that leave the word
/// are lost, and a shift by 256 or more gives zero.
#[verifier::external_body]
pub(crate) fn uint_shl(a: Word, n: usize) -> (r: Word)
    ensures
        n < 256 ==> r@ == (a@ * pow2(n as nat)) % modulus(),
        n >= 256 ==> r@ == 0,
{
    let s = U256([a.w0, a.w1, a.w2, a.w3]) << n;
    Word { w0: s.0[0], w1: s.0[1], w2: s.0[2], w3: s.0[3] }
}

/// `U256`'s `>>` by a `usize`: the bits move down, and a shift by 256 or
/// more gives zero.
#[verifier::external_body]
pub(crate) fn uint_shr(a: Word, n: usize) -> (r: Word)
    ensures
        n < 256 ==> r@ == a@ / pow2(n as nat),
        n >= 256 ==> r@ == 0,
{
    let s = U256([a.w0, a.w1, a.w2, a.w3]) >> n;
    Word { w0: s.0[0], w1: s.0[1], w2: s.0[2], w3: s.0[3] }
}

/// `U256::to_big_endian`: the 32 bytes of the word, most significant first.
#[verifier::external_body]
pub(crate) fn uint_to_be(a: Word) -> (r: Vec<u8>)
    ensures
        r@ == be_bytes(a@, 32),
{
    let mut out = [0u8; 32];
    U256([a.w0, a.w1, a.w2, a.w3]).to_big_endian(&mut out);
    out.to_vec()
}

/// `U256::from_big_endian`: the number that up to 32 bytes stand for, most
/// significant first. The outside function panics on a longer slice, which
/// is left out.
#[verifier::external_body]
pub(crate) fn uint_from_be(bytes: &[u8]) -> (r: Word)
    requires
        bytes@.len() <= 32,
    ensures
        r@ == be_value(bytes@),
{
    let s = U256::from_big_endian(bytes);
    Word { w0: s.0[0], w1: s.0[1], w2: s.0[2], w3: s.0[3] }
}

/// `i256::wrapping_div` on the two's-complement readings: the quotient
/// rounded towards zero, brought back into the word; the least number
/// divided by minus one gives the least number. The outside function panics
/// on a zero divisor, which is left out.
#[verifier::external_body]
pub(crate) fn int_div(a: Word, b: Word) -> (r: Word)
    requires
        b@ != 0,
    ensures
        r == Word::from_int(truncated_quotient(a.signed(), b.signed())),
{
    let x = i256::from_be_bytes(U256([a.w0, a.w1, a.w2, a.w3]).into());
    let y = i256::from_be_bytes(U256([b.w0, b.w1, b.w2, b.w3]).into());
    let s = U256::from(x.wrapping_div(y).to_be_bytes());
    Word { w0: s.0[0], w1: s.0[1], w2: s.0[2], w3: s.0[3] }
}

/// `i256::wrapping_rem` on the two's-complement readings: the remainder
/// with the sign of the dividend, brought back into the word. The outside
/// function panics on a zero divisor, which is left out.
#[verifier::external_body]
pub(crate) fn int_rem(a: Word, b: Word) -> (r: Word)
    requires
        b@ != 0,
    ensures
        r == Word::from_int(truncated_remainder(a.signed(), b.signed())),
{
    let x = i256::from_be_bytes(U256([a.w0, a.w1, a.w2, a.w3]).into());
    let y = i256::from_be_bytes(U256([b.w0, b.w1, b.w2, b.w3]).into());
    let s = U256::from(x.wrapping_rem(y).to_be_bytes());
    Word { w0: s.0[0], w1: s.0[1], w2: s.0[2], w3: s.0[3] }
}

/// `i256`'s `<`: the order of the two's-complement readings.
#[verifier::external_body]
pub(crate) fn int_lt(a: Word, b: Word) -> (r: bool)
    ensures
        r == (a.signed() < b.signed()),
{
    let x = i256::from_be_bytes(U256([a.w0, a.w1, a.w2, a.w3]).into());
    let y = i256::from_be_bytes(U256([b.w0, b.w1, b.w2, b.w3]).into());
    x < y
}

/// `i256::is_negative`: whether the top bit of the word is set.
#[verifier::external_body]
pub(crate) fn int_is_negative(a: Word) -> (r: bool)
    ensures
        r == (a@ >= sign_bit()),
{
    i256::from_be_bytes(U256([a.w0, a.w1, a.w2, a.w3]).into()).is_negative()
}

} // verus!
