//! Arithmetic on words: what each operation means, as a function on the
//! numbers that the words stand for, and the executable form of each.

use vstd::arithmetic::div_mod::{
    lemma_basic_div, lemma_div_multiples_vanish, lemma_fundamental_div_mod,
    lemma_fundamental_div_mod_converse,
};
use vstd::arithmetic::power::pow;
use vstd::arithmetic::power2::{lemma2_to64, lemma_pow2_adds, lemma_pow2_pos, pow2};
use vstd::prelude::*;

use crate::backend::{
    int_div, int_is_negative, int_lt, int_rem, uint_add, uint_div, uint_mul, uint_pow, uint_rem,
    uint_from_be, uint_shl, uint_shr, uint_sub, uint_to_be,
};
use crate::bytes::{be_value, bytes_of_word, lemma_be_bytes_len, word_of_bytes};
use crate::word::{modulus, sign_bit, Word};

verus! {

/// The quotient of two integers rounded towards zero.
pub open spec fn truncated_quotient(a: int, b: int) -> int {
    let q = (if a < 0 {
        -a
    } else {
        a
    }) / (if b < 0 {
        -b
    } else {
        b
    });
    if (a < 0) != (b < 0) {
        -q
    } else {
        q
    }
}

/// The remainder that goes with `truncated_quotient`: it has the sign of `a`.
pub open spec fn truncated_remainder(a: int, b: int) -> int {
    let r = (if a < 0 {
        -a
    } else {
        a
    }) % (if b < 0 {
        -b
    } else {
        b
    });
    if a < 0 {
        -r
    } else {
        r
    }
}

/// The sum modulo two to the power 256.
pub open spec fn sum(a: Word, b: Word) -> Word {
    Word::from_nat((a@ + b@) % modulus())
}

/// The difference modulo two to the power 256.
pub open spec fn difference(a: Word, b: Word) -> Word {
    Word::from_int(a@ - b@)
}

/// The product modulo two to the power 256.
pub open spec fn product(a: Word, b: Word) -> Word {
    Word::from_nat((a@ * b@) % modulus())
}

/// The quotient rounded down; zero where the divisor is zero.
pub open spec fn quotient(a: Word, b: Word) -> Word {
    if b@ == 0 {
        Word::from_nat(0)
    } else {
        Word::from_nat(a@ / b@)
    }
}

/// The remainder; zero where the divisor is zero.
pub open spec fn remainder(a: Word, b: Word) -> Word {
    if b@ == 0 {
        Word::from_nat(0)
    } else {
        Word::from_nat(a@ % b@)
    }
}

/// Both operands reduced by `n`, then added modulo two to the power 256;
/// zero where `n` is zero.
pub open spec fn sum_mod(a: Word, b: Word, n: Word) -> Word {
    if n@ == 0 {
        Word::from_nat(0)
    } else {
        Word::from_nat(((a@ % n@) + (b@ % n@)) % modulus())
    }
}

/// Both operands reduced by `n`, then multiplied modulo two to the power
/// 256; zero where `n` is zero.
pub open spec fn product_mod(a: Word, b: Word, n: Word) -> Word {
    if n@ == 0 {
        Word::from_nat(0)
    } else {
        Word::from_nat(((a@ % n@) * (b@ % n@)) % modulus())
    }
}

/// `a` to the power `e` modulo two to the power 256.
pub open spec fn power(a: Word, e: Word) -> Word {
    Word::from_int(pow(a@ as int, e@))
}

/// The signed quotient rounded towards zero; zero where the divisor is zero.
pub open spec fn signed_quotient(a: Word, b: Word) -> Word {
    if b@ == 0 {
        Word::from_nat(0)
    } else {
        Word::from_int(truncated_quotient(a.signed(), b.signed()))
    }
}

/// The signed remainder, with the sign of the dividend; zero where the
/// divisor is zero.
pub open spec fn signed_remainder(a: Word, b: Word) -> Word {
    if b@ == 0 {
        Word::from_nat(0)
    } else {
        Word::from_int(truncated_remainder(a.signed(), b.signed()))
    }
}

/// `x` read as a signed number of `8 * (b + 1)` bits and widened to 256
/// bits; `x` itself where that width is 256 or more.
pub open spec fn sign_extended(b: Word, x: Word) -> Word {
    if b@ >= 31 {
        x
    } else {
        let bits = 8 * (b@ + 1);
        let low = x@ % pow2(bits);
        if low >= pow2((bits - 1) as nat) {
            Word::from_nat((low + modulus() - pow2(bits)) as nat)
        } else {
            Word::from_nat(low)
        }
    }
}

/// `x` moved up by `s` bits; zero where `s` is 256 or more.
pub open spec fn shifted_left(s: Word, x: Word) -> Word {
    if s@ >= 256 {
        Word::from_nat(0)
    } else {
        Word::from_nat((x@ * pow2(s@)) % modulus())
    }
}

/// `x` moved down by `s` bits; zero where `s` is 256 or more.
pub open spec fn shifted_right(s: Word, x: Word) -> Word {
    if s@ >= 256 {
        Word::from_nat(0)
    } else {
        Word::from_nat(x@ / pow2(s@))
    }
}

/// The signed reading of `x` divided by two to the power `s` and rounded
/// down; where `s` is 256 or more, all ones for a negative `x` and zero
/// otherwise.
pub open spec fn shifted_right_signed(s: Word, x: Word) -> Word {
    if s@ >= 256 {
        if x@ >= sign_bit() {
            Word::from_nat((modulus() - 1) as nat)
        } else {
            Word::from_nat(0)
        }
    } else {
        Word::from_int(x.signed() / (pow2(s@) as int))
    }
}

/// Byte `i` of the 32 big-endian bytes of `x`; zero where `i` is 32 or
/// more.
pub open spec fn byte_at(i: Word, x: Word) -> Word {
    if i@ < 32 {
        Word::from_nat(bytes_of_word(x)[i@ as int] as nat)
    } else {
        Word::from_nat(0)
    }
}

/// The bits that both words have set.
pub open spec fn bit_and(a: Word, b: Word) -> Word {
    Word { w0: a.w0 & b.w0, w1: a.w1 & b.w1, w2: a.w2 & b.w2, w3: a.w3 & b.w3 }
}

/// The bits that either word has set.
pub open spec fn bit_or(a: Word, b: Word) -> Word {
    Word { w0: a.w0 | b.w0, w1: a.w1 | b.w1, w2: a.w2 | b.w2, w3: a.w3 | b.w3 }
}

/// The bits that exactly one of the words has set.
pub open spec fn bit_xor(a: Word, b: Word) -> Word {
    Word { w0: a.w0 ^ b.w0, w1: a.w1 ^ b.w1, w2: a.w2 ^ b.w2, w3: a.w3 ^ b.w3 }
}

/// Every bit flipped.
pub open spec fn bit_not(a: Word) -> Word {
    Word { w0: !a.w0, w1: !a.w1, w2: !a.w2, w3: !a.w3 }
}

/// Two to the power 256, as a literal.
pub proof fn lemma_pow2_256()
    ensures
        pow2(256) == modulus(),
{
    lemma2_to64();
    lemma_pow2_adds(64, 64);
    lemma_pow2_adds(128, 64);
    lemma_pow2_adds(192, 64);
    assert(pow2(128) == 0x1_0000_0000_0000_0000_0000_0000_0000_0000nat);
    assert(pow2(192) == 0x1_0000_0000_0000_0000_0000_0000_0000_0000_0000_0000_0000_0000nat);
}

/// Two widths that add up to 256 split two to the power 256 in two factors.
proof fn lemma_split(a: nat, b: nat)
    requires
        a + b == 256,
    ensures
        pow2(a) * pow2(b) == modulus(),
        0 < pow2(a) <= modulus(),
        0 < pow2(b) <= modulus(),
{
    lemma_pow2_256();
    lemma_pow2_adds(a, b);
    lemma_pow2_pos(a);
    lemma_pow2_pos(b);
    let p = pow2(a) as int;
    let u = pow2(b) as int;
    assert(p <= p * u && u <= p * u) by (nonlinear_arith)
        requires
            p > 0,
            u > 0,
    ;
}

/// Moving a word up by `256 - bits` and down again keeps its low `bits` bits.
proof fn lemma_low_bits(x: nat, bits: nat)
    requires
        bits <= 256,
    ensures
        ((x * pow2((256 - bits) as nat)) % modulus()) / pow2((256 - bits) as nat) == x % pow2(bits),
{
    let p = pow2(bits) as int;
    let u = pow2((256 - bits) as nat) as int;
    let m = modulus() as int;
    lemma_split(bits, (256 - bits) as nat);
    let q = x as int / p;
    let r = x as int % p;
    lemma_fundamental_div_mod(x as int, p);
    assert(x * u == q * m + r * u) by (nonlinear_arith)
        requires
            x == p * q + r,
            p * u == m,
    ;
    assert(0 <= r * u < m) by (nonlinear_arith)
        requires
            0 <= r < p,
            u > 0,
            p * u == m,
    ;
    lemma_fundamental_div_mod_converse(x * u, m, q, r * u);
    lemma_div_multiples_vanish(r, u);
    assert(r * u == u * r) by (nonlinear_arith);
}

/// All ones moved up by `k` bits: two to the power 256 minus two to the
/// power `k`.
proof fn lemma_ones_shifted(k: nat)
    requires
        k <= 256,
    ensures
        ((modulus() - 1) * pow2(k)) % (modulus() as int) == modulus() - pow2(k),
        pow2(k) <= modulus(),
{
    let p = pow2(k) as int;
    let m = modulus() as int;
    lemma_split(k, (256 - k) as nat);
    assert((m - 1) * p == (p - 1) * m + (m - p)) by (nonlinear_arith);
    lemma_fundamental_div_mod_converse((m - 1) * p, m, p - 1, m - p);
}

/// The steps of a sign extension, as facts about numbers.
proof fn lemma_sign_extension(x: nat, bits: nat, low: nat, top: nat, ones: nat, wide: nat)
    requires
        1 <= bits < 256,
        low == ((x * pow2((256 - bits) as nat)) % modulus()) / pow2((256 - bits) as nat),
        top == low / pow2((bits - 1) as nat),
        ones == (((modulus() - 1) as nat) * pow2(bits)) % modulus(),
        wide == (low + ones) % modulus(),
    ensures
        low == x % pow2(bits),
        (top == 0) == (low < pow2((bits - 1) as nat)),
        wide == low + modulus() - pow2(bits),
{
    let m = modulus() as int;
    let p = pow2(bits) as int;
    let d = pow2((bits - 1) as nat) as int;
    lemma_low_bits(x, bits);
    lemma_pow2_pos((bits - 1) as nat);
    lemma_pow2_pos(bits);
    lemma_ones_shifted(bits);
    lemma_fundamental_div_mod(low as int, d);
    if low < d {
        lemma_basic_div(low as int, d);
    } else {
        let q = low as int / d;
        assert(q != 0) by (nonlinear_arith)
            requires
                low == d * q + low as int % d,
                0 <= low as int % d < d,
                low >= d,
        ;
    }
    assert(low < p) by {
        lemma_fundamental_div_mod(x as int, p);
        assert(0 <= x as int % p < p) by (nonlinear_arith)
            requires
                p > 0,
        ;
    }
    lemma_fundamental_div_mod_converse(low + (m - p), m, 0, low + (m - p));
}

/// The steps of a signed shift to the right, as facts about numbers.
proof fn lemma_signed_shift(x: nat, n: nat, low: nat, ones: nat, filled: nat)
    requires
        x < modulus(),
        n < 256,
        low == x / pow2(n),
        ones == if n == 0 {
            0
        } else {
            (((modulus() - 1) as nat) * pow2((256 - n) as nat)) % modulus()
        },
        filled == (low + ones) % modulus(),
    ensures
        x >= sign_bit() ==> filled == ((x - modulus()) / (pow2(n) as int)) % (modulus() as int),
        x < sign_bit() ==> low == ((x as int) / (pow2(n) as int)) % (modulus() as int),
{
    let d = pow2(n) as int;
    let e = pow2((256 - n) as nat) as int;
    let m = modulus() as int;
    let xi = x as int;
    lemma_split(n, (256 - n) as nat);
    lemma_pow2_256();
    lemma_fundamental_div_mod(xi, d);
    assert(0 <= xi / d <= xi && xi / d < e) by (nonlinear_arith)
        requires
            xi == d * (xi / d) + xi % d,
            0 <= xi % d < d,
            xi >= 0,
            d > 0,
            d * e == m,
            xi < m,
    ;
    if x >= sign_bit() {
        lemma_ones_shifted((256 - n) as nat);
        assert(ones == m - e);
        assert(xi - m == (xi / d - e) * d + xi % d) by (nonlinear_arith)
            requires
                xi == d * (xi / d) + xi % d,
                d * e == m,
        ;
        lemma_fundamental_div_mod_converse(xi - m, d, xi / d - e, xi % d);
        let v = xi / d - e;
        lemma_fundamental_div_mod_converse(v, m, -1, v + m);
        lemma_fundamental_div_mod_converse((low + ones) as int, m, 0, (low + ones) as int);
    } else {
        lemma_fundamental_div_mod_converse(xi / d, m, 0, xi / d);
    }
}

impl Word {
    /// The sum modulo two to the power 256.
    pub fn wrapping_add(self, other: Word) -> (r: Word)
        ensures
            r == sum(self, other),
    {
        let r = uint_add(self, other);
        proof {
            r.lemma_view_from_nat();
        }
        r
    }

    /// The difference modulo two to the power 256.
    pub fn wrapping_sub(self, other: Word) -> (r: Word)
        ensures
            r == difference(self, other),
    {
        let r = uint_sub(self, other);
        proof {
            r.lemma_view_from_nat();
        }
        r
    }

    /// The product modulo two to the power 256.
    pub fn wrapping_mul(self, other: Word) -> (r: Word)
        ensures
            r == product(self, other),
    {
        let r = uint_mul(self, other);
        proof {
            r.lemma_view_from_nat();
        }
        r
    }

    /// Division that gives zero for a zero divisor.
    pub fn div_or_zero(self, other: Word) -> (r: Word)
        ensures
            r == quotient(self, other),
    {
        if other.is_zero() {
            Word::zero()
        } else {
            let r = uint_div(self, other);
            proof {
                r.lemma_view_from_nat();
            }
            r
        }
    }

    /// Remainder that gives zero for a zero divisor.
    pub fn rem_or_zero(self, other: Word) -> (r: Word)
        ensures
            r == remainder(self, other),
    {
        if other.is_zero() {
            Word::zero()
        } else {
            let r = uint_rem(self, other);
            proof {
                r.lemma_view_from_nat();
            }
            r
        }
    }

    /// `self` to the power `e` modulo two to the power 256.
    pub fn wrapping_pow(self, e: Word) -> (r: Word)
        ensures
            r == power(self, e),
    {
        let r = uint_pow(self, e);
        proof {
            r.lemma_view_from_nat();
        }
        r
    }

    /// Signed division that gives zero for a zero divisor.
    pub fn signed_div_or_zero(self, other: Word) -> (r: Word)
        ensures
            r == signed_quotient(self, other),
    {
        if other.is_zero() {
            Word::zero()
        } else {
            int_div(self, other)
        }
    }

    /// Signed remainder that gives zero for a zero divisor.
    pub fn signed_rem_or_zero(self, other: Word) -> (r: Word)
        ensures
            r == signed_remainder(self, other),
    {
        if other.is_zero() {
            Word::zero()
        } else {
            int_rem(self, other)
        }
    }

    /// Signed order.
    pub fn signed_lt(self, other: Word) -> (r: bool)
        ensures
            r == (self.signed() < other.signed()),
    {
        int_lt(self, other)
    }

    /// Whether the signed reading is below zero.
    pub fn is_negative(self) -> (r: bool)
        ensures
            r == (self@ >= sign_bit()),
            r == (self.signed() < 0),
    {
        int_is_negative(self)
    }

    /// The bits that both words have set.
    pub fn bitand(self, other: Word) -> (r: Word)
        ensures
            r == bit_and(self, other),
    {
        Word {
            w0: self.w0 & other.w0,
            w1: self.w1 & other.w1,
            w2: self.w2 & other.w2,
            w3: self.w3 & other.w3,
        }
    }

    /// The bits that either word has set.
    pub fn bitor(self, other: Word) -> (r: Word)
        ensures
            r == bit_or(self, other),
    {
        Word {
            w0: self.w0 | other.w0,
            w1: self.w1 | other.w1,
            w2: self.w2 | other.w2,
            w3: self.w3 | other.w3,
        }
    }

    /// The bits that exactly one of the words has set.
    pub fn bitxor(self, other: Word) -> (r: Word)
        ensures
            r == bit_xor(self, other),
    {
        Word {
            w0: self.w0 ^ other.w0,
            w1: self.w1 ^ other.w1,
            w2: self.w2 ^ other.w2,
            w3: self.w3 ^ other.w3,
        }
    }

    /// Every bit flipped.
    pub fn bitnot(self) -> (r: Word)
        ensures
            r == bit_not(self),
    {
        Word { w0: !self.w0, w1: !self.w1, w2: !self.w2, w3: !self.w3 }
    }

    /// `self` moved up by `s` bits.
    pub fn shl(self, s: Word) -> (r: Word)
        ensures
            r == shifted_left(s, self),
    {
        match s.to_usize() {
            Some(n) => {
                let r = uint_shl(self, n);
                proof {
                    r.lemma_view_from_nat();
                }
                r
            },
            None => Word::zero(),
        }
    }

    /// `self` moved down by `s` bits.
    pub fn shr(self, s: Word) -> (r: Word)
        ensures
            r == shifted_right(s, self),
    {
        match s.to_usize() {
            Some(n) => {
                let r = uint_shr(self, n);
                proof {
                    r.lemma_view_from_nat();
                }
                r
            },
            None => Word::zero(),
        }
    }

    /// `self` read as a signed number of `8 * (b + 1)` bits, widened.
    pub fn sign_extend(self, b: Word) -> (r: Word)
        ensures
            r == sign_extended(b, self),
    {
        let width: Option<usize> = b.to_usize();
        if width.is_none() {
            return self;
        }
        let k: usize = width.unwrap();
        if k >= 31 {
            return self;
        }
        let bits: usize = 8 * (k + 1);
        let up: usize = 256 - bits;
        let low = uint_shr(uint_shl(self, up), up);
        let top = uint_shr(low, bits - 1);
        let ones = uint_shl(Word::max_value(), bits);
        let wide = uint_add(low, ones);
        proof {
            lemma_sign_extension(self@, bits as nat, low@, top@, ones@, wide@);
            low.lemma_view_from_nat();
            wide.lemma_view_from_nat();
        }
        if top.is_zero() {
            low
        } else {
            wide
        }
    }

    /// `self` moved down by `s` bits, the sign bit filling in from the top.
    pub fn sar(self, s: Word) -> (r: Word)
        ensures
            r == shifted_right_signed(s, self),
    {
        let negative = int_is_negative(self);
        let amount: Option<usize> = s.to_usize();
        if amount.is_none() || amount.unwrap() >= 256 {
            return if negative {
                Word::max_value()
            } else {
                Word::zero()
            };
        }
        let n: usize = amount.unwrap();
        let low = uint_shr(self, n);
        let ones = uint_shl(Word::max_value(), 256 - n);
        let filled = uint_add(low, ones);
        proof {
            lemma_signed_shift(self@, n as nat, low@, ones@, filled@);
            low.lemma_view_from_nat();
            filled.lemma_view_from_nat();
        }
        if negative {
            filled
        } else {
            low
        }
    }

    /// Byte `index` of the 32 big-endian bytes of `self`.
    pub fn byte(self, index: Word) -> (r: Word)
        ensures
            r == byte_at(index, self),
    {
        let at: Option<usize> = index.to_usize();
        if at.is_none() || at.unwrap() >= 32 {
            return Word::zero();
        }
        let bytes = uint_to_be(self);
        proof {
            lemma_be_bytes_len(self@, 32);
        }
        Word::from_u64(bytes[at.unwrap()] as u64)
    }

    /// The word that up to 32 bytes stand for, most significant first.
    pub fn from_be_bytes(bytes: &[u8]) -> (r: Word)
        requires
            bytes@.len() <= 32,
        ensures
            r == word_of_bytes(bytes@),
            r@ == be_value(bytes@),
    {
        let r = uint_from_be(bytes);
        proof {
            r.lemma_view_from_nat();
        }
        r
    }

    /// The 32 bytes of the word, most significant first.
    pub fn to_be_bytes(self) -> (r: Vec<u8>)
        ensures
            r@ == bytes_of_word(self),
            r@.len() == 32,
    {
        proof {
            lemma_be_bytes_len(self@, 32);
        }
        uint_to_be(self)
    }

    /// The least significant byte.
    pub fn low_byte(self) -> (r: u8)
        ensures
            r == self@ % 256,
    {
        let bytes = uint_to_be(self);
        proof {
            lemma_be_bytes_len(self@, 32);
            lemma_be_bytes_len(self@ / 256, 31);
        }
        bytes[31]
    }
}

} // verus!
