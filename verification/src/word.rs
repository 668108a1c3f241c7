//! The 256-bit word: the one value type of the operand stack, of storage and
//! of most facts about the environment.

use vstd::arithmetic::div_mod::lemma_fundamental_div_mod_converse;
use vstd::prelude::*;

verus! {

/// Two to the power 255: the least word whose signed reading is negative.
pub open spec fn sign_bit() -> nat {
    0x8000_0000_0000_0000_0000_0000_0000_0000_0000_0000_0000_0000_0000_0000_0000_0000nat
}

/// Two to the power 256: one more than the largest word.
pub open spec fn modulus() -> nat {
    0x1_0000_0000_0000_0000_0000_0000_0000_0000_0000_0000_0000_0000_0000_0000_0000_0000nat
}

/// An unsigned 256-bit integer held as four 64-bit limbs, least significant
/// first.
#[derive(Clone, Copy, Debug, PartialEq, Eq, Structural, Hash)]
pub struct Word {
    pub w0: u64,
    pub w1: u64,
    pub w2: u64,
    pub w3: u64,
}

impl View for Word {
    type V = nat;

    /// The number that the four limbs stand for.
    open spec fn view(&self) -> nat {
        self.w0 as nat + self.w1 as nat * 0x1_0000_0000_0000_0000nat + self.w2 as nat
            * 0x1_0000_0000_0000_0000_0000_0000_0000_0000nat + self.w3 as nat
            * 0x1_0000_0000_0000_0000_0000_0000_0000_0000_0000_0000_0000_0000nat
    }
}

impl Word {
    /// The word that stands for `n`, read modulo two to the power 256.
    pub open spec fn from_nat(n: nat) -> Word {
        Word {
            w0: (n % 0x1_0000_0000_0000_0000nat) as u64,
            w1: ((n / 0x1_0000_0000_0000_0000nat) % 0x1_0000_0000_0000_0000nat) as u64,
            w2: ((n / 0x1_0000_0000_0000_0000_0000_0000_0000_0000nat) % 0x1_0000_0000_0000_0000nat) as u64,
            w3: ((n / 0x1_0000_0000_0000_0000_0000_0000_0000_0000_0000_0000_0000_0000nat)
                % 0x1_0000_0000_0000_0000nat) as u64,
        }
    }

    /// The word that stands for the integer `i` in two's complement.
    pub open spec fn from_int(i: int) -> Word {
        Word::from_nat((i % (modulus() as int)) as nat)
    }

    /// The two's-complement reading of the word.
    pub open spec fn signed(self) -> int {
        if self@ >= sign_bit() {
            self@ - modulus()
        } else {
            self@ as int
        }
    }

    /// One for `true`, zero for `false`.
    pub open spec fn from_bool(b: bool) -> Word {
        if b {
            Word::from_nat(1)
        } else {
            Word::from_nat(0)
        }
    }

    /// Reading a number back from the word made of it gives the number.
    pub proof fn lemma_from_nat_view(n: nat)
        requires
            n < modulus(),
        ensures
            Word::from_nat(n)@ == n,
    {
        let b: nat = 0x1_0000_0000_0000_0000nat;
        let q1: nat = n / b;
        let q2: nat = q1 / b;
        let q3: nat = q2 / b;
        assert(n == q1 * b + n % b);
        assert(q1 == q2 * b + q1 % b);
        assert(q2 == q3 * b + q2 % b);
        assert(q3 < b);
        assert(q2 == n / 0x1_0000_0000_0000_0000_0000_0000_0000_0000nat);
        assert(q3 == n / 0x1_0000_0000_0000_0000_0000_0000_0000_0000_0000_0000_0000_0000nat);
    }

    /// A word is determined by the number it stands for.
    pub proof fn lemma_view_from_nat(self)
        ensures
            Word::from_nat(self@) == self,
    {
        let b: int = 0x1_0000_0000_0000_0000int;
        let b2: int = 0x1_0000_0000_0000_0000_0000_0000_0000_0000int;
        let b3: int = 0x1_0000_0000_0000_0000_0000_0000_0000_0000_0000_0000_0000_0000int;
        let n: int = self@ as int;
        let hi1: int = self.w1 + self.w2 * b + self.w3 * b2;
        let hi2: int = self.w2 + self.w3 * b;
        lemma_fundamental_div_mod_converse(n, b, hi1, self.w0 as int);
        lemma_fundamental_div_mod_converse(hi1, b, hi2, self.w1 as int);
        lemma_fundamental_div_mod_converse(n, b2, hi2, self.w0 + self.w1 * b);
        lemma_fundamental_div_mod_converse(hi2, b, self.w3 as int, self.w2 as int);
        lemma_fundamental_div_mod_converse(
            n,
            b3,
            self.w3 as int,
            self.w0 + self.w1 * b + self.w2 * b2,
        );
        lemma_fundamental_div_mod_converse(self.w3 as int, b, 0, self.w3 as int);
    }

    /// A word that stands for `n` is the word made of `n`.
    pub proof fn lemma_view_from_nat_of(self, n: nat)
        requires
            self == Word::from_nat(n),
            n < modulus(),
        ensures
            self@ == n,
    {
        Word::lemma_from_nat_view(n);
    }

    /// The word zero.
    pub fn zero() -> (r: Word)
        ensures
            r == Word::from_nat(0),
            r@ == 0,
    {
        Word { w0: 0, w1: 0, w2: 0, w3: 0 }
    }

    /// The word one.
    pub fn one() -> (r: Word)
        ensures
            r == Word::from_nat(1),
            r@ == 1,
    {
        Word { w0: 1, w1: 0, w2: 0, w3: 0 }
    }

    /// The largest word, two to the power 256 minus one.
    pub fn max_value() -> (r: Word)
        ensures
            r == Word::from_nat((modulus() - 1) as nat),
            r@ == modulus() - 1,
    {
        Word {
            w0: 0xffff_ffff_ffff_ffff,
            w1: 0xffff_ffff_ffff_ffff,
            w2: 0xffff_ffff_ffff_ffff,
            w3: 0xffff_ffff_ffff_ffff,
        }
    }

    /// The word that stands for `x`.
    pub fn from_u64(x: u64) -> (r: Word)
        ensures
            r == Word::from_nat(x as nat),
            r@ == x,
    {
        Word { w0: x, w1: 0, w2: 0, w3: 0 }
    }

    /// The word that stands for `x`.
    pub fn from_usize(x: usize) -> (r: Word)
        ensures
            r == Word::from_nat(x as nat),
            r@ == x,
    {
        Word { w0: x as u64, w1: 0, w2: 0, w3: 0 }
    }

    /// Whether the word is zero.
    pub fn is_zero(&self) -> (r: bool)
        ensures
            r == (self@ == 0),
    {
        self.w0 == 0 && self.w1 == 0 && self.w2 == 0 && self.w3 == 0
    }

    /// The word as a `usize`, when it fits.
    pub fn to_usize(&self) -> (r: Option<usize>)
        ensures
            match r {
                Some(x) => x == self@,
                None => self@ > usize::MAX,
            },
    {
        if self.w1 == 0 && self.w2 == 0 && self.w3 == 0 && self.w0 <= usize::MAX as u64 {
            Some(self.w0 as usize)
        } else {
            None
        }
    }

    /// Unsigned order.
    pub fn lt(&self, other: &Word) -> (r: bool)
        ensures
            r == (self@ < other@),
    {
        if self.w3 != other.w3 {
            self.w3 < other.w3
        } else if self.w2 != other.w2 {
            self.w2 < other.w2
        } else if self.w1 != other.w1 {
            self.w1 < other.w1
        } else {
            self.w0 < other.w0
        }
    }

    /// One for `true`, zero for `false`.
    pub fn of_bool(b: bool) -> (r: Word)
        ensures
            r == Word::from_bool(b),
    {
        if b {
            Word::one()
        } else {
            Word::zero()
        }
    }
}

} // verus!
