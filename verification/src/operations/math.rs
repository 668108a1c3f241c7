//! Arithmetic and comparison instructions.

use vstd::prelude::*;

use crate::arith::{
    difference, power, product, product_mod, quotient, remainder, sign_extended, signed_quotient,
    signed_remainder, sum, sum_mod,
};
use crate::operations::{peek, pop1, pop2, pop3, popped};
use crate::word::Word;

verus! {

/// The sum of the top two words.
pub fn add(stack: &mut Vec<Word>)
    requires
        old(stack).len() >= 2,
    ensures
        final(stack)@ == popped(old(stack)@, 2).push(
            sum(peek(old(stack)@, 0), peek(old(stack)@, 1)),
        ),
{
    let (n1, n2) = pop2(stack);
    stack.push(n1.wrapping_add(n2));
}

/// The product of the top two words.
pub fn mul(stack: &mut Vec<Word>)
    requires
        old(stack).len() >= 2,
    ensures
        final(stack)@ == popped(old(stack)@, 2).push(
            product(peek(old(stack)@, 0), peek(old(stack)@, 1)),
        ),
{
    let (n1, n2) = pop2(stack);
    stack.push(n1.wrapping_mul(n2));
}

/// The top word minus the one below it.
pub fn sub(stack: &mut Vec<Word>)
    requires
        old(stack).len() >= 2,
    ensures
        final(stack)@ == popped(old(stack)@, 2).push(
            difference(peek(old(stack)@, 0), peek(old(stack)@, 1)),
        ),
{
    let (n1, n2) = pop2(stack);
    stack.push(n1.wrapping_sub(n2));
}

/// The top word divided by the one below it; zero for a zero divisor.
pub fn div(stack: &mut Vec<Word>)
    requires
        old(stack).len() >= 2,
    ensures
        final(stack)@ == popped(old(stack)@, 2).push(
            quotient(peek(old(stack)@, 0), peek(old(stack)@, 1)),
        ),
        peek(old(stack)@, 1)@ == 0 ==> peek(final(stack)@, 0)@ == 0,
{
    let (n1, n2) = pop2(stack);
    stack.push(n1.div_or_zero(n2));
}

/// The top word modulo the one below it; zero for a zero divisor.
pub fn modulo(stack: &mut Vec<Word>)
    requires
        old(stack).len() >= 2,
    ensures
        final(stack)@ == popped(old(stack)@, 2).push(
            remainder(peek(old(stack)@, 0), peek(old(stack)@, 1)),
        ),
        peek(old(stack)@, 1)@ == 0 ==> peek(final(stack)@, 0)@ == 0,
{
    let (n1, n2) = pop2(stack);
    stack.push(n1.rem_or_zero(n2));
}

/// The top two words, each reduced by the third, then added.
pub fn addmod(stack: &mut Vec<Word>)
    requires
        old(stack).len() >= 3,
    ensures
        final(stack)@ == popped(old(stack)@, 3).push(
            sum_mod(peek(old(stack)@, 0), peek(old(stack)@, 1), peek(old(stack)@, 2)),
        ),
{
    let (n1, n2, n3) = pop3(stack);
    let res = if n3.is_zero() {
        Word::zero()
    } else {
        let a = n1.rem_or_zero(n3);
        let b = n2.rem_or_zero(n3);
        proof {
            a.lemma_view_from_nat_of(n1@ % n3@);
            b.lemma_view_from_nat_of(n2@ % n3@);
        }
        a.wrapping_add(b)
    };
    stack.push(res);
}

/// The top two words, each reduced by the third, then multiplied.
pub fn mulmod(stack: &mut Vec<Word>)
    requires
        old(stack).len() >= 3,
    ensures
        final(stack)@ == popped(old(stack)@, 3).push(
            product_mod(peek(old(stack)@, 0), peek(old(stack)@, 1), peek(old(stack)@, 2)),
        ),
{
    let (n1, n2, n3) = pop3(stack);
    let res = if n3.is_zero() {
        Word::zero()
    } else {
        let a = n1.rem_or_zero(n3);
        let b = n2.rem_or_zero(n3);
        proof {
            a.lemma_view_from_nat_of(n1@ % n3@);
            b.lemma_view_from_nat_of(n2@ % n3@);
        }
        a.wrapping_mul(b)
    };
    stack.push(res);
}

/// The top word to the power of the one below it.
pub fn exp(stack: &mut Vec<Word>)
    requires
        old(stack).len() >= 2,
    ensures
        final(stack)@ == popped(old(stack)@, 2).push(
            power(peek(old(stack)@, 0), peek(old(stack)@, 1)),
        ),
{
    let (n1, n2) = pop2(stack);
    stack.push(n1.wrapping_pow(n2));
}

/// The second word, read as a signed number of as many bytes as the top
/// word says plus one, widened to 256 bits.
pub fn signextend(stack: &mut Vec<Word>)
    requires
        old(stack).len() >= 2,
    ensures
        final(stack)@ == popped(old(stack)@, 2).push(
            sign_extended(peek(old(stack)@, 0), peek(old(stack)@, 1)),
        ),
{
    let (b, x) = pop2(stack);
    stack.push(x.sign_extend(b));
}

/// The top word divided by the one below it, both read as signed; zero for
/// a zero divisor.
pub fn signed_div(stack: &mut Vec<Word>)
    requires
        old(stack).len() >= 2,
    ensures
        final(stack)@ == popped(old(stack)@, 2).push(
            signed_quotient(peek(old(stack)@, 0), peek(old(stack)@, 1)),
        ),
        peek(old(stack)@, 1)@ == 0 ==> peek(final(stack)@, 0)@ == 0,
{
    let (n1, n2) = pop2(stack);
    stack.push(n1.signed_div_or_zero(n2));
}

/// The remainder of the top word by the one below it, both read as signed,
/// with the sign of the top word; zero for a zero divisor.
pub fn signed_modulo(stack: &mut Vec<Word>)
    requires
        old(stack).len() >= 2,
    ensures
        final(stack)@ == popped(old(stack)@, 2).push(
            signed_remainder(peek(old(stack)@, 0), peek(old(stack)@, 1)),
        ),
        peek(old(stack)@, 1)@ == 0 ==> peek(final(stack)@, 0)@ == 0,
{
    let (n1, n2) = pop2(stack);
    stack.push(n1.signed_rem_or_zero(n2));
}

/// One where the top word is below the second, else zero.
pub fn less_than(stack: &mut Vec<Word>)
    requires
        old(stack).len() >= 2,
    ensures
        final(stack)@ == popped(old(stack)@, 2).push(
            Word::from_bool(peek(old(stack)@, 0)@ < peek(old(stack)@, 1)@),
        ),
{
    let (n1, n2) = pop2(stack);
    stack.push(Word::of_bool(n1.lt(&n2)));
}

/// One where the top word is above the second, else zero.
pub fn greater_than(stack: &mut Vec<Word>)
    requires
        old(stack).len() >= 2,
    ensures
        final(stack)@ == popped(old(stack)@, 2).push(
            Word::from_bool(peek(old(stack)@, 0)@ > peek(old(stack)@, 1)@),
        ),
{
    let (n1, n2) = pop2(stack);
    stack.push(Word::of_bool(n2.lt(&n1)));
}

/// One where the top word is below the second, both read as signed, else
/// zero.
pub fn signed_less_than(stack: &mut Vec<Word>)
    requires
        old(stack).len() >= 2,
    ensures
        final(stack)@ == popped(old(stack)@, 2).push(
            Word::from_bool(peek(old(stack)@, 0).signed() < peek(old(stack)@, 1).signed()),
        ),
{
    let (n1, n2) = pop2(stack);
    stack.push(Word::of_bool(n1.signed_lt(n2)));
}

/// One where the top word is above the second, both read as signed, else
/// zero.
pub fn signed_greater_than(stack: &mut Vec<Word>)
    requires
        old(stack).len() >= 2,
    ensures
        final(stack)@ == popped(old(stack)@, 2).push(
            Word::from_bool(peek(old(stack)@, 0).signed() > peek(old(stack)@, 1).signed()),
        ),
{
    let (n1, n2) = pop2(stack);
    stack.push(Word::of_bool(n2.signed_lt(n1)));
}

/// One where the top two words are the same, else zero.
pub fn equal(stack: &mut Vec<Word>)
    requires
        old(stack).len() >= 2,
    ensures
        final(stack)@ == popped(old(stack)@, 2).push(
            Word::from_bool(peek(old(stack)@, 0) == peek(old(stack)@, 1)),
        ),
{
    let (n1, n2) = pop2(stack);
    stack.push(Word::of_bool(n1 == n2));
}

/// One where the top word is zero, else zero.
pub fn is_zero(stack: &mut Vec<Word>)
    requires
        old(stack).len() >= 1,
    ensures
        final(stack)@ == popped(old(stack)@, 1).push(Word::from_bool(peek(old(stack)@, 0)@ == 0)),
{
    let n1 = pop1(stack);
    stack.push(Word::of_bool(n1.is_zero()));
}

} // verus!
