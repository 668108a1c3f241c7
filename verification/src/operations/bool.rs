//! Bitwise instructions and shifts.

use vstd::prelude::*;

use crate::arith::{
    bit_and, bit_not, bit_or, bit_xor, byte_at, shifted_left, shifted_right, shifted_right_signed,
};
use crate::operations::{peek, pop1, pop2, popped};
use crate::word::Word;

verus! {

/// Flips every bit of the top word.
pub fn not(stack: &mut Vec<Word>)
    requires
        old(stack).len() >= 1,
    ensures
        final(stack)@ == popped(old(stack)@, 1).push(bit_not(peek(old(stack)@, 0))),
{
    let n = pop1(stack);
    stack.push(n.bitnot());
}

/// The bits that the top two words both have set.
pub fn and(stack: &mut Vec<Word>)
    requires
        old(stack).len() >= 2,
    ensures
        final(stack)@ == popped(old(stack)@, 2).push(
            bit_and(peek(old(stack)@, 0), peek(old(stack)@, 1)),
        ),
{
    let (n1, n2) = pop2(stack);
    stack.push(n1.bitand(n2));
}

/// The bits that either of the top two words has set.
pub fn or(stack: &mut Vec<Word>)
    requires
        old(stack).len() >= 2,
    ensures
        final(stack)@ == popped(old(stack)@, 2).push(
            bit_or(peek(old(stack)@, 0), peek(old(stack)@, 1)),
        ),
{
    let (n1, n2) = pop2(stack);
    stack.push(n1.bitor(n2));
}

/// The bits that exactly one of the top two words has set.
pub fn xor(stack: &mut Vec<Word>)
    requires
        old(stack).len() >= 2,
    ensures
        final(stack)@ == popped(old(stack)@, 2).push(
            bit_xor(peek(old(stack)@, 0), peek(old(stack)@, 1)),
        ),
{
    let (n1, n2) = pop2(stack);
    stack.push(n1.bitxor(n2));
}

/// The byte of the second word that the top word points at, counted from
/// the most significant one; zero for an index above 32. An index of
/// exactly 32 is no input of this function.
pub fn byte(stack: &mut Vec<Word>)
    requires
        old(stack).len() >= 2,
        peek(old(stack)@, 0)@ != 32,
    ensures
        final(stack)@ == popped(old(stack)@, 2).push(
            byte_at(peek(old(stack)@, 0), peek(old(stack)@, 1)),
        ),
{
    let (index, n) = pop2(stack);
    stack.push(n.byte(index));
}

/// The second word moved up by as many bits as the top word says.
pub fn shl(stack: &mut Vec<Word>)
    requires
        old(stack).len() >= 2,
    ensures
        final(stack)@ == popped(old(stack)@, 2).push(
            shifted_left(peek(old(stack)@, 0), peek(old(stack)@, 1)),
        ),
{
    let (shift, n) = pop2(stack);
    stack.push(n.shl(shift));
}

/// The second word moved down by as many bits as the top word says.
pub fn shr(stack: &mut Vec<Word>)
    requires
        old(stack).len() >= 2,
    ensures
        final(stack)@ == popped(old(stack)@, 2).push(
            shifted_right(peek(old(stack)@, 0), peek(old(stack)@, 1)),
        ),
{
    let (shift, n) = pop2(stack);
    stack.push(n.shr(shift));
}

/// The second word moved down by as many bits as the top word says, the
/// sign bit filling in.
pub fn sar(stack: &mut Vec<Word>)
    requires
        old(stack).len() >= 2,
    ensures
        final(stack)@ == popped(old(stack)@, 2).push(
            shifted_right_signed(peek(old(stack)@, 0), peek(old(stack)@, 1)),
        ),
{
    let (shift, n) = pop2(stack);
    stack.push(n.sar(shift));
}

} // verus!
