//! The instructions, one function each, on the operand stack and on what
//! else an instruction touches.

pub mod balance;
pub mod bool;
pub mod call;
pub mod code;
pub mod contracts;
pub mod control_flow;
pub mod hash;
pub mod log;
pub mod math;
pub mod memory;
pub mod push;
pub mod storage;
pub mod system_operations;

use vstd::prelude::*;

use crate::word::Word;

verus! {

/// The word `i` places below the top of the stack; the top is place 0.
pub open spec fn peek(s: Seq<Word>, i: int) -> Word {
    s[s.len() - 1 - i]
}

/// The stack without its top `n` words.
pub open spec fn popped(s: Seq<Word>, n: int) -> Seq<Word> {
    s.take(s.len() - n)
}

/// Takes the top word off the stack.
pub(crate) fn pop1(stack: &mut Vec<Word>) -> (r: Word)
    requires
        old(stack).len() >= 1,
    ensures
        final(stack)@ == popped(old(stack)@, 1),
        r == peek(old(stack)@, 0),
{
    stack.pop().unwrap()
}

/// Takes the top two words off the stack, the top first.
pub(crate) fn pop2(stack: &mut Vec<Word>) -> (r: (Word, Word))
    requires
        old(stack).len() >= 2,
    ensures
        final(stack)@ == popped(old(stack)@, 2),
        r.0 == peek(old(stack)@, 0),
        r.1 == peek(old(stack)@, 1),
{
    let a = stack.pop().unwrap();
    let b = stack.pop().unwrap();
    assert(stack@ =~= popped(old(stack)@, 2));
    (a, b)
}

/// Takes the top three words off the stack, the top first.
pub(crate) fn pop3(stack: &mut Vec<Word>) -> (r: (Word, Word, Word))
    requires
        old(stack).len() >= 3,
    ensures
        final(stack)@ == popped(old(stack)@, 3),
        r.0 == peek(old(stack)@, 0),
        r.1 == peek(old(stack)@, 1),
        r.2 == peek(old(stack)@, 2),
{
    let a = stack.pop().unwrap();
    let b = stack.pop().unwrap();
    let c = stack.pop().unwrap();
    assert(stack@ =~= popped(old(stack)@, 3));
    (a, b, c)
}

} // verus!
