//! Instructions that put words on the stack or move them about.

use vstd::prelude::*;
use vstd::slice::slice_subrange;

use crate::bytes::word_of_bytes;
use crate::operations::peek;
use crate::word::Word;

verus! {

/// Pushes the word that the `n_bytes` bytes of `bytes` from `from_byte` on
/// stand for, most significant first.
pub fn push(from_byte: usize, n_bytes: usize, bytes: &Vec<u8>, stack: &mut Vec<Word>)
    requires
        n_bytes <= 32,
        from_byte + n_bytes <= bytes.len(),
    ensures
        final(stack)@ == old(stack)@.push(
            word_of_bytes(bytes@.subrange(from_byte as int, from_byte + n_bytes)),
        ),
{
    let value = Word::from_be_bytes(slice_subrange(bytes.as_slice(), from_byte, from_byte + n_bytes));
    stack.push(value);
}

/// Pushes a copy of the word `offset` places from the top, counting the top
/// as place 1.
pub fn duplicate(offset: usize, stack: &mut Vec<Word>)
    requires
        1 <= offset <= old(stack).len(),
    ensures
        final(stack)@ == old(stack)@.push(peek(old(stack)@, offset - 1)),
{
    let value_idx: usize = stack.len() - offset;
    let value = stack[value_idx];
    stack.push(value);
}

/// Exchanges the top word with the one `offset` places below it.
pub fn swap(offset: usize, stack: &mut Vec<Word>)
    requires
        offset < old(stack).len(),
    ensures
        final(stack)@ == old(stack)@.update(old(stack).len() - 1, peek(old(stack)@, offset as int)).update(
            old(stack).len() - 1 - offset,
            peek(old(stack)@, 0),
        ),
{
    let top_idx: usize = stack.len() - 1;
    let value_idx: usize = stack.len() - offset - 1;
    let value = stack[value_idx];
    let top_value = stack[top_idx];
    stack.set(top_idx, value);
    stack.set(value_idx, top_value);
}

} // verus!
