//! Instructions on the persistent storage.

use vstd::prelude::*;

use crate::operations::{peek, pop1, pop2, popped};
use crate::table::Storage;
use crate::word::Word;

verus! {

/// What the storage holds under `key`; zero for a key that was never
/// written.
pub open spec fn stored(storage: Map<Word, Word>, key: Word) -> Word {
    if storage.dom().contains(key) {
        storage[key]
    } else {
        Word::from_nat(0)
    }
}

/// Takes a key and a value off the stack and writes the value under the
/// key.
pub fn storage_store(stack: &mut Vec<Word>, storage: &mut Storage)
    requires
        old(stack).len() >= 2,
    ensures
        final(stack)@ == popped(old(stack)@, 2),
        final(storage)@ == old(storage)@.insert(peek(old(stack)@, 0), peek(old(stack)@, 1)),
{
    let (key, value) = pop2(stack);
    storage.insert(key, value);
}

/// Takes a key off the stack and pushes what the storage holds under it.
pub fn storage_load(stack: &mut Vec<Word>, storage: &mut Storage)
    requires
        old(stack).len() >= 1,
    ensures
        final(stack)@ == popped(old(stack)@, 1).push(stored(old(storage)@, peek(old(stack)@, 0))),
        final(storage)@ == old(storage)@,
{
    let key = pop1(stack);
    let value = match storage.get(&key) {
        Some(v) => v,
        None => Word::zero(),
    };
    stack.push(value);
}

} // verus!
