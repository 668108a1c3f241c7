//! Instructions that read code: that of the running contract, or that of
//! another contract in the table.

use vstd::prelude::*;

use crate::bytes::{padded, padded_copy};
use crate::operations::memory::{write_memory, written};
use crate::operations::{peek, pop1, pop2, pop3, popped};
use crate::state::{BlockchainState, EntryView, SerializedU256};
use crate::word::Word;

verus! {

/// The code recorded for `address`; empty where the table has no entry for
/// it, or an entry without code.
pub open spec fn code_of(contracts: Map<Word, EntryView>, address: Word) -> Seq<u8> {
    if contracts.dom().contains(address) {
        contracts[address].code_or_empty()
    } else {
        Seq::empty()
    }
}

/// The code bytes recorded for `address`, if the table holds an entry for
/// it that has code with bytes.
pub fn lookup_code<'a>(state: &'a BlockchainState, address: &SerializedU256) -> (r: Option<
    &'a Vec<u8>,
>)
    ensures
        match r {
            Some(b) => state@.contracts.dom().contains(address.value)
                && state@.contracts[address.value].code == Some(Some(b@)),
            None => !state@.contracts.dom().contains(address.value) || !(
            state@.contracts[address.value].code matches Some(Some(_))),
        },
{
    match state.contracts_state.get(address) {
        Some(entry) => match &entry.code {
            Some(c) => match &c.bin {
                Some(b) => Some(&b.value),
                None => None,
            },
            None => None,
        },
        None => None,
    }
}

/// Takes a memory offset, a code offset and a size off the stack and copies
/// that many bytes of the running code into memory, with zero for every
/// byte past the end of the code.
pub fn code_copy(stack: &mut Vec<Word>, memory: &mut Vec<u8>, code: &Vec<u8>)
    requires
        old(stack).len() >= 3,
        peek(old(stack)@, 0)@ + peek(old(stack)@, 2)@ + 31 <= usize::MAX,
    ensures
        final(stack)@ == popped(old(stack)@, 3),
        final(memory)@ == written(
            old(memory)@,
            peek(old(stack)@, 0)@,
            padded(code@, peek(old(stack)@, 1)@, peek(old(stack)@, 2)@),
        ),
{
    let (dest, offset, size) = pop3(stack);
    let memory_dest_offset: usize = dest.to_usize().unwrap();
    let size: usize = size.to_usize().unwrap();
    let buf = padded_copy(code.as_slice(), &offset, size);
    write_memory(memory, memory_dest_offset, &buf)
}

/// Takes an address off the stack and pushes the length of its code.
pub fn external_code_size(stack: &mut Vec<Word>, state: &BlockchainState)
    requires
        old(stack).len() >= 1,
    ensures
        final(stack)@ == popped(old(stack)@, 1).push(
            Word::from_nat(code_of(state@.contracts, peek(old(stack)@, 0)).len()),
        ),
{
    let address = SerializedU256 { value: pop1(stack) };
    let len: usize = match lookup_code(state, &address) {
        Some(b) => b.len(),
        None => 0,
    };
    stack.push(Word::from_usize(len))
}

/// Takes an address, a memory offset, a code offset and a size off the
/// stack and copies that many bytes of the code of that address into
/// memory, with zero for every byte past the end of the code.
pub fn external_code_copy(stack: &mut Vec<Word>, memory: &mut Vec<u8>, state: &BlockchainState)
    requires
        old(stack).len() >= 4,
        peek(old(stack)@, 1)@ + peek(old(stack)@, 3)@ + 31 <= usize::MAX,
    ensures
        final(stack)@ == popped(old(stack)@, 4),
        final(memory)@ == written(
            old(memory)@,
            peek(old(stack)@, 1)@,
            padded(
                code_of(state@.contracts, peek(old(stack)@, 0)),
                peek(old(stack)@, 2)@,
                peek(old(stack)@, 3)@,
            ),
        ),
{
    let (top, dest) = pop2(stack);
    let (offset, size) = pop2(stack);
    assert(stack@ =~= popped(old(stack)@, 4));
    let address = SerializedU256 { value: top };
    let memory_dest_offset: usize = dest.to_usize().unwrap();
    let size: usize = size.to_usize().unwrap();
    let buf = match lookup_code(state, &address) {
        Some(b) => padded_copy(b.as_slice(), &offset, size),
        None => {
            let empty: Vec<u8> = Vec::new();
            padded_copy(empty.as_slice(), &offset, size)
        },
    };
    write_memory(memory, memory_dest_offset, &buf)
}

} // verus!
