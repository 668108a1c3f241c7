//! Instructions that hash.

use vstd::prelude::*;

use crate::backend::{keccak256_bytes, keccak256_digest};
use crate::bytes::word_of_bytes;
use crate::operations::code::lookup_code;
use crate::operations::memory::{expanded, read, read_memory_bytes};
use crate::operations::{peek, pop1, pop2, popped};
use crate::state::{BlockchainState, EntryView, SerializedU256};
use crate::word::Word;

verus! {

/// The digest of a byte string, as a word.
pub open spec fn hash_word(data: Seq<u8>) -> Word {
    word_of_bytes(keccak256_digest(data))
}

/// The digest of the code recorded for `address`, of no bytes where the
/// entry has none; zero where the table has no entry for the address.
pub open spec fn code_hash(contracts: Map<Word, EntryView>, address: Word) -> Word {
    if contracts.dom().contains(address) {
        hash_word(contracts[address].code_or_empty())
    } else {
        Word::from_nat(0)
    }
}

/// The digest of `data`, as a word.
pub fn keccak256_word(data: &[u8]) -> (r: Word)
    ensures
        r == hash_word(data@),
{
    let digest = keccak256_bytes(data);
    Word::from_be_bytes(digest.as_slice())
}

/// Takes an offset and a size off the stack and pushes the digest of that
/// stretch of memory.
pub fn keccak256(stack: &mut Vec<Word>, memory: &mut Vec<u8>)
    requires
        old(stack).len() >= 2,
        peek(old(stack)@, 0)@ + peek(old(stack)@, 1)@ + 31 <= usize::MAX,
    ensures
        final(stack)@ == popped(old(stack)@, 2).push(
            hash_word(read(old(memory)@, peek(old(stack)@, 0)@, peek(old(stack)@, 1)@)),
        ),
        final(memory)@ == expanded(old(memory)@, peek(old(stack)@, 0)@ + peek(old(stack)@, 1)@),
{
    let (at, length) = pop2(stack);
    let offset: usize = at.to_usize().unwrap();
    let size: usize = length.to_usize().unwrap();
    let value = read_memory_bytes(memory, offset, size);
    stack.push(keccak256_word(value.as_slice()));
}

/// Takes an address off the stack and pushes the digest of its code.
pub fn external_code_hash(stack: &mut Vec<Word>, state: &BlockchainState)
    requires
        old(stack).len() >= 1,
    ensures
        final(stack)@ == popped(old(stack)@, 1).push(
            code_hash(state@.contracts, peek(old(stack)@, 0)),
        ),
{
    let address = SerializedU256 { value: pop1(stack) };
    if state.contracts_state.get(&address).is_none() {
        stack.push(Word::zero());
        return ;
    }
    let hashed = match lookup_code(state, &address) {
        Some(b) => keccak256_word(b.as_slice()),
        None => {
            let empty: Vec<u8> = Vec::new();
            assert(empty@ =~= Seq::<u8>::empty());
            keccak256_word(empty.as_slice())
        },
    };
    stack.push(hashed);
}

} // verus!
