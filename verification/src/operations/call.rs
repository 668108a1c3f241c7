//! Instructions that read the value and the data of the current call.

use vstd::prelude::*;

use crate::bytes::{padded, padded_copy, word_of_bytes};
use crate::operations::memory::{write_memory, written};
use crate::operations::{peek, pop1, pop3, popped};
use crate::state::{BlockchainState, TxView};
use crate::word::Word;

verus! {

/// The data of the call; empty where the context holds none.
pub open spec fn call_data(tx: TxView) -> Seq<u8> {
    match tx.data {
        Some(d) => d,
        None => Seq::empty(),
    }
}

/// The value sent with the call; zero where the context holds none.
pub open spec fn value_sent(tx: TxView) -> Word {
    match tx.value {
        Some(v) => v,
        None => Word::from_nat(0),
    }
}

/// Pushes the value sent with the call.
pub fn call_value(stack: &mut Vec<Word>, chain_state: &mut BlockchainState)
    ensures
        final(stack)@ == old(stack)@.push(value_sent(old(chain_state)@.tx)),
        *final(chain_state) == *old(chain_state),
{
    let value = match chain_state.tx.value {
        Some(v) => v.value,
        None => Word::zero(),
    };
    stack.push(value);
}

/// Takes an offset off the stack and pushes the word that the 32 bytes of
/// call data from there on stand for, with zero for every byte past the end.
pub fn call_data_load(stack: &mut Vec<Word>, chain_state: &mut BlockchainState)
    requires
        old(stack).len() >= 1,
    ensures
        final(stack)@ == popped(old(stack)@, 1).push(
            word_of_bytes(padded(call_data(old(chain_state)@.tx), peek(old(stack)@, 0)@, 32)),
        ),
        *final(chain_state) == *old(chain_state),
{
    let offset = pop1(stack);
    let buf = match &chain_state.tx.data {
        Some(d) => padded_copy(d.value.as_slice(), &offset, 32),
        None => {
            let empty: Vec<u8> = Vec::new();
            padded_copy(empty.as_slice(), &offset, 32)
        },
    };
    stack.push(Word::from_be_bytes(buf.as_slice()));
}

/// Pushes the length of the call data.
pub fn call_data_size(stack: &mut Vec<Word>, chain_state: &mut BlockchainState)
    ensures
        final(stack)@ == old(stack)@.push(
            Word::from_nat(call_data(old(chain_state)@.tx).len()),
        ),
        *final(chain_state) == *old(chain_state),
{
    let size: usize = match &chain_state.tx.data {
        Some(d) => d.len(),
        None => 0,
    };
    stack.push(Word::from_usize(size));
}

/// Takes a memory offset, a data offset and a size off the stack and copies
/// that many bytes of call data into memory, with zero for every byte past
/// the end of the data.
pub fn call_data_copy(
    stack: &mut Vec<Word>,
    memory: &mut Vec<u8>,
    chain_state: &mut BlockchainState,
)
    requires
        old(stack).len() >= 3,
        peek(old(stack)@, 0)@ + peek(old(stack)@, 2)@ + 31 <= usize::MAX,
    ensures
        final(stack)@ == popped(old(stack)@, 3),
        final(memory)@ == written(
            old(memory)@,
            peek(old(stack)@, 0)@,
            padded(
                call_data(old(chain_state)@.tx),
                peek(old(stack)@, 1)@,
                peek(old(stack)@, 2)@,
            ),
        ),
        *final(chain_state) == *old(chain_state),
{
    let (dest, offset, size) = pop3(stack);
    let memory_dest_offset: usize = dest.to_usize().unwrap();
    let size: usize = size.to_usize().unwrap();
    let buf = match &chain_state.tx.data {
        Some(d) => padded_copy(d.value.as_slice(), &offset, size),
        None => {
            let empty: Vec<u8> = Vec::new();
            padded_copy(empty.as_slice(), &offset, size)
        },
    };
    write_memory(memory, memory_dest_offset, &buf)
}

} // verus!
