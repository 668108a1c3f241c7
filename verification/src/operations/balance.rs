//! Instructions that read a balance from the table of contracts.

use vstd::prelude::*;

use crate::operations::{peek, pop1, popped};
use crate::state::{BlockchainState, EntryView, SerializedU256};
use crate::word::Word;

verus! {

/// The balance recorded for `address`; zero where the table has no entry
/// for it, or an entry without a balance.
pub open spec fn balance_of(contracts: Map<Word, EntryView>, address: Word) -> Word {
    if contracts.dom().contains(address) {
        contracts[address].balance_or_zero()
    } else {
        Word::from_nat(0)
    }
}

/// Looks up the balance recorded for `address`.
pub fn lookup_balance(state: &BlockchainState, address: SerializedU256) -> (r: Word)
    ensures
        r == balance_of(state@.contracts, address.value),
{
    match state.contracts_state.get(&address) {
        Some(entry) => match entry.balance {
            Some(b) => b.value,
            None => Word::zero(),
        },
        None => Word::zero(),
    }
}

/// Takes an address off the stack and pushes its balance.
pub fn get_balance(stack: &mut Vec<Word>, state: &BlockchainState)
    requires
        old(stack).len() >= 1,
    ensures
        final(stack)@ == popped(old(stack)@, 1).push(
            balance_of(state@.contracts, peek(old(stack)@, 0)),
        ),
{
    let address = SerializedU256 { value: pop1(stack) };
    let balance = lookup_balance(state, address);
    stack.push(balance);
}

/// Pushes the balance of the contract that is running. The address of that
/// contract is a fact that the context must hold.
pub fn self_balance(stack: &mut Vec<Word>, state: &BlockchainState)
    requires
        state@.tx.to is Some,
    ensures
        final(stack)@ == old(stack)@.push(balance_of(state@.contracts, state@.tx.to.unwrap())),
{
    let address: SerializedU256 = state.tx.to.unwrap();
    let balance = lookup_balance(state, address);
    stack.push(balance);
}

} // verus!
