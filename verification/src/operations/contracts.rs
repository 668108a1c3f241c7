//! The creation of a contract and the destruction of the running one.

use vstd::prelude::*;

use crate::interpreter::evm_bounded;
use crate::machine::{run, start};
use crate::operations::memory::{expanded, read, read_memory_bytes};
use crate::operations::{peek, pop1, pop3, popped};
use crate::state::{
    BlockchainState, ContractsStateDataEntry, ContractsStateDataEntryCode, EntryView,
    SerializedBytes, SerializedU256,
};
use crate::table::Storage;
use crate::word::{modulus, Word};

verus! {

/// The address that a created contract gets.
pub open spec fn created_address() -> Word {
    Word::from_nat(1234)
}

/// The code that a creation runs: the stretch of memory that the second and
/// third word of the stack name, or nothing where its size is zero.
pub open spec fn init_code(stack: Seq<Word>, memory: Seq<u8>) -> Seq<u8> {
    if peek(stack, 2)@ == 0 {
        Seq::empty()
    } else {
        read(memory, peek(stack, 1)@, peek(stack, 2)@)
    }
}

/// What the table holds once a contract was created with the given balance
/// and code.
pub open spec fn installed(
    contracts: Map<Word, EntryView>,
    balance: Word,
    code: Option<Seq<u8>>,
) -> Map<Word, EntryView> {
    contracts.insert(
        created_address(),
        EntryView {
            balance: Some(balance),
            code: Some(
                Some(
                    match code {
                        Some(c) => c,
                        None => Seq::empty(),
                    },
                ),
            ),
        },
    )
}

/// Creates a contract. A balance, an offset and a size come off the stack;
/// that stretch of memory runs as a nested run, not static, on a memory and
/// a storage of its own that begin empty, with the budget given. If the run
/// succeeds, what it returned becomes the code of a new entry of the table
/// with that balance, and the address of the entry is pushed; if not, zero
/// is pushed and no entry is made. `storage` is the caller's and is left
/// alone.
pub fn create_contract(
    stack: &mut Vec<Word>,
    memory: &mut Vec<u8>,
    storage: &mut Storage,
    chain_state: &mut BlockchainState,
    depth: u64,
    fuel: &mut u64,
)
    requires
        old(stack).len() >= 3,
        peek(old(stack)@, 2)@ == 0 || peek(old(stack)@, 1)@ + peek(old(stack)@, 2)@ + 31
            <= usize::MAX,
    ensures
        ({
            let (child, left) = run(
                init_code(old(stack)@, old(memory)@),
                false,
                depth as nat,
                *old(fuel) as nat,
                start(Seq::empty(), Map::empty(), old(chain_state)@),
            );
            &&& final(stack)@ == popped(old(stack)@, 3).push(
                if child.success {
                    created_address()
                } else {
                    Word::from_nat(0)
                },
            )
            &&& final(chain_state)@.tx == child.chain.tx
            &&& final(chain_state)@.block == child.chain.block
            &&& final(chain_state)@.contracts == (if child.success {
                installed(child.chain.contracts, peek(old(stack)@, 0), child.ret)
            } else {
                child.chain.contracts
            })
            &&& *final(fuel) == left
        }),
        final(memory)@ == (if peek(old(stack)@, 2)@ == 0 {
            old(memory)@
        } else {
            expanded(old(memory)@, peek(old(stack)@, 1)@ + peek(old(stack)@, 2)@)
        }),
        final(storage)@ == old(storage)@,
{
    let (balance, at, length) = pop3(stack);
    let code: Vec<u8> = if length.is_zero() {
        Vec::new()
    } else {
        read_memory_bytes(memory, at.to_usize().unwrap(), length.to_usize().unwrap())
    };
    assert(code@ =~= init_code(old(stack)@, old(memory)@));
    let address = Word::from_u64(1234);

    let mut own_memory: Vec<u8> = Vec::new();
    let mut own_storage = Storage::new();
    let res = evm_bounded(
        &code,
        &mut own_memory,
        &mut own_storage,
        chain_state,
        false,
        depth,
        fuel,
    );
    let has_reverted = !res.success;

    if !has_reverted {
        let contract_code = match res.ret {
            Some(bytes) => bytes,
            None => Vec::new(),
        };
        chain_state.contracts_state.insert(
            SerializedU256 { value: address },
            ContractsStateDataEntry {
                code: Some(
                    ContractsStateDataEntryCode {
                        bin: Some(SerializedBytes { value: contract_code }),
                    },
                ),
                balance: Some(SerializedU256 { value: balance }),
            },
        );
    }
    stack.push(
        if has_reverted {
            Word::zero()
        } else {
            address
        },
    );
}

/// What the table holds once the contract at `current` was destroyed in
/// favour of `target`: the entry of `current` is gone, and `target` has an
/// entry whose balance is what it had, zero if it had none, plus what
/// `current` had.
pub open spec fn destroyed(contracts: Map<Word, EntryView>, current: Word, target: Word) -> Map<
    Word,
    EntryView,
> {
    let rest = contracts.remove(current);
    let before = if rest.dom().contains(target) {
        rest[target]
    } else {
        EntryView { balance: None, code: None }
    };
    rest.insert(
        target,
        EntryView {
            balance: Some(
                Word::from_nat(before.balance_or_zero()@ + contracts[current].balance_or_zero()@),
            ),
            code: before.code,
        },
    )
}

/// Destroys the running contract: a target address comes off the stack,
/// the balance of the running contract goes to the target, and the entry
/// of the running contract leaves the table. The run goes on. The address
/// of the running contract is a fact that the context must hold, the table
/// must hold an entry for it, and the two balances together must fit a
/// word.
pub fn self_destruct(stack: &mut Vec<Word>, chain_state: &mut BlockchainState)
    requires
        old(stack).len() >= 1,
        old(chain_state)@.tx.to is Some,
        old(chain_state)@.contracts.dom().contains(old(chain_state)@.tx.to.unwrap()),
        ({
            let contracts = old(chain_state)@.contracts;
            let current = old(chain_state)@.tx.to.unwrap();
            let target = peek(old(stack)@, 0);
            (if target != current && contracts.dom().contains(target) {
                contracts[target].balance_or_zero()@
            } else {
                0
            }) + contracts[current].balance_or_zero()@ < modulus()
        }),
    ensures
        final(stack)@ == popped(old(stack)@, 1),
        final(chain_state)@.tx == old(chain_state)@.tx,
        final(chain_state)@.block == old(chain_state)@.block,
        final(chain_state)@.contracts == destroyed(
            old(chain_state)@.contracts,
            old(chain_state)@.tx.to.unwrap(),
            peek(old(stack)@, 0),
        ),
{
    let address = pop1(stack);
    let current_address: SerializedU256 = chain_state.tx.to.unwrap();

    let balance = match chain_state.contracts_state.remove(&current_address).unwrap().balance {
        Some(b) => b.value,
        None => Word::zero(),
    };

    let destination_contract_key = SerializedU256 { value: address };
    let mut destination_contract = match chain_state.contracts_state.remove(
        &destination_contract_key,
    ) {
        Some(entry) => entry,
        None => ContractsStateDataEntry::default(),
    };
    let held = match destination_contract.balance {
        Some(b) => b.value,
        None => Word::zero(),
    };
    let total = held.wrapping_add(balance);
    proof {
        Word::lemma_from_nat_view(0);
        vstd::arithmetic::div_mod::lemma_small_mod((held@ + balance@) as nat, modulus());
    }
    destination_contract.balance = Some(SerializedU256 { value: total });

    chain_state.contracts_state.insert(destination_contract_key, destination_contract);
    assert(chain_state@.contracts =~= destroyed(
        old(chain_state)@.contracts,
        old(chain_state)@.tx.to.unwrap(),
        peek(old(stack)@, 0),
    ));
}

} // verus!
