//! Instructions that end a run with returned bytes, and message calls.

use vstd::prelude::*;
use vstd::slice::slice_to_vec;

use crate::interpreter::{bounded, evm_bounded};
use crate::machine::{call_outcome, call_ready, CallKind};
use crate::operations::code::lookup_code;
use crate::operations::memory::{expanded, read, read_memory_bytes, write_memory};
use crate::operations::{peek, pop1, pop2, popped};
use crate::optional_bytes;
use crate::state::{BlockchainState, SerializedBytes, SerializedU256};
use crate::table::Storage;
use crate::word::Word;

verus! {

/// Takes an offset and a size off the stack and hands out that stretch of
/// memory as the bytes that the run returns.
pub fn return_value(stack: &mut Vec<Word>, memory: &mut Vec<u8>) -> (r: Vec<u8>)
    requires
        old(stack).len() >= 2,
        peek(old(stack)@, 0)@ + peek(old(stack)@, 1)@ + 31 <= usize::MAX,
    ensures
        final(stack)@ == popped(old(stack)@, 2),
        final(memory)@ == expanded(old(memory)@, peek(old(stack)@, 0)@ + peek(old(stack)@, 1)@),
        r@ == read(old(memory)@, peek(old(stack)@, 0)@, peek(old(stack)@, 1)@),
{
    let (at, length) = pop2(stack);
    let offset: usize = at.to_usize().unwrap();
    let size: usize = length.to_usize().unwrap();
    read_memory_bytes(memory, offset, size)
}

/// Takes an offset and a size off the stack and hands out that stretch of
/// memory as the bytes that a reverted run returns. The rest of the stack
/// stays as it is.
pub fn revert_context(stack: &mut Vec<Word>, memory: &mut Vec<u8>) -> (r: Vec<u8>)
    requires
        old(stack).len() >= 2,
        peek(old(stack)@, 0)@ + peek(old(stack)@, 1)@ + 31 <= usize::MAX,
    ensures
        final(stack)@ == popped(old(stack)@, 2),
        final(memory)@ == expanded(old(memory)@, peek(old(stack)@, 0)@ + peek(old(stack)@, 1)@),
        r@ == read(old(memory)@, peek(old(stack)@, 0)@, peek(old(stack)@, 1)@),
{
    let (at, length) = pop2(stack);
    let offset: usize = at.to_usize().unwrap();
    let size: usize = length.to_usize().unwrap();
    read_memory_bytes(memory, offset, size)
}

/// The kind of a message call, with the storage on which the callee of a
/// delegated call runs.
pub enum ContextType<'a> {
    Writeable,
    WriteableDelegate(&'a mut Storage),
    Static,
}

impl<'a> ContextType<'a> {
    /// The kind without the storage.
    pub open spec fn kind(self) -> CallKind {
        match self {
            ContextType::Writeable => CallKind::Call,
            ContextType::WriteableDelegate(_) => CallKind::Delegate,
            ContextType::Static => CallKind::Static,
        }
    }

    /// The kind without the storage.
    pub fn call_kind(&self) -> (k: CallKind)
        ensures
            k == self.kind(),
    {
        match self {
            ContextType::Writeable => CallKind::Call,
            ContextType::WriteableDelegate(_) => CallKind::Delegate,
            ContextType::Static => CallKind::Static,
        }
    }
}

/// Makes a message call. The operands come off the stack: gas, the address
/// of the callee, a value for a plain call only, then offset and size of
/// the arguments and offset and size of the place for what is returned. The
/// callee's code runs as a nested run; when it is over, one is pushed for
/// success and zero for failure, and the returned bytes are written to the
/// caller's memory and handed out.
pub fn call_context(
    stack: &mut Vec<Word>,
    memory: &mut Vec<u8>,
    chain_state: &mut BlockchainState,
    context_type: ContextType<'_>,
    parent_context_is_static: bool,
    depth: u64,
    fuel: &mut u64,
) -> (r: Option<Vec<u8>>)
    requires
        call_ready(context_type.kind(), depth as nat, old(stack)@, old(chain_state)@.contracts),
    ensures
        ({
            let effect = call_outcome(
                context_type.kind(),
                parent_context_is_static,
                depth as nat,
                *old(fuel) as nat,
                old(stack)@,
                old(memory)@,
                if context_type is WriteableDelegate {
                    old(context_type->WriteableDelegate_0)@
                } else {
                    Map::empty()
                },
                old(chain_state)@,
            );
            &&& final(stack)@ == effect.stack
            &&& final(memory)@ == effect.memory
            &&& final(chain_state)@ == effect.chain
            &&& optional_bytes(r) == effect.ret
            &&& *final(fuel) == effect.fuel
            &&& context_type is WriteableDelegate ==> final(context_type->WriteableDelegate_0)@
                == effect.storage
        }),
        *final(fuel) <= *old(fuel),
        bounded(r),
    decreases depth, 0int,
{
    let kind = context_type.call_kind();
    let (_gas, target) = pop2(stack);
    let address = SerializedU256 { value: target };
    if kind == CallKind::Call {
        let _value = pop1(stack);
    }
    let (args_at, args_length) = pop2(stack);
    let (ret_at, _ret_size) = pop2(stack);
    assert(stack@ =~= popped(old(stack)@, crate::machine::call_arity(kind)));
    let ret_offset: usize = ret_at.to_usize().unwrap();

    let code: Vec<u8> = slice_to_vec(lookup_code(chain_state, &address).unwrap().as_slice());

    let new_call_data = if args_length.is_zero() {
        None
    } else {
        let args = read_memory_bytes(
            memory,
            args_at.to_usize().unwrap(),
            args_length.to_usize().unwrap(),
        );
        Some(SerializedBytes { value: args })
    };

    let previous_call_data = chain_state.tx.data.take();
    let previous_address = chain_state.tx.to;
    let previous_caller = chain_state.tx.from;

    if kind != CallKind::Delegate {
        chain_state.tx.to = Some(address);
        chain_state.tx.from = previous_address;
    }
    chain_state.tx.data = new_call_data;

    let is_new_context_static = parent_context_is_static || kind == CallKind::Static;
    let mut callee_memory: Vec<u8> = Vec::new();
    let res = match context_type {
        ContextType::WriteableDelegate(storage) => evm_bounded(
            &code,
            &mut callee_memory,
            storage,
            chain_state,
            is_new_context_static,
            depth - 1,
            fuel,
        ),
        _ => {
            let mut fresh = Storage::new();
            evm_bounded(
                &code,
                &mut callee_memory,
                &mut fresh,
                chain_state,
                is_new_context_static,
                depth - 1,
                fuel,
            )
        },
    };

    match &res.ret {
        Some(ret) => write_memory(memory, ret_offset, ret),
        None => {},
    }

    chain_state.tx.data = previous_call_data;
    chain_state.tx.from = previous_caller;
    chain_state.tx.to = previous_address;

    stack.push(Word::of_bool(res.success));
    res.ret
}

} // verus!
