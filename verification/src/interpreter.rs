//! The dispatch loop: it fetches an instruction, spends a step of the
//! budget, and hands the machine to the operation that the instruction
//! names.

use vstd::prelude::*;

use crate::bytes::padded_copy;
use crate::machine::{
    after_call, alu_step, call_kind, call_outcome, call_ready, callee_storage, effect_step,
    env_step, fault, flow_step, in_reach, is_call, is_effect, is_env, is_flow, is_memory,
    memory_step, result_of, run, start, step, CallKind, Machine, MEMORY_LIMIT,
};
use crate::opcodes::{
    ADD, ADDMOD, ADDRESS, AND, BALANCE, BLOCKHASH, BYTE, CALL, CALLDATACOPY, CALLDATALOAD,
    CALLDATASIZE, CALLER, CALLVALUE, CHAINID, CODECOPY, CODESIZE, COINBASE, DELEGATECALL,
    DIFFICULTY, DIV, DUP1, DUP16, EQ, EXP, EXTCODECOPY, EXTCODEHASH, EXTCODESIZE, GAS, GASLIMIT,
    GASPRICE, GT, ISZERO, JUMP, JUMPDEST, JUMPI, KECCAK256, LOG0, LT, MLOAD, MOD, MSIZE, MSTORE,
    MSTORE8, MUL, MULMOD, NOT, NUMBER, OR, ORIGIN, PC, POP, PUSH0, PUSH32, RETURN,
    RETURNDATACOPY, RETURNDATASIZE, SAR, SDIV, SELFBALANCE, SGT, SHL, SHR, SIGNEXTEND, SLOAD,
    SLT, SMOD, SSTORE, STATICCALL, STOP, SUB, SWAP1, TIMESTAMP, XOR,
};
use crate::operations::code::lookup_code;
use crate::operations::memory::write_memory;
use crate::operations::system_operations::{call_context, ContextType};
use crate::operations::{pop1, pop3};
use crate::state::{BlockData, BlockchainState, ContractsStateData, SerializedU256, TxData};
use crate::table::Storage;
use crate::word::Word;
use crate::{optional_bytes, EvmLog, EvmResult};

verus! {

/// The state of one run, as the dispatch loop holds it.
pub(crate) struct Vm {
    pub stack: Vec<Word>,
    pub pc: usize,
    pub memory: Vec<u8>,
    pub storage: Storage,
    pub chain: BlockchainState,
    pub logs: Vec<EvmLog>,
    pub ret: Option<Vec<u8>>,
    pub last_ret: Option<Vec<u8>>,
    pub success: bool,
    pub halted: bool,
}

impl View for Vm {
    type V = Machine;

    closed spec fn view(&self) -> Machine {
        Machine {
            stack: self.stack@,
            pc: self.pc as nat,
            memory: self.memory@,
            storage: self.storage@,
            chain: self.chain@,
            logs: self.logs@.map_values(|l: EvmLog| l@),
            ret: optional_bytes(self.ret),
            last_ret: optional_bytes(self.last_ret),
            success: self.success,
            halted: self.halted,
        }
    }
}

/// Ends the run as a failure.
fn fail(vm: &mut Vm)
    ensures
        final(vm)@ == fault(old(vm)@),
        final(vm).pc == old(vm).pc,
        final(vm).ret == old(vm).ret,
{
    vm.success = false;
    vm.halted = true;
}

/// Arithmetic, comparison and bits.
pub(crate) fn step_alu(op: u8, vm: &mut Vm)
    ensures
        final(vm)@ == alu_step(op, old(vm)@),
        final(vm).pc == old(vm).pc,
        final(vm).ret == old(vm).ret,
{
    let depth: usize = vm.stack.len();
    if op == ADDMOD || op == MULMOD {
        if depth < 3 {
            fail(vm);
        } else if op == ADDMOD {
            crate::operations::math::addmod(&mut vm.stack);
        } else {
            crate::operations::math::mulmod(&mut vm.stack);
        }
    } else if op == ISZERO || op == NOT {
        if depth < 1 {
            fail(vm);
        } else if op == ISZERO {
            crate::operations::math::is_zero(&mut vm.stack);
        } else {
            crate::operations::bool::not(&mut vm.stack);
        }
    } else if depth < 2 {
        fail(vm);
    } else if op == ADD {
        crate::operations::math::add(&mut vm.stack);
    } else if op == MUL {
        crate::operations::math::mul(&mut vm.stack);
    } else if op == SUB {
        crate::operations::math::sub(&mut vm.stack);
    } else if op == DIV {
        crate::operations::math::div(&mut vm.stack);
    } else if op == SDIV {
        crate::operations::math::signed_div(&mut vm.stack);
    } else if op == MOD {
        crate::operations::math::modulo(&mut vm.stack);
    } else if op == SMOD {
        crate::operations::math::signed_modulo(&mut vm.stack);
    } else if op == EXP {
        crate::operations::math::exp(&mut vm.stack);
    } else if op == SIGNEXTEND {
        crate::operations::math::signextend(&mut vm.stack);
    } else if op == LT {
        crate::operations::math::less_than(&mut vm.stack);
    } else if op == GT {
        crate::operations::math::greater_than(&mut vm.stack);
    } else if op == SLT {
        crate::operations::math::signed_less_than(&mut vm.stack);
    } else if op == SGT {
        crate::operations::math::signed_greater_than(&mut vm.stack);
    } else if op == EQ {
        crate::operations::math::equal(&mut vm.stack);
    } else if op == AND {
        crate::operations::bool::and(&mut vm.stack);
    } else if op == OR {
        crate::operations::bool::or(&mut vm.stack);
    } else if op == XOR {
        crate::operations::bool::xor(&mut vm.stack);
    } else if op == BYTE {
        let index = vm.stack[depth - 1];
        if index == Word::from_u64(32) {
            fail(vm);
        } else {
            proof {
                Word::lemma_from_nat_view(32);
            }
            crate::operations::bool::byte(&mut vm.stack);
        }
    } else if op == SHL {
        crate::operations::bool::shl(&mut vm.stack);
    } else if op == SHR {
        crate::operations::bool::shr(&mut vm.stack);
    } else if op == SAR {
        crate::operations::bool::sar(&mut vm.stack);
    } else {
        fail(vm);
    }
}

/// Halting, pushes, stack shuffles and jumps.
pub(crate) fn step_flow(code: &Vec<u8>, op: u8, vm: &mut Vm)
    requires
        is_flow(op),
        1 <= old(vm).pc <= code.len(),
    ensures
        final(vm)@ == flow_step(code@, op, old(vm)@),
        final(vm).pc <= code.len(),
        final(vm).ret == old(vm).ret,
{
    let depth: usize = vm.stack.len();
    if op == STOP {
        vm.halted = true;
    } else if op == BLOCKHASH || op == JUMPDEST {
    } else if op == POP {
        if depth < 1 {
            fail(vm);
        } else {
            let _ = pop1(&mut vm.stack);
        }
    } else if op == JUMP {
        if depth < 1 {
            fail(vm);
        } else {
            let res = crate::operations::control_flow::jump(&mut vm.stack, code, &mut vm.pc);
            if res.is_err() {
                fail(vm);
            }
        }
    } else if op == JUMPI {
        if depth < 2 {
            fail(vm);
        } else {
            let res = crate::operations::control_flow::jump_if(&mut vm.stack, code, &mut vm.pc);
            if res.is_err() {
                fail(vm);
            }
        }
    } else if op == PC {
        vm.stack.push(Word::from_usize(vm.pc - 1));
    } else if op == GAS {
        vm.stack.push(Word::max_value());
    } else if op <= PUSH32 {
        let n_bytes: usize = (op - PUSH0) as usize;
        if n_bytes > code.len() - vm.pc {
            fail(vm);
        } else {
            crate::operations::push::push(vm.pc, n_bytes, code, &mut vm.stack);
            vm.pc = vm.pc + n_bytes;
        }
    } else if op <= DUP16 {
        let offset: usize = (op - DUP1 + 1) as usize;
        if depth < offset {
            fail(vm);
        } else {
            crate::operations::push::duplicate(offset, &mut vm.stack);
        }
    } else {
        let offset: usize = (op - SWAP1 + 1) as usize;
        if depth < offset + 1 {
            fail(vm);
        } else {
            crate::operations::push::swap(offset, &mut vm.stack);
        }
    }
}

/// Whether an access of `size` bytes from `offset` on stays within the
/// limit.
fn within(offset: &Word, size: usize) -> (r: bool)
    ensures
        r == (offset@ + size <= MEMORY_LIMIT),
{
    match offset.to_usize() {
        Some(o) => o <= MEMORY_LIMIT && size <= MEMORY_LIMIT - o,
        None => false,
    }
}

/// Whether an access of `size` bytes from `offset` on stays within the
/// limit.
fn reaches(offset: &Word, size: &Word) -> (r: bool)
    ensures
        r == in_reach(*offset, *size),
{
    match size.to_usize() {
        Some(s) => within(offset, s),
        None => false,
    }
}

/// The returned bytes, if there are any, are no more than an instruction
/// may read.
pub open spec fn bounded(ret: Option<Vec<u8>>) -> bool {
    match ret {
        Some(b) => b.len() <= MEMORY_LIMIT,
        None => true,
    }
}

/// Pushes a fact, or ends the run as a failure where the fact is absent.
fn push_fact(vm: &mut Vm, f: Option<SerializedU256>)
    ensures
        final(vm)@ == crate::machine::pushed_fact(old(vm)@, crate::state::fact(f)),
        final(vm).pc == old(vm).pc,
        final(vm).ret == old(vm).ret,
{
    match f {
        Some(w) => vm.stack.push(w.value),
        None => fail(vm),
    }
}

/// Ends the run with a stretch of memory as the returned bytes.
fn halt_with(vm: &mut Vm, success: bool)
    ensures
        final(vm)@ == crate::machine::halt_with_memory(old(vm)@, success),
        final(vm).pc == old(vm).pc,
        bounded(old(vm).ret) ==> bounded(final(vm).ret),
{
    let depth: usize = vm.stack.len();
    if depth < 2 || !reaches(&vm.stack[depth - 1], &vm.stack[depth - 2]) {
        fail(vm);
    } else {
        let bytes = crate::operations::system_operations::return_value(
            &mut vm.stack,
            &mut vm.memory,
        );
        vm.ret = Some(bytes);
        vm.success = success;
        vm.halted = true;
    }
}

/// Copies from `src` into memory, as the three words on top of the stack
/// say.
fn copy_into(vm: &mut Vm, src: &[u8])
    ensures
        final(vm)@ == crate::machine::copy_step(old(vm)@, src@),
        final(vm).pc == old(vm).pc,
        final(vm).ret == old(vm).ret,
{
    let depth: usize = vm.stack.len();
    if depth < 3 || !reaches(&vm.stack[depth - 1], &vm.stack[depth - 3]) {
        fail(vm);
    } else {
        let (dest, offset, size) = pop3(&mut vm.stack);
        let buf = padded_copy(src, &offset, size.to_usize().unwrap());
        write_memory(&mut vm.memory, dest.to_usize().unwrap(), &buf);
    }
}

/// Copies from the bytes that the last call returned into memory.
fn copy_return_data(vm: &mut Vm)
    ensures
        final(vm)@ == crate::machine::copy_step(old(vm)@, crate::machine::return_data(old(vm)@)),
        final(vm).pc == old(vm).pc,
        final(vm).ret == old(vm).ret,
{
    let data: Option<Vec<u8>> = vm.last_ret.take();
    match &data {
        Some(r) => copy_into(vm, r.as_slice()),
        None => {
            let empty: Vec<u8> = Vec::new();
            copy_into(vm, empty.as_slice())
        },
    }
    vm.last_ret = data;
}

/// Loads, stores and the digest of a stretch of memory.
fn step_words(code: &Vec<u8>, op: u8, vm: &mut Vm)
    requires
        (MLOAD <= op && op <= MSTORE8) || op == MSIZE || op == KECCAK256,
    ensures
        final(vm)@ == memory_step(code@, op, old(vm)@),
        final(vm).pc == old(vm).pc,
        final(vm).ret == old(vm).ret,
{
    let depth: usize = vm.stack.len();
    if op == MLOAD {
        if depth < 1 || !within(&vm.stack[depth - 1], 32) {
            fail(vm);
        } else {
            crate::operations::memory::memload(&mut vm.stack, &mut vm.memory);
        }
    } else if op == MSTORE {
        if depth < 2 || !within(&vm.stack[depth - 1], 32) {
            fail(vm);
        } else {
            crate::operations::memory::memstore(&mut vm.stack, &mut vm.memory);
        }
    } else if op == MSTORE8 {
        if depth < 2 || !within(&vm.stack[depth - 1], 1) {
            fail(vm);
        } else {
            crate::operations::memory::memstore8(&mut vm.stack, &mut vm.memory);
        }
    } else if op == MSIZE {
        crate::operations::memory::memsize(&mut vm.stack, &vm.memory);
    } else {
        if depth < 2 || !reaches(&vm.stack[depth - 1], &vm.stack[depth - 2]) {
            fail(vm);
        } else {
            crate::operations::hash::keccak256(&mut vm.stack, &mut vm.memory);
        }
    }
}

/// Instructions on memory, on the running code and on returned bytes.
pub(crate) fn step_memory(code: &Vec<u8>, op: u8, vm: &mut Vm)
    requires
        is_memory(op),
    ensures
        final(vm)@ == memory_step(code@, op, old(vm)@),
        final(vm).pc == old(vm).pc,
        bounded(old(vm).ret) ==> bounded(final(vm).ret),
{
    if (MLOAD <= op && op <= MSTORE8) || op == MSIZE || op == KECCAK256 {
        step_words(code, op, vm);
    } else if op == CODESIZE {
        vm.stack.push(Word::from_usize(code.len()));
    } else if op == CODECOPY {
        let depth: usize = vm.stack.len();
        if depth < 3 || !reaches(&vm.stack[depth - 1], &vm.stack[depth - 3]) {
            fail(vm);
        } else {
            crate::operations::code::code_copy(&mut vm.stack, &mut vm.memory, code);
        }
    } else if op == RETURNDATASIZE {
        let size: usize = match &vm.last_ret {
            Some(r) => r.len(),
            None => 0,
        };
        vm.stack.push(Word::from_usize(size));
    } else if op == RETURNDATACOPY {
        copy_return_data(vm);
    } else if op == RETURN {
        halt_with(vm, true);
    } else {
        halt_with(vm, false);
    }
}

/// Instructions that read the execution context.
pub(crate) fn step_env(op: u8, vm: &mut Vm)
    requires
        is_env(op),
    ensures
        final(vm)@ == env_step(op, old(vm)@),
        final(vm).pc == old(vm).pc,
        final(vm).ret == old(vm).ret,
{
    let depth: usize = vm.stack.len();
    if op == ADDRESS {
        push_fact(vm, vm.chain.tx.to);
    } else if op == BALANCE {
        if depth < 1 {
            fail(vm);
        } else {
            crate::operations::balance::get_balance(&mut vm.stack, &vm.chain);
        }
    } else if op == ORIGIN {
        push_fact(vm, vm.chain.tx.origin);
    } else if op == CALLER {
        push_fact(vm, vm.chain.tx.from);
    } else if op == CALLVALUE {
        crate::operations::call::call_value(&mut vm.stack, &mut vm.chain);
    } else if op == CALLDATALOAD {
        if depth < 1 {
            fail(vm);
        } else {
            crate::operations::call::call_data_load(&mut vm.stack, &mut vm.chain);
        }
    } else if op == CALLDATASIZE {
        crate::operations::call::call_data_size(&mut vm.stack, &mut vm.chain);
    } else if op == CALLDATACOPY {
        if depth < 3 || !reaches(&vm.stack[depth - 1], &vm.stack[depth - 3]) {
            fail(vm);
        } else {
            crate::operations::call::call_data_copy(
                &mut vm.stack,
                &mut vm.memory,
                &mut vm.chain,
            );
        }
    } else if op == GASPRICE {
        push_fact(vm, vm.chain.tx.gasprice);
    } else if op == EXTCODESIZE {
        if depth < 1 {
            fail(vm);
        } else {
            crate::operations::code::external_code_size(&mut vm.stack, &vm.chain);
        }
    } else if op == EXTCODECOPY {
        if depth < 4 || !reaches(&vm.stack[depth - 2], &vm.stack[depth - 4]) {
            fail(vm);
        } else {
            crate::operations::code::external_code_copy(&mut vm.stack, &mut vm.memory, &vm.chain);
        }
    } else if op == EXTCODEHASH {
        if depth < 1 {
            fail(vm);
        } else {
            crate::operations::hash::external_code_hash(&mut vm.stack, &vm.chain);
        }
    } else if op == COINBASE {
        push_fact(vm, vm.chain.block.coinbase);
    } else if op == TIMESTAMP {
        push_fact(vm, vm.chain.block.timestamp);
    } else if op == NUMBER {
        push_fact(vm, vm.chain.block.number);
    } else if op == DIFFICULTY {
        push_fact(vm, vm.chain.block.difficulty);
    } else if op == GASLIMIT {
        push_fact(vm, vm.chain.block.gaslimit);
    } else if op == CHAINID {
        push_fact(vm, vm.chain.block.chainid);
    } else if op == SELFBALANCE {
        if vm.chain.tx.to.is_none() {
            fail(vm);
        } else {
            crate::operations::balance::self_balance(&mut vm.stack, &vm.chain);
        }
    } else {
        push_fact(vm, vm.chain.block.basefee);
    }
}

/// Instructions on storage and the emission of records.
pub(crate) fn step_effect(is_static: bool, op: u8, vm: &mut Vm)
    requires
        is_effect(op),
    ensures
        final(vm)@ == effect_step(is_static, op, old(vm)@),
        final(vm).pc == old(vm).pc,
        bounded(old(vm).ret) ==> bounded(final(vm).ret),
{
    let depth: usize = vm.stack.len();
    if op == SLOAD {
        if depth < 1 {
            fail(vm);
        } else {
            crate::operations::storage::storage_load(&mut vm.stack, &mut vm.storage);
        }
    } else if is_static {
        halt_with(vm, false);
    } else if op == SSTORE {
        if depth < 2 {
            fail(vm);
        } else {
            crate::operations::storage::storage_store(&mut vm.stack, &mut vm.storage);
        }
    } else {
        let n_topics: u8 = op - LOG0;
        if depth < n_topics as usize + 2 || !reaches(&vm.stack[depth - 1], &vm.stack[depth - 2])
            || vm.chain.tx.to.is_none() {
            fail(vm);
        } else {
            let ghost before = vm.logs@;
            let record = crate::operations::log::log(
                n_topics,
                &mut vm.stack,
                &mut vm.memory,
                &vm.chain,
            );
            vm.logs.push(record);
            assert(vm.logs@.map_values(|l: EvmLog| l@) =~= before.map_values(|l: EvmLog| l@).push(
                record@,
            ));
        }
    }
}

/// Decides whether a call of the given kind can be made from this stack in
/// this context with this many levels of nesting left.
pub fn call_is_ready(kind: CallKind, depth: u64, stack: &Vec<Word>, chain_state: &BlockchainState) -> (r:
    bool)
    ensures
        r == call_ready(kind, depth as nat, stack@, chain_state@.contracts),
{
    let p: usize = if kind == CallKind::Call {
        3
    } else {
        2
    };
    let n: usize = stack.len();
    if n < p + 4 || depth == 0 {
        return false;
    }
    if !stack[n - 2 - p].is_zero() && !reaches(&stack[n - 1 - p], &stack[n - 2 - p]) {
        return false;
    }
    if !within(&stack[n - 3 - p], 0) {
        return false;
    }
    let address = SerializedU256 { value: stack[n - 2] };
    lookup_code(chain_state, &address).is_some()
}

/// A message call from within the loop.
fn step_call(op: u8, is_static: bool, depth: u64, vm: &mut Vm, fuel: &mut u64)
    requires
        is_call(op),
        bounded(old(vm).ret),
    ensures
        ({
            let kind = call_kind(op);
            let t = old(vm)@;
            if call_ready(kind, depth as nat, t.stack, t.chain.contracts) {
                let effect = call_outcome(
                    kind,
                    is_static,
                    depth as nat,
                    *old(fuel) as nat,
                    t.stack,
                    t.memory,
                    callee_storage(kind, t),
                    t.chain,
                );
                final(vm)@ == after_call(kind, t, effect) && *final(fuel) == effect.fuel
            } else {
                final(vm)@ == fault(t) && *final(fuel) == *old(fuel)
            }
        }),
        *final(fuel) <= *old(fuel),
        final(vm).pc == old(vm).pc,
        bounded(final(vm).ret),
    decreases depth, 1int,
{
    let kind = if op == CALL {
        CallKind::Call
    } else if op == DELEGATECALL {
        CallKind::Delegate
    } else {
        CallKind::Static
    };
    if !call_is_ready(kind, depth, &vm.stack, &vm.chain) {
        fail(vm);
    } else {
        let returned = if op == CALL {
            call_context(
                &mut vm.stack,
                &mut vm.memory,
                &mut vm.chain,
                ContextType::Writeable,
                is_static,
                depth,
                fuel,
            )
        } else if op == DELEGATECALL {
            call_context(
                &mut vm.stack,
                &mut vm.memory,
                &mut vm.chain,
                ContextType::WriteableDelegate(&mut vm.storage),
                is_static,
                depth,
                fuel,
            )
        } else {
            call_context(
                &mut vm.stack,
                &mut vm.memory,
                &mut vm.chain,
                ContextType::Static,
                is_static,
                depth,
                fuel,
            )
        };
        vm.last_ret = returned;
    }
}

/// One instruction that is no call.
fn step_plain(code: &Vec<u8>, is_static: bool, op: u8, vm: &mut Vm)
    requires
        !is_call(op),
        1 <= old(vm).pc <= code.len(),
        bounded(old(vm).ret),
    ensures
        final(vm)@ == step(code@, is_static, op, old(vm)@),
        final(vm).pc <= code.len(),
        bounded(final(vm).ret),
{
    if ADD <= op && op <= SAR {
        step_alu(op, vm);
    } else if op == STOP || op == BLOCKHASH || op == POP || (JUMP <= op && op <= PC) || op == GAS
        || op == JUMPDEST || (PUSH0 <= op && op <= crate::opcodes::SWAP16) {
        step_flow(code, op, vm);
    } else if op == KECCAK256 || op == CODESIZE || op == CODECOPY || op == RETURNDATASIZE || op
        == RETURNDATACOPY || (MLOAD <= op && op <= MSTORE8) || op == MSIZE || op == RETURN || op
        == crate::opcodes::REVERT {
        step_memory(code, op, vm);
    } else if (ADDRESS <= op && op <= CALLDATACOPY) || (GASPRICE <= op && op <= EXTCODECOPY) || op
        == EXTCODEHASH || (COINBASE <= op && op <= crate::opcodes::BASEFEE) {
        step_env(op, vm);
    } else if op == SLOAD || op == SSTORE || (LOG0 <= op && op <= crate::opcodes::LOG4) {
        step_effect(is_static, op, vm);
    } else {
        fail(vm);
    }
}

/// The words of `v` in reverse order.
fn reversed(v: &Vec<Word>) -> (r: Vec<Word>)
    ensures
        r@ == v@.reverse(),
{
    let mut out: Vec<Word> = Vec::new();
    let mut i: usize = v.len();
    while i > 0
        invariant
            i <= v.len(),
            out.len() == v.len() - i,
            forall|j: int| 0 <= j < out.len() ==> out@[j] == v@[v.len() - 1 - j],
        decreases i,
    {
        i -= 1;
        out.push(v[i]);
    }
    assert(out@ =~= v@.reverse());
    out
}

/// Runs `code` from its first byte with a budget: `fuel` steps, of which
/// every instruction of this run and of the runs nested in it costs one,
/// and `depth` levels of nesting. What is left of the steps is written
/// back to `fuel`.
pub fn evm_bounded(
    code: &Vec<u8>,
    memory: &mut Vec<u8>,
    storage: &mut Storage,
    chain_state: &mut BlockchainState,
    is_static: bool,
    depth: u64,
    fuel: &mut u64,
) -> (result: EvmResult)
    ensures
        ({
            let (m, left) = run(
                code@,
                is_static,
                depth as nat,
                *old(fuel) as nat,
                start(old(memory)@, old(storage)@, old(chain_state)@),
            );
            &&& result@ == result_of(m)
            &&& final(memory)@ == m.memory
            &&& final(storage)@ == m.storage
            &&& final(chain_state)@ == m.chain
            &&& *final(fuel) == left
        }),
        *final(fuel) <= *old(fuel),
        bounded(result.ret),
    decreases depth, 2int,
{
    let mut vm = Vm {
        stack: Vec::new(),
        pc: 0,
        memory: Vec::new(),
        storage: Storage::new(),
        chain: BlockchainState {
            tx: TxData::default(),
            block: BlockData::default(),
            contracts_state: ContractsStateData::new(),
        },
        logs: Vec::new(),
        ret: None,
        last_ret: None,
        success: true,
        halted: false,
    };
    core::mem::swap(memory, &mut vm.memory);
    core::mem::swap(storage, &mut vm.storage);
    core::mem::swap(chain_state, &mut vm.chain);
    assert(vm.logs@.map_values(|l: EvmLog| l@) =~= Seq::<crate::LogView>::empty());
    let ghost goal = run(code@, is_static, depth as nat, *fuel as nat, vm@);
    while !vm.halted && vm.pc < code.len() && *fuel > 0
        invariant
            vm.pc <= code.len(),
            bounded(vm.ret),
            *fuel <= *old(fuel),
            run(code@, is_static, depth as nat, *fuel as nat, vm@) == goal,
        decreases *fuel,
    {
        let op: u8 = code[vm.pc];
        vm.pc = vm.pc + 1;
        *fuel = *fuel - 1;
        if op == CALL || op == DELEGATECALL || op == STATICCALL {
            step_call(op, is_static, depth, &mut vm, fuel);
        } else {
            step_plain(code, is_static, op, &mut vm);
        }
    }
    if !vm.halted && vm.pc < code.len() {
        fail(&mut vm);
    }
    core::mem::swap(memory, &mut vm.memory);
    core::mem::swap(storage, &mut vm.storage);
    core::mem::swap(chain_state, &mut vm.chain);
    let stack = reversed(&vm.stack);
    EvmResult { stack, logs: vm.logs, success: vm.success, ret: vm.ret }
}

} // verus!
