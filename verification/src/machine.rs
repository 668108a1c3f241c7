//! The mathematical model of the machine: its state, what one instruction
//! does to it, and what a whole run does.

use vstd::prelude::*;

use crate::arith::{
    bit_and, bit_not, bit_or, bit_xor, byte_at, difference, power, product, product_mod, quotient,
    remainder, shifted_left, shifted_right, shifted_right_signed, sign_extended, signed_quotient,
    signed_remainder, sum, sum_mod,
};
use crate::backend::hex_string;
use crate::bytes::{bytes_of_word, padded, word_of_bytes};
use crate::opcodes::{
    ADD, ADDMOD, ADDRESS, AND, BALANCE, BASEFEE, BLOCKHASH, BYTE, CALL, CALLDATACOPY,
    CALLDATALOAD, CALLDATASIZE, CALLER, CALLVALUE, CHAINID, CODECOPY, CODESIZE, COINBASE,
    DELEGATECALL, DIFFICULTY, DIV, DUP1, DUP16, EQ, EXP, EXTCODECOPY, EXTCODEHASH, EXTCODESIZE,
    GAS, GASLIMIT, GASPRICE, GT, ISZERO, JUMP, JUMPDEST, JUMPI, KECCAK256, LOG0, LOG4, LT, MLOAD,
    MOD, MSIZE, MSTORE, MSTORE8, MUL, MULMOD, NOT, NUMBER, OR, ORIGIN, PC, POP, PUSH0, PUSH32,
    RETURN, RETURNDATACOPY, RETURNDATASIZE, REVERT, SAR, SDIV, SELFBALANCE, SGT, SHL, SHR,
    SIGNEXTEND, SLOAD, SLT, SMOD, SSTORE, STATICCALL, STOP, SUB, SWAP1, SWAP16, TIMESTAMP, XOR,
};
use crate::operations::balance::balance_of;
use crate::operations::call::{call_data, value_sent};
use crate::operations::code::code_of;
use crate::operations::control_flow::valid_destination;
use crate::operations::hash::{code_hash, hash_word};
use crate::operations::log::{hex_text, topic_texts};
use crate::operations::memory::{expanded, read, written};
use crate::operations::storage::stored;
use crate::operations::{peek, popped};
use crate::state::{fact, ChainView, EntryView, TxView};
use crate::word::{modulus, Word};
use crate::{LogView, ResultView};

verus! {

/// No instruction may reach past this many bytes of memory.
pub const MEMORY_LIMIT: usize = 0x0100_0000;

/// The state of one run.
pub struct Machine {
    /// The operand stack; its last word is the top.
    pub stack: Seq<Word>,
    /// The place in the code of the next instruction.
    pub pc: nat,
    pub memory: Seq<u8>,
    pub storage: Map<Word, Word>,
    pub chain: ChainView,
    /// The records emitted so far.
    pub logs: Seq<LogView>,
    /// The bytes that the run returned.
    pub ret: Option<Seq<u8>>,
    /// The bytes that the last nested call returned.
    pub last_ret: Option<Seq<u8>>,
    pub success: bool,
    pub halted: bool,
}

/// The state in which a run begins.
pub open spec fn start(memory: Seq<u8>, storage: Map<Word, Word>, chain: ChainView) -> Machine {
    Machine {
        stack: Seq::empty(),
        pc: 0,
        memory,
        storage,
        chain,
        logs: Seq::empty(),
        ret: None,
        last_ret: None,
        success: true,
        halted: false,
    }
}

/// What a run that ended in `m` hands out: the stack with its top first,
/// the records, the verdict and the returned bytes.
pub open spec fn result_of(m: Machine) -> ResultView {
    ResultView { stack: m.stack.reverse(), logs: m.logs, success: m.success, ret: m.ret }
}

/// The run ends here as a failure; nothing else changes.
pub open spec fn fault(m: Machine) -> Machine {
    Machine { success: false, halted: true, ..m }
}

/// An access of `size` bytes from `offset` on stays within the limit.
pub open spec fn in_reach(offset: Word, size: Word) -> bool {
    offset@ + size@ <= MEMORY_LIMIT
}

/// The machine with `w` pushed.
pub open spec fn pushed(m: Machine, w: Word) -> Machine {
    Machine { stack: m.stack.push(w), ..m }
}

/// The machine with an optional fact pushed; a fault where the fact is
/// absent.
pub open spec fn pushed_fact(m: Machine, f: Option<Word>) -> Machine {
    match f {
        Some(w) => pushed(m, w),
        None => fault(m),
    }
}

/// The instructions that take two words and push one.
pub open spec fn is_binary(op: u8) -> bool {
    ||| ADD <= op <= SMOD
    ||| op == EXP
    ||| op == SIGNEXTEND
    ||| LT <= op <= EQ
    ||| AND <= op <= XOR
    ||| BYTE <= op <= SAR
}

/// What a two-operand instruction makes of the top word `a` and the word
/// `b` below it.
pub open spec fn binary_value(op: u8, a: Word, b: Word) -> Word {
    if op == ADD {
        sum(a, b)
    } else if op == MUL {
        product(a, b)
    } else if op == SUB {
        difference(a, b)
    } else if op == DIV {
        quotient(a, b)
    } else if op == SDIV {
        signed_quotient(a, b)
    } else if op == MOD {
        remainder(a, b)
    } else if op == SMOD {
        signed_remainder(a, b)
    } else if op == EXP {
        power(a, b)
    } else if op == SIGNEXTEND {
        sign_extended(a, b)
    } else if op == LT {
        Word::from_bool(a@ < b@)
    } else if op == GT {
        Word::from_bool(a@ > b@)
    } else if op == SLT {
        Word::from_bool(a.signed() < b.signed())
    } else if op == SGT {
        Word::from_bool(a.signed() > b.signed())
    } else if op == EQ {
        Word::from_bool(a == b)
    } else if op == AND {
        bit_and(a, b)
    } else if op == OR {
        bit_or(a, b)
    } else if op == XOR {
        bit_xor(a, b)
    } else if op == BYTE {
        byte_at(a, b)
    } else if op == SHL {
        shifted_left(a, b)
    } else if op == SHR {
        shifted_right(a, b)
    } else {
        shifted_right_signed(a, b)
    }
}

/// Instructions from 0x01 to 0x1d: arithmetic, comparison and bits.
pub open spec fn alu_step(op: u8, m: Machine) -> Machine {
    let s = m.stack;
    if is_binary(op) {
        if s.len() < 2 || (op == BYTE && peek(s, 0)@ == 32) {
            fault(m)
        } else {
            Machine { stack: popped(s, 2).push(binary_value(op, peek(s, 0), peek(s, 1))), ..m }
        }
    } else if op == ADDMOD || op == MULMOD {
        if s.len() < 3 {
            fault(m)
        } else {
            Machine {
                stack: popped(s, 3).push(
                    if op == ADDMOD {
                        sum_mod(peek(s, 0), peek(s, 1), peek(s, 2))
                    } else {
                        product_mod(peek(s, 0), peek(s, 1), peek(s, 2))
                    },
                ),
                ..m
            }
        }
    } else if op == ISZERO || op == NOT {
        if s.len() < 1 {
            fault(m)
        } else {
            Machine {
                stack: popped(s, 1).push(
                    if op == ISZERO {
                        Word::from_bool(peek(s, 0)@ == 0)
                    } else {
                        bit_not(peek(s, 0))
                    },
                ),
                ..m
            }
        }
    } else {
        fault(m)
    }
}

/// The instructions that `flow_step` describes.
pub open spec fn is_flow(op: u8) -> bool {
    ||| op == STOP
    ||| op == BLOCKHASH
    ||| op == POP
    ||| JUMP <= op <= PC
    ||| op == GAS
    ||| op == JUMPDEST
    ||| PUSH0 <= op <= SWAP16
}

/// Halting, pushes, stack shuffles and jumps. The program counter of `m` is
/// already past the instruction byte.
pub open spec fn flow_step(code: Seq<u8>, op: u8, m: Machine) -> Machine {
    let s = m.stack;
    if op == STOP {
        Machine { halted: true, ..m }
    } else if op == BLOCKHASH || op == JUMPDEST {
        m
    } else if op == POP {
        if s.len() < 1 {
            fault(m)
        } else {
            Machine { stack: popped(s, 1), ..m }
        }
    } else if op == JUMP {
        if s.len() < 1 {
            fault(m)
        } else if valid_destination(code, peek(s, 0)) {
            Machine { stack: popped(s, 1), pc: peek(s, 0)@, ..m }
        } else {
            fault(Machine { stack: popped(s, 1), ..m })
        }
    } else if op == JUMPI {
        if s.len() < 2 {
            fault(m)
        } else if peek(s, 1)@ == 0 {
            Machine { stack: popped(s, 2), ..m }
        } else if valid_destination(code, peek(s, 0)) {
            Machine { stack: popped(s, 2), pc: peek(s, 0)@, ..m }
        } else {
            fault(Machine { stack: popped(s, 2), ..m })
        }
    } else if op == PC {
        pushed(m, Word::from_nat((m.pc - 1) as nat))
    } else if op == GAS {
        pushed(m, Word::from_nat((modulus() - 1) as nat))
    } else if op <= PUSH32 {
        let n = (op - PUSH0) as nat;
        if m.pc + n > code.len() {
            fault(m)
        } else {
            Machine {
                stack: s.push(word_of_bytes(code.subrange(m.pc as int, (m.pc + n) as int))),
                pc: m.pc + n,
                ..m
            }
        }
    } else if op <= DUP16 {
        let n = op - DUP1 + 1;
        if s.len() < n {
            fault(m)
        } else {
            pushed(m, peek(s, n - 1))
        }
    } else {
        let n = op - SWAP1 + 1;
        if s.len() < n + 1 {
            fault(m)
        } else {
            Machine {
                stack: s.update(s.len() - 1, peek(s, n)).update(s.len() - 1 - n, peek(s, 0)),
                ..m
            }
        }
    }
}

/// The instructions that `memory_step` describes.
pub open spec fn is_memory(op: u8) -> bool {
    ||| op == KECCAK256
    ||| op == CODESIZE
    ||| op == CODECOPY
    ||| op == RETURNDATASIZE
    ||| op == RETURNDATACOPY
    ||| MLOAD <= op <= MSTORE8
    ||| op == MSIZE
    ||| op == RETURN
    ||| op == REVERT
}

/// The bytes that the last nested call returned; none where there was no
/// such call, or it returned nothing.
pub open spec fn return_data(m: Machine) -> Seq<u8> {
    match m.last_ret {
        Some(b) => b,
        None => Seq::empty(),
    }
}

/// The end of a run that hands out a stretch of memory: the offset and the
/// size come off the stack, the stretch becomes the returned bytes, and the
/// run halts with the given verdict.
pub open spec fn halt_with_memory(m: Machine, success: bool) -> Machine {
    let s = m.stack;
    if s.len() < 2 || !in_reach(peek(s, 0), peek(s, 1)) {
        fault(m)
    } else {
        Machine {
            stack: popped(s, 2),
            memory: expanded(m.memory, peek(s, 0)@ + peek(s, 1)@),
            ret: Some(read(m.memory, peek(s, 0)@, peek(s, 1)@)),
            success,
            halted: true,
            ..m
        }
    }
}

/// A copy into memory: the memory offset, the source offset and the size
/// come off the stack, and that many bytes of `src` are written, with zero
/// for every byte past its end.
pub open spec fn copy_step(m: Machine, src: Seq<u8>) -> Machine {
    let s = m.stack;
    if s.len() < 3 || !in_reach(peek(s, 0), peek(s, 2)) {
        fault(m)
    } else {
        Machine {
            stack: popped(s, 3),
            memory: written(m.memory, peek(s, 0)@, padded(src, peek(s, 1)@, peek(s, 2)@)),
            ..m
        }
    }
}

/// Instructions on memory, on the running code and on returned bytes.
pub open spec fn memory_step(code: Seq<u8>, op: u8, m: Machine) -> Machine {
    let s = m.stack;
    if op == MLOAD {
        if s.len() < 1 || peek(s, 0)@ + 32 > MEMORY_LIMIT {
            fault(m)
        } else {
            Machine {
                stack: popped(s, 1).push(word_of_bytes(read(m.memory, peek(s, 0)@, 32))),
                memory: expanded(m.memory, peek(s, 0)@ + 32),
                ..m
            }
        }
    } else if op == MSTORE {
        if s.len() < 2 || peek(s, 0)@ + 32 > MEMORY_LIMIT {
            fault(m)
        } else {
            Machine {
                stack: popped(s, 2),
                memory: written(m.memory, peek(s, 0)@, bytes_of_word(peek(s, 1))),
                ..m
            }
        }
    } else if op == MSTORE8 {
        if s.len() < 2 || peek(s, 0)@ + 1 > MEMORY_LIMIT {
            fault(m)
        } else {
            Machine {
                stack: popped(s, 2),
                memory: written(m.memory, peek(s, 0)@, seq![(peek(s, 1)@ % 256) as u8]),
                ..m
            }
        }
    } else if op == MSIZE {
        pushed(m, Word::from_nat(m.memory.len()))
    } else if op == KECCAK256 {
        if s.len() < 2 || !in_reach(peek(s, 0), peek(s, 1)) {
            fault(m)
        } else {
            Machine {
                stack: popped(s, 2).push(hash_word(read(m.memory, peek(s, 0)@, peek(s, 1)@))),
                memory: expanded(m.memory, peek(s, 0)@ + peek(s, 1)@),
                ..m
            }
        }
    } else if op == CODESIZE {
        pushed(m, Word::from_nat(code.len()))
    } else if op == CODECOPY {
        copy_step(m, code)
    } else if op == RETURNDATASIZE {
        pushed(m, Word::from_nat(return_data(m).len()))
    } else if op == RETURNDATACOPY {
        copy_step(m, return_data(m))
    } else if op == RETURN {
        halt_with_memory(m, true)
    } else {
        halt_with_memory(m, false)
    }
}

/// The instructions that `env_step` describes.
pub open spec fn is_env(op: u8) -> bool {
    ||| ADDRESS <= op <= CALLDATACOPY
    ||| GASPRICE <= op <= EXTCODECOPY
    ||| op == EXTCODEHASH
    ||| COINBASE <= op <= BASEFEE
}

/// Instructions that read the execution context.
pub open spec fn env_step(op: u8, m: Machine) -> Machine {
    let s = m.stack;
    let tx = m.chain.tx;
    let block = m.chain.block;
    let contracts = m.chain.contracts;
    if op == ADDRESS {
        pushed_fact(m, tx.to)
    } else if op == BALANCE {
        if s.len() < 1 {
            fault(m)
        } else {
            Machine { stack: popped(s, 1).push(balance_of(contracts, peek(s, 0))), ..m }
        }
    } else if op == ORIGIN {
        pushed_fact(m, tx.origin)
    } else if op == CALLER {
        pushed_fact(m, tx.from)
    } else if op == CALLVALUE {
        pushed(m, value_sent(tx))
    } else if op == CALLDATALOAD {
        if s.len() < 1 {
            fault(m)
        } else {
            Machine {
                stack: popped(s, 1).push(word_of_bytes(padded(call_data(tx), peek(s, 0)@, 32))),
                ..m
            }
        }
    } else if op == CALLDATASIZE {
        pushed(m, Word::from_nat(call_data(tx).len()))
    } else if op == CALLDATACOPY {
        copy_step(m, call_data(tx))
    } else if op == GASPRICE {
        pushed_fact(m, tx.gasprice)
    } else if op == EXTCODESIZE {
        if s.len() < 1 {
            fault(m)
        } else {
            Machine {
                stack: popped(s, 1).push(Word::from_nat(code_of(contracts, peek(s, 0)).len())),
                ..m
            }
        }
    } else if op == EXTCODECOPY {
        if s.len() < 4 || !in_reach(peek(s, 1), peek(s, 3)) {
            fault(m)
        } else {
            Machine {
                stack: popped(s, 4),
                memory: written(
                    m.memory,
                    peek(s, 1)@,
                    padded(code_of(contracts, peek(s, 0)), peek(s, 2)@, peek(s, 3)@),
                ),
                ..m
            }
        }
    } else if op == EXTCODEHASH {
        if s.len() < 1 {
            fault(m)
        } else {
            Machine { stack: popped(s, 1).push(code_hash(contracts, peek(s, 0))), ..m }
        }
    } else if op == COINBASE {
        pushed_fact(m, fact(block.coinbase))
    } else if op == TIMESTAMP {
        pushed_fact(m, fact(block.timestamp))
    } else if op == NUMBER {
        pushed_fact(m, fact(block.number))
    } else if op == DIFFICULTY {
        pushed_fact(m, fact(block.difficulty))
    } else if op == GASLIMIT {
        pushed_fact(m, fact(block.gaslimit))
    } else if op == CHAINID {
        pushed_fact(m, fact(block.chainid))
    } else if op == SELFBALANCE {
        match tx.to {
            Some(a) => pushed(m, balance_of(contracts, a)),
            None => fault(m),
        }
    } else {
        pushed_fact(m, fact(block.basefee))
    }
}

/// The instructions that `effect_step` describes.
pub open spec fn is_effect(op: u8) -> bool {
    ||| op == SLOAD
    ||| op == SSTORE
    ||| LOG0 <= op <= LOG4
}

/// Instructions on storage and the emission of records. In a static run a
/// write or a record is not made: the run ends as a revert does, with the
/// top two words of the stack read as offset and size.
pub open spec fn effect_step(is_static: bool, op: u8, m: Machine) -> Machine {
    let s = m.stack;
    if op == SLOAD {
        if s.len() < 1 {
            fault(m)
        } else {
            Machine { stack: popped(s, 1).push(stored(m.storage, peek(s, 0))), ..m }
        }
    } else if is_static {
        halt_with_memory(m, false)
    } else if op == SSTORE {
        if s.len() < 2 {
            fault(m)
        } else {
            Machine {
                stack: popped(s, 2),
                storage: m.storage.insert(peek(s, 0), peek(s, 1)),
                ..m
            }
        }
    } else {
        let n = (op - LOG0) as nat;
        if s.len() < n + 2 || !in_reach(peek(s, 0), peek(s, 1)) || m.chain.tx.to is None {
            fault(m)
        } else {
            Machine {
                stack: popped(s, (n + 2) as int),
                memory: expanded(m.memory, peek(s, 0)@ + peek(s, 1)@),
                logs: m.logs.push(
                    LogView {
                        address: hex_text(m.chain.tx.to.unwrap()),
                        data: hex_string(read(m.memory, peek(s, 0)@, peek(s, 1)@)),
                        topics: topic_texts(s, 2, n),
                    },
                ),
                ..m
            }
        }
    }
}

/// What the instruction `op`, which is no call, does to the machine. The
/// program counter of `m` is already past the instruction byte. A byte that
/// is no instruction ends the run as a failure.
pub open spec fn step(code: Seq<u8>, is_static: bool, op: u8, m: Machine) -> Machine {
    if ADD <= op <= SAR {
        alu_step(op, m)
    } else if is_flow(op) {
        flow_step(code, op, m)
    } else if is_memory(op) {
        memory_step(code, op, m)
    } else if is_env(op) {
        env_step(op, m)
    } else if is_effect(op) {
        effect_step(is_static, op, m)
    } else {
        fault(m)
    }
}

/// The three kinds of message call.
#[derive(Debug, Clone, Copy, PartialEq, Eq, Structural)]
pub enum CallKind {
    /// The callee runs in its own context and may write.
    Call,
    /// The callee runs in the caller's context, on the caller's storage.
    Delegate,
    /// The callee runs in its own context and may not write.
    Static,
}

/// The three call instructions.
pub open spec fn is_call(op: u8) -> bool {
    op == CALL || op == DELEGATECALL || op == STATICCALL
}

/// The kind of call that a call instruction makes.
pub open spec fn call_kind(op: u8) -> CallKind {
    if op == CALL {
        CallKind::Call
    } else if op == DELEGATECALL {
        CallKind::Delegate
    } else {
        CallKind::Static
    }
}

/// The place below the top of the offset of the arguments: a plain call has
/// a value before it, which the other kinds lack.
pub open spec fn args_place(kind: CallKind) -> int {
    if kind is Call {
        3
    } else {
        2
    }
}

/// How many words a call takes off the stack.
pub open spec fn call_arity(kind: CallKind) -> int {
    args_place(kind) + 4
}

/// The table holds code with bytes for `address`.
pub open spec fn has_code(contracts: Map<Word, EntryView>, address: Word) -> bool {
    contracts.dom().contains(address) && contracts[address].code matches Some(Some(_))
}

/// A call can be made: its operands are on the stack, the budget allows one
/// more level, the stretches of memory it names are within the limit, and
/// the callee has code.
pub open spec fn call_ready(
    kind: CallKind,
    depth: nat,
    stack: Seq<Word>,
    contracts: Map<Word, EntryView>,
) -> bool {
    let p = args_place(kind);
    &&& stack.len() >= call_arity(kind)
    &&& depth > 0
    &&& (peek(stack, p + 1)@ == 0 || in_reach(peek(stack, p), peek(stack, p + 1)))
    &&& peek(stack, p + 2)@ <= MEMORY_LIMIT
    &&& has_code(contracts, peek(stack, 1))
}

/// The arguments of a call: absent where their size is zero, else the
/// stretch of the caller's memory that the call names.
pub open spec fn call_arguments(kind: CallKind, stack: Seq<Word>, memory: Seq<u8>) -> Option<
    Seq<u8>,
> {
    let p = args_place(kind);
    if peek(stack, p + 1)@ == 0 {
        None
    } else {
        Some(read(memory, peek(stack, p)@, peek(stack, p + 1)@))
    }
}

/// The caller's memory once the arguments were read from it.
pub open spec fn staged_memory(kind: CallKind, stack: Seq<Word>, memory: Seq<u8>) -> Seq<u8> {
    let p = args_place(kind);
    if peek(stack, p + 1)@ == 0 {
        memory
    } else {
        expanded(memory, peek(stack, p)@ + peek(stack, p + 1)@)
    }
}

/// The code that a call runs.
pub open spec fn callee_code(stack: Seq<Word>, contracts: Map<Word, EntryView>) -> Seq<u8> {
    contracts[peek(stack, 1)].code_or_empty()
}

/// The transaction facts that the callee sees: the arguments as call data
/// and, unless the call is delegated, the callee as the running contract
/// and the caller's contract as the caller.
pub open spec fn callee_tx(kind: CallKind, stack: Seq<Word>, tx: TxView, args: Option<Seq<u8>>) -> TxView {
    if kind is Delegate {
        TxView { data: args, ..tx }
    } else {
        TxView { to: Some(peek(stack, 1)), from: tx.to, data: args, ..tx }
    }
}

/// What a call leaves to its caller.
pub struct CallEffect {
    /// The caller's stack: the operands are off it, and one is pushed for
    /// success, zero for failure.
    pub stack: Seq<Word>,
    /// The caller's memory, with the returned bytes written to it.
    pub memory: Seq<u8>,
    /// The storage on which the callee ran, as the callee left it.
    pub storage: Map<Word, Word>,
    /// The execution context, with the facts that were switched for the
    /// callee switched back.
    pub chain: ChainView,
    /// The bytes that the callee returned.
    pub ret: Option<Seq<u8>>,
    /// The steps left.
    pub fuel: nat,
}

/// The smaller of two budgets.
pub open spec fn least(a: nat, b: nat) -> nat {
    if a < b {
        a
    } else {
        b
    }
}

/// What a call that is ready does. The callee begins with an empty stack
/// and an empty memory, on the storage given, with the steps that the
/// caller has left and one level of nesting less; it is static if the
/// caller is or the call is of the static kind.
pub open spec fn call_outcome(
    kind: CallKind,
    is_static: bool,
    depth: nat,
    fuel: nat,
    stack: Seq<Word>,
    memory: Seq<u8>,
    storage: Map<Word, Word>,
    chain: ChainView,
) -> CallEffect
    decreases depth, fuel, 0nat,
{
    let p = args_place(kind);
    let staged = staged_memory(kind, stack, memory);
    let tx = callee_tx(kind, stack, chain.tx, call_arguments(kind, stack, memory));
    if depth == 0 {
        CallEffect { stack, memory, storage, chain, ret: None, fuel }
    } else {
        let (child, left) = run(
            callee_code(stack, chain.contracts),
            is_static || kind is Static,
            (depth - 1) as nat,
            fuel,
            start(Seq::empty(), storage, ChainView { tx, ..chain }),
        );
        CallEffect {
            stack: popped(stack, call_arity(kind)).push(Word::from_bool(child.success)),
            memory: match child.ret {
                Some(bytes) => written(staged, peek(stack, p + 2)@, bytes),
                None => staged,
            },
            storage: child.storage,
            chain: ChainView {
                tx: TxView {
                    to: chain.tx.to,
                    from: chain.tx.from,
                    data: chain.tx.data,
                    ..child.chain.tx
                },
                ..child.chain
            },
            ret: child.ret,
            fuel: least(left, fuel),
        }
    }
}

/// The storage on which the callee of a call made by `m` runs: the
/// caller's own for a delegated call, and an empty one otherwise.
pub open spec fn callee_storage(kind: CallKind, m: Machine) -> Map<Word, Word> {
    if kind is Delegate {
        m.storage
    } else {
        Map::empty()
    }
}

/// The caller `m` after a call with the given effect. The caller's storage
/// is the callee's where the call was delegated, and else untouched.
pub open spec fn after_call(kind: CallKind, m: Machine, effect: CallEffect) -> Machine {
    Machine {
        stack: effect.stack,
        memory: effect.memory,
        storage: if kind is Delegate {
            effect.storage
        } else {
            m.storage
        },
        chain: effect.chain,
        last_ret: effect.ret,
        ..m
    }
}

/// A whole run from `m` on, with `fuel` steps and `depth` levels of nesting
/// to spend: the state in which it ends, and the steps left. Every
/// instruction costs one step. The run ends when an instruction halts it,
/// when the program counter leaves the code, or as a failure when the
/// steps are used up or a call is not ready.
pub open spec fn run(code: Seq<u8>, is_static: bool, depth: nat, fuel: nat, m: Machine) -> (
    Machine,
    nat,
)
    decreases depth, fuel, 1nat,
{
    if m.halted || m.pc >= code.len() {
        (m, fuel)
    } else if fuel == 0 {
        (fault(m), 0)
    } else {
        let op = code[m.pc as int];
        let t = Machine { pc: m.pc + 1, ..m };
        let f = (fuel - 1) as nat;
        if !is_call(op) {
            run(code, is_static, depth, f, step(code, is_static, op, t))
        } else if !call_ready(call_kind(op), depth, t.stack, t.chain.contracts) {
            run(code, is_static, depth, f, fault(t))
        } else {
            let kind = call_kind(op);
            let effect = call_outcome(
                kind,
                is_static,
                depth,
                f,
                t.stack,
                t.memory,
                callee_storage(kind, t),
                t.chain,
            );
            run(code, is_static, depth, least(effect.fuel, f), after_call(kind, t, effect))
        }
    }
}

} // verus!
