//! Laws of the machine: statements that hold of every input, proved from
//! the model.

use vstd::arithmetic::power::pow;
use vstd::prelude::*;

use crate::arith::{
    difference, power, product, quotient, remainder, signed_quotient, signed_remainder, sum,
};
use crate::bytes::padded;
use crate::machine::{
    after_call, call_arguments, call_kind, call_outcome, call_ready, callee_code,
    callee_storage, callee_tx, copy_step, effect_step, fault, in_reach, is_call, least,
    memory_step, pushed, run, start, step, CallEffect, CallKind, Machine, MEMORY_LIMIT,
};
use crate::opcodes::{JUMP, JUMPDEST, LOG0, LOG4, MLOAD, MSTORE, SSTORE};
use crate::operations::control_flow::{immediate_len, shadowed, valid_destination};
use crate::operations::memory::{lemma_store_then_load, read};
use crate::operations::{peek, popped};
use crate::state::ChainView;
use crate::word::{modulus, Word};

verus! {

/// Sum, difference, product and power are taken modulo two to the power
/// 256.
pub proof fn lemma_arithmetic_wraps(a: Word, b: Word)
    ensures
        sum(a, b)@ == (a@ + b@) % modulus(),
        difference(a, b)@ == (a@ - b@) % (modulus() as int),
        product(a, b)@ == (a@ * b@) % modulus(),
        power(a, b)@ == pow(a@ as int, b@) % (modulus() as int),
{
    Word::lemma_from_nat_view((a@ + b@) % modulus());
    Word::lemma_from_nat_view(((a@ - b@) % (modulus() as int)) as nat);
    Word::lemma_from_nat_view((a@ * b@) % modulus());
    Word::lemma_from_nat_view((pow(a@ as int, b@) % (modulus() as int)) as nat);
}

/// Division and remainder by zero, unsigned and signed, give zero.
pub proof fn lemma_zero_divisor(x: Word, z: Word)
    requires
        z@ == 0,
    ensures
        quotient(x, z)@ == 0,
        remainder(x, z)@ == 0,
        signed_quotient(x, z)@ == 0,
        signed_remainder(x, z)@ == 0,
{
    Word::lemma_from_nat_view(0);
}

/// A jump to a place that holds no jump marker, or to a place outside the
/// code, ends the run as a failure: the destination is off the stack, and
/// memory, storage, context, records and returned bytes are as they were.
pub proof fn lemma_jump_needs_marker(
    code: Seq<u8>,
    is_static: bool,
    depth: nat,
    fuel: nat,
    m: Machine,
)
    requires
        !m.halted,
        m.pc < code.len(),
        code[m.pc as int] == JUMP,
        fuel > 0,
        m.stack.len() >= 1,
        peek(m.stack, 0)@ >= code.len() || code[peek(m.stack, 0)@ as int] != JUMPDEST,
    ensures
        run(code, is_static, depth, fuel, m).0 == (Machine {
            stack: popped(m.stack, 1),
            pc: m.pc + 1,
            success: false,
            halted: true,
            ..m
        }),
{
    let t = Machine { pc: m.pc + 1, ..m };
    let next = step(code, is_static, JUMP, t);
    assert(next == fault(Machine { stack: popped(m.stack, 1), ..t }));
    assert(run(code, is_static, depth, fuel, m) == run(
        code,
        is_static,
        depth,
        (fuel - 1) as nat,
        next,
    ));
}

/// A jump marker that lies within the data of a push instruction is no
/// destination: if `i` bytes before the marker stands a push instruction
/// with at least `i` bytes of data, and no byte between the two is a push
/// instruction with data, a jump to the marker is not valid.
pub proof fn lemma_marker_in_push_data(code: Seq<u8>, dest: Word, i: int)
    requires
        1 <= i <= 32,
        i <= dest@,
        immediate_len(code[dest@ - i]) >= i,
        forall|j: int| 1 <= j < i ==> immediate_len(#[trigger] code[dest@ - j]) == 0,
    ensures
        !valid_destination(code, dest),
{
    assert(shadowed(code, dest@ as int));
}

/// In a static run, a write to storage or the emission of a record is not
/// made: the run ends as a failure, and storage, records and context are as
/// they were. Where the top two words of the stack name a stretch of memory
/// within reach, that stretch is what the run returns.
pub proof fn lemma_static_forbids_effects(code: Seq<u8>, op: u8, m: Machine)
    requires
        op == SSTORE || LOG0 <= op <= LOG4,
    ensures
        ({
            let r = step(code, true, op, m);
            &&& !r.success
            &&& r.halted
            &&& r.storage == m.storage
            &&& r.logs == m.logs
            &&& r.chain == m.chain
            &&& m.stack.len() >= 2 && in_reach(peek(m.stack, 0), peek(m.stack, 1)) ==> r.ret
                == Some(read(m.memory, peek(m.stack, 0)@, peek(m.stack, 1)@))
        }),
{
}

/// A call that is not delegated leaves the caller's storage as it was,
/// whatever the callee did.
pub proof fn lemma_call_keeps_storage(kind: CallKind, m: Machine, effect: CallEffect)
    requires
        !(kind is Delegate),
    ensures
        after_call(kind, m, effect).storage == m.storage,
{
}

/// A delegated call runs the callee on the caller's storage and leaves the
/// callee's writes to the caller: the caller's storage after the call is
/// the storage in which the callee's run ended, and that run began on the
/// caller's storage. A write to storage changes the storage alone, not the
/// table of contracts.
pub proof fn lemma_delegate_writes_to_caller(
    is_static: bool,
    depth: nat,
    fuel: nat,
    m: Machine,
    w: Machine,
)
    requires
        depth > 0,
        w.stack.len() >= 2,
    ensures
        ({
            let effect = call_outcome(
                CallKind::Delegate,
                is_static,
                depth,
                fuel,
                m.stack,
                m.memory,
                m.storage,
                m.chain,
            );
            let callee = run(
                callee_code(m.stack, m.chain.contracts),
                is_static,
                (depth - 1) as nat,
                fuel,
                start(
                    Seq::empty(),
                    m.storage,
                    ChainView {
                        tx: callee_tx(
                            CallKind::Delegate,
                            m.stack,
                            m.chain.tx,
                            call_arguments(CallKind::Delegate, m.stack, m.memory),
                        ),
                        ..m.chain
                    },
                ),
            ).0;
            after_call(CallKind::Delegate, m, effect).storage == callee.storage
        }),
        effect_step(false, SSTORE, w).storage == w.storage.insert(
            peek(w.stack, 0),
            peek(w.stack, 1),
        ),
        effect_step(false, SSTORE, w).chain == w.chain,
{
}

/// A copy from a source reads zero for every position past the end of the
/// source, and has the size asked for.
pub proof fn lemma_copy_pads_with_zero(src: Seq<u8>, offset: nat, size: nat, i: int)
    requires
        0 <= i < size,
    ensures
        padded(src, offset, size).len() == size,
        offset + i >= src.len() ==> padded(src, offset, size)[i] == 0,
        offset + i < src.len() ==> padded(src, offset, size)[i] == src[offset + i],
{
}

/// A copy into memory fails only for want of operands or of reach, never
/// for the length of its source.
pub proof fn lemma_copy_never_fails_on_source(m: Machine, src: Seq<u8>)
    requires
        m.stack.len() >= 3,
        in_reach(peek(m.stack, 0), peek(m.stack, 2)),
    ensures
        copy_step(m, src).success == m.success,
        copy_step(m, src).halted == m.halted,
{
}

/// A word stored to memory and loaded from the same offset comes back as it
/// was: after the store instruction with the offset on top of the stack and
/// the word below it, the load instruction with the same offset pushes that
/// word.
pub proof fn lemma_store_load_round_trip(code: Seq<u8>, m: Machine)
    requires
        m.stack.len() >= 2,
        peek(m.stack, 0)@ + 32 <= MEMORY_LIMIT,
    ensures
        ({
            let stored = memory_step(code, MSTORE, m);
            let loaded = memory_step(code, MLOAD, pushed(stored, peek(m.stack, 0)));
            &&& stored.stack == popped(m.stack, 2)
            &&& loaded.stack == stored.stack.push(peek(m.stack, 1))
            &&& loaded.success == m.success
        }),
{
    let stored = memory_step(code, MSTORE, m);
    let again = pushed(stored, peek(m.stack, 0));
    lemma_store_then_load(m.memory, peek(m.stack, 0)@, peek(m.stack, 1));
    assert(peek(again.stack, 0) == peek(m.stack, 0));
    assert(popped(again.stack, 1) =~= stored.stack);
}

/// A run never ends with more steps than it began with.
pub proof fn lemma_run_spends_steps(
    code: Seq<u8>,
    is_static: bool,
    depth: nat,
    fuel: nat,
    m: Machine,
)
    ensures
        run(code, is_static, depth, fuel, m).1 <= fuel,
    decreases depth, fuel,
{
    if m.halted || m.pc >= code.len() {
    } else if fuel == 0 {
    } else {
        let op = code[m.pc as int];
        let t = Machine { pc: m.pc + 1, ..m };
        let f = (fuel - 1) as nat;
        if !is_call(op) {
            lemma_run_spends_steps(code, is_static, depth, f, step(code, is_static, op, t));
        } else if !call_ready(call_kind(op), depth, t.stack, t.chain.contracts) {
            lemma_run_spends_steps(code, is_static, depth, f, fault(t));
        } else {
            let kind = call_kind(op);
            let effect = call_outcome(
                kind,
                is_static,
                depth,
                f,
                t.stack,
                t.memory,
                callee_storage(kind, t),
                t.chain,
            );
            lemma_run_spends_steps(
                code,
                is_static,
                depth,
                least(effect.fuel, f),
                after_call(kind, t, effect),
            );
        }
    }
}

/// No instruction but a call touches the execution context.
pub proof fn lemma_step_keeps_context(code: Seq<u8>, is_static: bool, op: u8, m: Machine)
    ensures
        step(code, is_static, op, m).chain == m.chain,
{
}

/// A run leaves the execution context as it found it: the facts that a call
/// switches for its callee are switched back when the callee is over, and
/// nothing else changes them.
pub proof fn lemma_run_keeps_context(
    code: Seq<u8>,
    is_static: bool,
    depth: nat,
    fuel: nat,
    m: Machine,
)
    ensures
        run(code, is_static, depth, fuel, m).0.chain == m.chain,
    decreases depth, fuel,
{
    if m.halted || m.pc >= code.len() {
    } else if fuel == 0 {
    } else {
        let op = code[m.pc as int];
        let t = Machine { pc: m.pc + 1, ..m };
        let f = (fuel - 1) as nat;
        if !is_call(op) {
            lemma_step_keeps_context(code, is_static, op, t);
            lemma_run_keeps_context(code, is_static, depth, f, step(code, is_static, op, t));
        } else if !call_ready(call_kind(op), depth, t.stack, t.chain.contracts) {
            lemma_run_keeps_context(code, is_static, depth, f, fault(t));
        } else {
            let kind = call_kind(op);
            let storage = callee_storage(kind, t);
            let tx = callee_tx(kind, t.stack, t.chain.tx, call_arguments(kind, t.stack, t.memory));
            let begin = start(Seq::empty(), storage, ChainView { tx, ..t.chain });
            lemma_run_keeps_context(
                callee_code(t.stack, t.chain.contracts),
                is_static || kind is Static,
                (depth - 1) as nat,
                f,
                begin,
            );
            let effect = call_outcome(
                kind,
                is_static,
                depth,
                f,
                t.stack,
                t.memory,
                storage,
                t.chain,
            );
            assert(effect.chain == t.chain);
            lemma_run_keeps_context(
                code,
                is_static,
                depth,
                least(effect.fuel, f),
                after_call(kind, t, effect),
            );
        }
    }
}

} // verus!
