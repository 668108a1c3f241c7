//! Jumps, and the rule that says where a jump may land.

use vstd::prelude::*;

use crate::opcodes::{JUMPDEST, PUSH0, PUSH32};
use crate::operations::{peek, pop1, pop2, popped};
use crate::word::Word;

verus! {

/// A jump was asked to land where it may not.
#[derive(Debug, Clone, Copy, PartialEq, Eq, Structural)]
pub struct InvalidJumpError;

/// How many bytes of immediate data follow `opcode`: one to 32 for a push
/// instruction that carries data, and none for any other byte.
pub open spec fn immediate_len(opcode: u8) -> int {
    if PUSH0 < opcode <= PUSH32 {
        opcode - PUSH0
    } else {
        0
    }
}

/// Among the 32 bytes before `dest`, the nearest byte that is a push
/// instruction with data carries enough of it to reach `dest`.
pub open spec fn shadowed(code: Seq<u8>, dest: int) -> bool {
    exists|i: int|
        1 <= i <= 32 && i <= dest && #[trigger] immediate_len(code[dest - i]) >= i && forall|j: int|
            1 <= j < i ==> #[trigger] immediate_len(code[dest - j]) == 0
}

/// A jump may land on `dest`: the byte there is the jump marker, and no
/// push instruction before it reaches it with its data.
pub open spec fn valid_destination(code: Seq<u8>, dest: Word) -> bool {
    &&& dest@ < code.len()
    &&& code[dest@ as int] == JUMPDEST
    &&& !shadowed(code, dest@ as int)
}

/// Decides `valid_destination`, and gives the destination as an index.
pub fn check_destination(code: &Vec<u8>, dest: &Word) -> (r: Option<usize>)
    ensures
        match r {
            Some(d) => valid_destination(code@, *dest) && d == dest@,
            None => !valid_destination(code@, *dest),
        },
{
    let length: usize = code.len();
    let at: Option<usize> = dest.to_usize();
    if at.is_none() {
        return None;
    }
    let d: usize = at.unwrap();
    if d >= length || code[d] != JUMPDEST {
        return None;
    }
    let mut i: usize = 1;
    while i <= 32 && i <= d
        invariant
            1 <= i <= 33,
            d < code.len(),
            d == dest@,
            code@[d as int] == JUMPDEST,
            forall|j: int| 1 <= j < i ==> #[trigger] immediate_len(code@[d - j]) == 0,
        decreases 33 - i,
    {
        let opcode: u8 = code[d - i];
        if opcode > PUSH0 && opcode <= PUSH32 {
            let n_bytes: usize = (opcode - PUSH0) as usize;
            if n_bytes >= i {
                assert(immediate_len(code@[d - i]) >= i);
                return None;
            }
            assert(!shadowed(code@, d as int)) by {
                if shadowed(code@, d as int) {
                    let k = choose|k: int|
                        1 <= k <= 32 && k <= d && #[trigger] immediate_len(code@[d - k]) >= k
                            && forall|j: int|
                            1 <= j < k ==> #[trigger] immediate_len(code@[d - j]) == 0;
                    if k < i {
                        assert(immediate_len(code@[d - k]) == 0);
                    } else if k > i {
                        assert(immediate_len(code@[d - i]) == 0);
                    }
                }
            }
            return Some(d);
        }
        i += 1;
    }
    assert(!shadowed(code@, d as int)) by {
        if shadowed(code@, d as int) {
            let k = choose|k: int|
                1 <= k <= 32 && k <= d && #[trigger] immediate_len(code@[d - k]) >= k && forall|
                    j: int,
                |
                    1 <= j < k ==> #[trigger] immediate_len(code@[d - j]) == 0;
            assert(immediate_len(code@[d - k]) == 0);
        }
    }
    Some(d)
}

/// Takes the destination off the stack and moves the program counter
/// there, if a jump may land there.
pub fn jump(stack: &mut Vec<Word>, code: &Vec<u8>, pc: &mut usize) -> (r: Result<
    (),
    InvalidJumpError,
>)
    requires
        old(stack).len() >= 1,
    ensures
        final(stack)@ == popped(old(stack)@, 1),
        r is Ok <==> valid_destination(code@, peek(old(stack)@, 0)),
        r is Ok ==> *final(pc) == peek(old(stack)@, 0)@,
        r is Err ==> *final(pc) == *old(pc),
{
    let offset = pop1(stack);
    match check_destination(code, &offset) {
        Some(d) => {
            *pc = d;
            Ok(())
        },
        None => Err(InvalidJumpError),
    }
}

/// Takes the destination and the condition off the stack. A zero condition
/// leaves the program counter alone; any other makes the jump.
pub fn jump_if(stack: &mut Vec<Word>, code: &Vec<u8>, pc: &mut usize) -> (r: Result<
    (),
    InvalidJumpError,
>)
    requires
        old(stack).len() >= 2,
    ensures
        final(stack)@ == popped(old(stack)@, 2),
        r is Ok <==> (peek(old(stack)@, 1)@ == 0 || valid_destination(
            code@,
            peek(old(stack)@, 0),
        )),
        r is Ok && peek(old(stack)@, 1)@ != 0 ==> *final(pc) == peek(old(stack)@, 0)@,
        r is Err || peek(old(stack)@, 1)@ == 0 ==> *final(pc) == *old(pc),
{
    let (offset, condition) = pop2(stack);
    if condition.is_zero() {
        return Ok(());
    }
    match check_destination(code, &offset) {
        Some(d) => {
            *pc = d;
            Ok(())
        },
        None => Err(InvalidJumpError),
    }
}

} // verus!
