//! The scratch memory: a byte buffer that grows in steps of 32 bytes when an
//! access reaches past its end, and never shrinks.

use vstd::prelude::*;
use vstd::slice::slice_subrange;

use crate::bytes::{bytes_of_word, word_of_bytes};
use crate::operations::{peek, pop1, pop2, popped};
use crate::word::Word;

verus! {

/// The least multiple of 32 that is not below `n`.
pub open spec fn ceil32(n: nat) -> nat {
    ((n + 31) / 32 * 32) as nat
}

/// The memory after an access that ends at `end`: unchanged where `end` is
/// inside it, and else grown with zero bytes to the least multiple of 32
/// that covers `end`.
pub open spec fn expanded(mem: Seq<u8>, end: nat) -> Seq<u8> {
    if end > mem.len() {
        mem + Seq::new((ceil32(end) - mem.len()) as nat, |i: int| 0u8)
    } else {
        mem
    }
}

/// The `size` bytes from `offset` on, in the memory grown to hold them.
pub open spec fn read(mem: Seq<u8>, offset: nat, size: nat) -> Seq<u8> {
    expanded(mem, offset + size).subrange(offset as int, (offset + size) as int)
}

/// The memory grown to hold `bytes` at `offset`, with `bytes` put there.
pub open spec fn written(mem: Seq<u8>, offset: nat, bytes: Seq<u8>) -> Seq<u8> {
    let grown = expanded(mem, offset + bytes.len());
    Seq::new(
        grown.len(),
        |i: int|
            if offset <= i < offset + bytes.len() {
                bytes[i - offset]
            } else {
                grown[i]
            },
    )
}

/// Grows the memory, if it must, so that it covers an access ending at
/// `end`.
pub fn expand_memory(memory: &mut Vec<u8>, end: usize)
    requires
        end + 31 <= usize::MAX,
    ensures
        final(memory)@ == expanded(old(memory)@, end as nat),
{
    if end > memory.len() {
        let target: usize = (end + 31) / 32 * 32;
        let ghost before = memory@;
        while memory.len() < target
            invariant
                before.len() <= memory.len() <= target,
                memory@ == before + Seq::new((memory.len() - before.len()) as nat, |i: int| 0u8),
            decreases target - memory.len(),
        {
            memory.push(0u8);
            assert(memory@ =~= before + Seq::new(
                (memory.len() - before.len()) as nat,
                |i: int| 0u8,
            ));
        }
    }
}

/// Reads the 32 bytes from `offset` on as one word.
pub fn read_memory(memory: &mut Vec<u8>, offset: usize) -> (r: Word)
    requires
        offset + 63 <= usize::MAX,
    ensures
        final(memory)@ == expanded(old(memory)@, (offset + 32) as nat),
        r == word_of_bytes(read(old(memory)@, offset as nat, 32)),
{
    expand_memory(memory, offset + 32);
    Word::from_be_bytes(slice_subrange(memory.as_slice(), offset, offset + 32))
}

/// Reads the `size` bytes from `offset` on.
pub fn read_memory_bytes(memory: &mut Vec<u8>, offset: usize, size: usize) -> (r: Vec<u8>)
    requires
        offset + size + 31 <= usize::MAX,
    ensures
        final(memory)@ == expanded(old(memory)@, (offset + size) as nat),
        r@ == read(old(memory)@, offset as nat, size as nat),
{
    expand_memory(memory, offset + size);
    vstd::slice::slice_to_vec(slice_subrange(memory.as_slice(), offset, offset + size))
}

/// Writes `bytes` from `offset` on.
pub fn write_memory(memory: &mut Vec<u8>, offset: usize, bytes: &Vec<u8>)
    requires
        offset + bytes.len() + 31 <= usize::MAX,
    ensures
        final(memory)@ == written(old(memory)@, offset as nat, bytes@),
{
    expand_memory(memory, offset + bytes.len());
    let ghost grown = memory@;
    let mut i: usize = 0;
    while i < bytes.len()
        invariant
            i <= bytes.len(),
            offset + bytes.len() <= memory.len(),
            memory.len() == grown.len(),
            forall|j: int|
                0 <= j < memory.len() ==> memory@[j] == (if offset <= j < offset + i {
                    bytes@[j - offset]
                } else {
                    grown[j]
                }),
        decreases bytes.len() - i,
    {
        memory.set(offset + i, bytes[i]);
        i += 1;
    }
    assert(memory@ =~= written(old(memory)@, offset as nat, bytes@));
}

/// Takes an offset and a word off the stack and writes the 32 bytes of the
/// word at the offset.
pub fn memstore(stack: &mut Vec<Word>, memory: &mut Vec<u8>)
    requires
        old(stack).len() >= 2,
        peek(old(stack)@, 0)@ + 63 <= usize::MAX,
    ensures
        final(stack)@ == popped(old(stack)@, 2),
        final(memory)@ == written(
            old(memory)@,
            peek(old(stack)@, 0)@,
            bytes_of_word(peek(old(stack)@, 1)),
        ),
{
    let (at, word) = pop2(stack);
    let offset: usize = at.to_usize().unwrap();
    let word_bytes = word.to_be_bytes();
    write_memory(memory, offset, &word_bytes)
}

/// Takes an offset and a word off the stack and writes the lowest byte of
/// the word at the offset.
pub fn memstore8(stack: &mut Vec<Word>, memory: &mut Vec<u8>)
    requires
        old(stack).len() >= 2,
        peek(old(stack)@, 0)@ + 32 <= usize::MAX,
    ensures
        final(stack)@ == popped(old(stack)@, 2),
        final(memory)@ == written(
            old(memory)@,
            peek(old(stack)@, 0)@,
            seq![(peek(old(stack)@, 1)@ % 256) as u8],
        ),
{
    let (at, word) = pop2(stack);
    let offset: usize = at.to_usize().unwrap();
    let mut one: Vec<u8> = Vec::new();
    one.push(word.low_byte());
    assert(one@ =~= seq![(word@ % 256) as u8]);
    write_memory(memory, offset, &one)
}

/// Takes an offset off the stack and pushes the word that the 32 bytes from
/// there on stand for.
pub fn memload(stack: &mut Vec<Word>, memory: &mut Vec<u8>)
    requires
        old(stack).len() >= 1,
        peek(old(stack)@, 0)@ + 63 <= usize::MAX,
    ensures
        final(stack)@ == popped(old(stack)@, 1).push(
            word_of_bytes(read(old(memory)@, peek(old(stack)@, 0)@, 32)),
        ),
        final(memory)@ == expanded(old(memory)@, peek(old(stack)@, 0)@ + 32),
{
    let at = pop1(stack);
    let offset: usize = at.to_usize().unwrap();
    let value = read_memory(memory, offset);
    stack.push(value);
}

/// Pushes the length of the memory in bytes.
pub fn memsize(stack: &mut Vec<Word>, memory: &Vec<u8>)
    ensures
        final(stack)@ == old(stack)@.push(Word::from_nat(memory@.len())),
{
    stack.push(Word::from_usize(memory.len()));
}

/// Memory never shrinks: an access leaves every byte that was there as it
/// was, and the bytes that it adds are zero and bring the length to a
/// multiple of 32.
pub proof fn lemma_memory_only_grows(mem: Seq<u8>, end: nat)
    ensures
        expanded(mem, end).len() >= mem.len(),
        expanded(mem, end).len() >= end,
        expanded(mem, end).subrange(0, mem.len() as int) == mem,
        forall|i: int| mem.len() <= i < expanded(mem, end).len() ==> expanded(mem, end)[i] == 0,
        end > mem.len() ==> expanded(mem, end).len() % 32 == 0 && expanded(mem, end).len() < end
            + 32,
{
    assert(expanded(mem, end).subrange(0, mem.len() as int) =~= mem);
}

/// Writing a word at an offset and reading 32 bytes from the same offset gives
/// the word back, whatever the memory held before.
pub proof fn lemma_store_then_load(mem: Seq<u8>, offset: nat, w: Word)
    ensures
        word_of_bytes(read(written(mem, offset, bytes_of_word(w)), offset, 32)) == w,
{
    crate::bytes::lemma_word_round_trip(w);
    let bytes = bytes_of_word(w);
    let after = written(mem, offset, bytes);
    assert(after.len() >= offset + 32);
    assert(read(after, offset, 32) =~= bytes);
}

} // verus!
