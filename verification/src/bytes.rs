//! Big-endian byte strings and the numbers they stand for, and the
//! zero-padded reading of a byte source.

use vstd::prelude::*;

use crate::word::{modulus, Word};

verus! {

/// The number that a big-endian byte string stands for.
pub open spec fn be_value(s: Seq<u8>) -> nat
    decreases s.len(),
{
    if s.len() == 0 {
        0
    } else {
        be_value(s.drop_last()) * 256 + s.last() as nat
    }
}

/// The big-endian form of `n` in `len` bytes; digits beyond `len` are dropped.
pub open spec fn be_bytes(n: nat, len: nat) -> Seq<u8>
    decreases len,
{
    if len == 0 {
        Seq::empty()
    } else {
        be_bytes(n / 256, (len - 1) as nat).push((n % 256) as u8)
    }
}

/// 256 to the power `len`: the number of byte strings of that length.
pub open spec fn byte_range(len: nat) -> nat
    decreases len,
{
    if len == 0 {
        1
    } else {
        256 * byte_range((len - 1) as nat)
    }
}

/// The word that up to 32 big-endian bytes stand for.
pub open spec fn word_of_bytes(s: Seq<u8>) -> Word {
    Word::from_nat(be_value(s))
}

/// The 32 big-endian bytes of a word.
pub open spec fn bytes_of_word(w: Word) -> Seq<u8> {
    be_bytes(w@, 32)
}

/// `size` bytes of `src` from `offset` on, with zero for every position past
/// the end of `src`.
pub open spec fn padded(src: Seq<u8>, offset: nat, size: nat) -> Seq<u8> {
    Seq::new(
        size,
        |i: int|
            if offset + i < src.len() {
                src[offset + i]
            } else {
                0u8
            },
    )
}

/// The big-endian form in `len` bytes has `len` bytes.
pub proof fn lemma_be_bytes_len(n: nat, len: nat)
    ensures
        be_bytes(n, len).len() == len,
    decreases len,
{
    if len > 0 {
        lemma_be_bytes_len(n / 256, (len - 1) as nat);
    }
}

/// 32 bytes hold as many numbers as a word.
pub proof fn lemma_byte_range_32()
    ensures
        byte_range(32) == modulus(),
{
    reveal_with_fuel(byte_range, 33);
}

/// Writing a number in enough bytes and reading it back gives the number.
pub proof fn lemma_be_round_trip(n: nat, len: nat)
    requires
        n < byte_range(len),
    ensures
        be_value(be_bytes(n, len)) == n,
    decreases len,
{
    if len > 0 {
        let head = be_bytes(n / 256, (len - 1) as nat);
        lemma_be_round_trip(n / 256, (len - 1) as nat);
        assert(be_bytes(n, len).drop_last() =~= head);
    }
}

/// The 32 bytes of a word stand for the word.
pub proof fn lemma_word_round_trip(w: Word)
    ensures
        bytes_of_word(w).len() == 32,
        word_of_bytes(bytes_of_word(w)) == w,
{
    lemma_be_bytes_len(w@, 32);
    lemma_byte_range_32();
    lemma_be_round_trip(w@, 32);
    w.lemma_view_from_nat();
}

/// Copies `size` bytes of `src` from `offset` on, with zero for every
/// position past the end of `src`.
pub fn padded_copy(src: &[u8], offset: &Word, size: usize) -> (r: Vec<u8>)
    ensures
        r@ == padded(src@, offset@, size as nat),
{
    let start: Option<usize> = offset.to_usize();
    let length: usize = src.len();
    let mut out: Vec<u8> = Vec::new();
    let mut i: usize = 0;
    while i < size
        invariant
            i <= size,
            length == src@.len(),
            match start {
                Some(s) => s == offset@,
                None => offset@ > usize::MAX,
            },
            out@ == padded(src@, offset@, i as nat),
        decreases size - i,
    {
        let byte: u8 = match start {
            Some(s) => if s < length && i < length - s {
                src[s + i]
            } else {
                0u8
            },
            None => 0u8,
        };
        out.push(byte);
        i += 1;
        assert(out@ =~= padded(src@, offset@, i as nat));
    }
    out
}

} // verus!
