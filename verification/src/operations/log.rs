//! The instruction that emits a record, and the textual form of words.

use vstd::prelude::*;
use vstd::string::{StrSliceExecFns, StringExecFns};

use crate::backend::{hex_encode, hex_string};
use crate::bytes::bytes_of_word;
use crate::operations::memory::{expanded, read, read_memory_bytes};
use crate::operations::{peek, pop1, pop2, popped};
use crate::state::{BlockchainState, SerializedU256};
use crate::word::Word;
use crate::{texts, EvmLog, LogView};

verus! {

/// How many characters `'0'` the text begins with.
pub open spec fn leading_zeros(s: Seq<char>) -> nat
    decreases s.len(),
{
    if s.len() > 0 && s[0] == '0' {
        1 + leading_zeros(s.drop_first())
    } else {
        0
    }
}

/// The textual form of a word: `0x`, then its hexadecimal digits without
/// leading zeros; zero is `0x0`.
pub open spec fn hex_text(w: Word) -> Seq<char> {
    let digits = hex_string(bytes_of_word(w));
    let kept = digits.skip(leading_zeros(digits) as int);
    seq!['0', 'x'] + (if kept.len() == 0 {
        seq!['0']
    } else {
        kept
    })
}

proof fn lemma_leading_zeros(s: Seq<char>, i: nat)
    requires
        i <= s.len(),
        forall|j: int| 0 <= j < i ==> s[j] == '0',
        i == s.len() || s[i as int] != '0',
    ensures
        leading_zeros(s) == i,
    decreases i,
{
    if i > 0 {
        let rest = s.drop_first();
        assert forall|j: int| 0 <= j < i - 1 implies rest[j] == '0' by {
            assert(rest[j] == s[j + 1]);
        }
        lemma_leading_zeros(rest, (i - 1) as nat);
    }
}

/// A value that has a textual form in hexadecimal.
pub trait IntoHexString: Sized {
    /// The text that `into_hex_string` gives.
    spec fn hex_form(self) -> Seq<char>;

    fn into_hex_string(self) -> (r: String)
        ensures
            r@ == self.hex_form(),
    ;
}

impl IntoHexString for Word {
    open spec fn hex_form(self) -> Seq<char> {
        hex_text(self)
    }

    fn into_hex_string(self) -> (r: String) {
        let bytes = self.to_be_bytes();
        let encoded = hex_encode(bytes.as_slice());
        let n: usize = encoded.as_str().unicode_len();
        let mut i: usize = 0;
        while i < n && encoded.as_str().get_char(i) == '0'
            invariant
                i <= n,
                n == encoded@.len(),
                forall|j: int| 0 <= j < i ==> encoded@[j] == '0',
            decreases n - i,
        {
            i += 1;
        }
        proof {
            lemma_leading_zeros(encoded@, i as nat);
            reveal_strlit("0x");
            reveal_strlit("0");
        }
        let mut out = String::from_str("0x");
        assert(out@ =~= seq!['0', 'x']);
        if i == n {
            out.append("0");
            assert("0"@ =~= seq!['0']);
        } else {
            out.append(encoded.as_str().substring_char(i, n));
        }
        out
    }
}

impl IntoHexString for SerializedU256 {
    open spec fn hex_form(self) -> Seq<char> {
        hex_text(self.value)
    }

    fn into_hex_string(self) -> (r: String) {
        self.value.into_hex_string()
    }
}

/// The topics of a record: the textual forms of `n` words of the stack,
/// from the given place below the top downwards.
pub open spec fn topic_texts(s: Seq<Word>, from: int, n: nat) -> Seq<Seq<char>> {
    Seq::new(n, |i: int| hex_text(peek(s, from + i)))
}

/// Takes an offset, a size and `n_topics` topics off the stack and makes a
/// record of them: the address of the running contract, the topics, and the
/// stretch of memory as data. The address is a fact that the context must
/// hold.
pub fn log(n_topics: u8, stack: &mut Vec<Word>, memory: &mut Vec<u8>, state: &BlockchainState) -> (r:
    EvmLog)
    requires
        old(stack).len() >= n_topics + 2,
        peek(old(stack)@, 0)@ + peek(old(stack)@, 1)@ + 31 <= usize::MAX,
        state@.tx.to is Some,
    ensures
        final(stack)@ == popped(old(stack)@, n_topics + 2),
        final(memory)@ == expanded(old(memory)@, peek(old(stack)@, 0)@ + peek(old(stack)@, 1)@),
        r@ == (LogView {
            address: hex_text(state@.tx.to.unwrap()),
            data: hex_string(read(old(memory)@, peek(old(stack)@, 0)@, peek(old(stack)@, 1)@)),
            topics: topic_texts(old(stack)@, 2, n_topics as nat),
        }),
{
    let (at, length) = pop2(stack);
    let offset: usize = at.to_usize().unwrap();
    let size: usize = length.to_usize().unwrap();
    let mut topics: Vec<String> = Vec::new();
    let mut i: u8 = 0;
    while i < n_topics
        invariant
            i <= n_topics,
            old(stack).len() >= n_topics + 2,
            stack@ == popped(old(stack)@, i + 2),
            topics.len() == i,
            texts(topics@) == topic_texts(old(stack)@, 2, i as nat),
        decreases n_topics - i,
    {
        let ghost before = topics@;
        let topic = pop1(stack);
        assert(topic == peek(old(stack)@, 2 + i));
        let text = topic.into_hex_string();
        topics.push(text);
        i += 1;
        assert(stack@ =~= popped(old(stack)@, i + 2));
        assert(texts(topics@) =~= topic_texts(old(stack)@, 2, i as nat)) by {
            let now = texts(topics@);
            assert forall|j: int| 0 <= j < i implies #[trigger] now[j] == hex_text(
                peek(old(stack)@, 2 + j),
            ) by {
                if j < i - 1 {
                    assert(topics@[j] == before[j]);
                    assert(texts(before)[j] == before[j]@);
                }
            }
        }
    }
    let data_bytes = read_memory_bytes(memory, offset, size);
    let data = hex_encode(data_bytes.as_slice());
    let tx_to: SerializedU256 = state.tx.to.unwrap();
    let address = tx_to.into_hex_string();
    EvmLog { address, topics, data }
}

} // verus!
