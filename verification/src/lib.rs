//! A deterministic interpreter for a stack-based virtual machine over 256-bit
//! words, with contracts that tie every entry point to a mathematical model
//! of the machine.

pub mod arith;
pub mod backend;
pub mod bytes;
pub mod interpreter;
pub mod laws;
pub mod machine;
pub mod opcodes;
pub mod operations;
pub mod state;
pub mod table;
pub mod word;

use vstd::prelude::*;

use crate::interpreter::evm_bounded;
use crate::machine::{result_of, run, start};
use crate::state::BlockchainState;
use crate::table::Storage;
use crate::word::Word;

verus! {

/// A record that a run emitted: the address of the contract that was
/// running, up to four topics, and data, all as text.
#[derive(Debug, Clone, PartialEq, Eq)]
pub struct EvmLog {
    pub address: String,
    pub data: String,
    pub topics: Vec<String>,
}

/// The texts of a list of strings.
pub open spec fn texts(v: Seq<String>) -> Seq<Seq<char>> {
    v.map_values(|t: String| t@)
}

/// What `EvmLog` holds, as mathematical values.
pub struct LogView {
    pub address: Seq<char>,
    pub data: Seq<char>,
    pub topics: Seq<Seq<char>>,
}

impl View for EvmLog {
    type V = LogView;

    open spec fn view(&self) -> LogView {
        LogView {
            address: self.address@,
            data: self.data@,
            topics: texts(self.topics@),
        }
    }
}

/// The bytes behind an optional byte vector.
pub open spec fn optional_bytes(b: Option<Vec<u8>>) -> Option<Seq<u8>> {
    match b {
        Some(v) => Some(v@),
        None => None,
    }
}

/// What a run leaves behind: the stack with its top first, the records
/// emitted, whether the run succeeded, and the bytes it returned.
pub struct EvmResult {
    pub stack: Vec<Word>,
    pub logs: Vec<EvmLog>,
    pub success: bool,
    pub ret: Option<Vec<u8>>,
}

/// What `EvmResult` holds, as mathematical values.
pub struct ResultView {
    pub stack: Seq<Word>,
    pub logs: Seq<LogView>,
    pub success: bool,
    pub ret: Option<Seq<u8>>,
}

impl View for EvmResult {
    type V = ResultView;

    open spec fn view(&self) -> ResultView {
        ResultView {
            stack: self.stack@,
            logs: self.logs@.map_values(|l: EvmLog| l@),
            success: self.success,
            ret: optional_bytes(self.ret),
        }
    }
}

/// How many instructions a run started by `evm` may execute, those of the
/// runs nested in it included.
pub const STEP_LIMIT: u64 = 10_000_000;

/// How many calls a run started by `evm` may nest.
pub const DEPTH_LIMIT: u64 = 1024;

/// Runs `code` from its first byte, on the memory, the storage and the
/// execution context given, until an instruction halts the run, a jump
/// fails, a byte is no instruction, or the code is used up. The run has
/// `STEP_LIMIT` steps and `DEPTH_LIMIT` levels of nesting; it fails when
/// they are used up. An instruction that lacks operands, reaches past the
/// limit of memory or asks for a fact that the context does not hold fails
/// the run too. The context is handed back as it was.
pub fn evm(
    code: &Vec<u8>,
    memory: &mut Vec<u8>,
    storage: &mut Storage,
    chain_state: &mut BlockchainState,
    is_static: bool,
) -> (result: EvmResult)
    ensures
        ({
            let m = run(
                code@,
                is_static,
                DEPTH_LIMIT as nat,
                STEP_LIMIT as nat,
                start(old(memory)@, old(storage)@, old(chain_state)@),
            ).0;
            &&& result@ == result_of(m)
            &&& final(memory)@ == m.memory
            &&& final(storage)@ == m.storage
            &&& final(chain_state)@ == m.chain
        }),
        final(chain_state)@ == old(chain_state)@,
{
    proof {
        crate::laws::lemma_run_keeps_context(
            code@,
            is_static,
            DEPTH_LIMIT as nat,
            STEP_LIMIT as nat,
            start(memory@, storage@, chain_state@),
        );
    }
    let mut fuel: u64 = STEP_LIMIT;
    evm_bounded(code, memory, storage, chain_state, is_static, DEPTH_LIMIT, &mut fuel)
}

} // verus!
