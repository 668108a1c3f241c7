//! The instruction bytes.

use vstd::prelude::*;

verus! {

pub const STOP: u8 = 0x00u8;
pub const ADD: u8 = 0x01u8;
pub const MUL: u8 = 0x02u8;
pub const SUB: u8 = 0x03u8;
pub const DIV: u8 = 0x04u8;
pub const SDIV: u8 = 0x05u8;
pub const MOD: u8 = 0x06u8;
pub const SMOD: u8 = 0x07u8;
pub const ADDMOD: u8 = 0x08u8;
pub const MULMOD: u8 = 0x09u8;
pub const EXP: u8 = 0x0au8;
pub const SIGNEXTEND: u8 = 0x0bu8;
pub const LT: u8 = 0x10u8;
pub const GT: u8 = 0x11u8;
pub const SLT: u8 = 0x12u8;
pub const SGT: u8 = 0x13u8;
pub const EQ: u8 = 0x14u8;
pub const ISZERO: u8 = 0x15u8;
pub const AND: u8 = 0x16u8;
pub const OR: u8 = 0x17u8;
pub const XOR: u8 = 0x18u8;
pub const NOT: u8 = 0x19u8;
pub const BYTE: u8 = 0x1au8;
pub const SHL: u8 = 0x1bu8;
pub const SHR: u8 = 0x1cu8;
pub const SAR: u8 = 0x1du8;
pub const KECCAK256: u8 = 0x20u8;
pub const ADDRESS: u8 = 0x30u8;
pub const BALANCE: u8 = 0x31u8;
pub const ORIGIN: u8 = 0x32u8;
pub const CALLER: u8 = 0x33u8;
pub const CALLVALUE: u8 = 0x34u8;
pub const CALLDATALOAD: u8 = 0x35u8;
pub const CALLDATASIZE: u8 = 0x36u8;
pub const CALLDATACOPY: u8 = 0x37u8;
pub const CODESIZE: u8 = 0x38u8;
pub const CODECOPY: u8 = 0x39u8;
pub const GASPRICE: u8 = 0x3au8;
pub const EXTCODESIZE: u8 = 0x3bu8;
pub const EXTCODECOPY: u8 = 0x3cu8;
pub const RETURNDATASIZE: u8 = 0x3du8;
pub const RETURNDATACOPY: u8 = 0x3eu8;
pub const EXTCODEHASH: u8 = 0x3fu8;
pub const BLOCKHASH: u8 = 0x40u8;
pub const COINBASE: u8 = 0x41u8;
pub const TIMESTAMP: u8 = 0x42u8;
pub const NUMBER: u8 = 0x43u8;
pub const DIFFICULTY: u8 = 0x44u8;
pub const GASLIMIT: u8 = 0x45u8;
pub const CHAINID: u8 = 0x46u8;
pub const SELFBALANCE: u8 = 0x47u8;
pub const BASEFEE: u8 = 0x48u8;
pub const POP: u8 = 0x50u8;
pub const MLOAD: u8 = 0x51u8;
pub const MSTORE: u8 = 0x52u8;
pub const MSTORE8: u8 = 0x53u8;
pub const SLOAD: u8 = 0x54u8;
pub const SSTORE: u8 = 0x55u8;
pub const JUMP: u8 = 0x56u8;
pub const JUMPI: u8 = 0x57u8;
pub const PC: u8 = 0x58u8;
pub const MSIZE: u8 = 0x59u8;
pub const GAS: u8 = 0x5au8;
pub const JUMPDEST: u8 = 0x5bu8;
pub const PUSH0: u8 = 0x5fu8;
pub const PUSH32: u8 = 0x7fu8;
pub const DUP1: u8 = 0x80u8;
pub const DUP16: u8 = 0x8fu8;
pub const SWAP1: u8 = 0x90u8;
pub const SWAP16: u8 = 0x9fu8;
pub const LOG0: u8 = 0xa0u8;
pub const LOG4: u8 = 0xa4u8;
pub const CALL: u8 = 0xf1u8;
pub const RETURN: u8 = 0xf3u8;
pub const DELEGATECALL: u8 = 0xf4u8;
pub const STATICCALL: u8 = 0xfau8;
pub const REVERT: u8 = 0xfdu8;

} // verus!
