use evm::evm;
use evm::operations::memory::{
    expand_memory, memload, memsize, memstore, memstore8, read_memory, read_memory_bytes,
    write_memory,
};
use evm::state::{BlockData, BlockchainState, ContractsStateData, SerializedBytes, TxData};
use evm::table::Storage;
use evm::word::Word;
use evm::EvmResult;

fn mem_word(text: &str) -> Word {
    let mut digits = String::new();
    for _ in text.len()..64 {
        digits.push('0');
    }
    digits.push_str(text);
    Word::from_be_bytes(&hex::decode(digits).unwrap())
}

fn run_with_data(code: &str, data: Option<&str>) -> (EvmResult, Vec<u8>) {
    let code: Vec<u8> = hex::decode(code).unwrap();
    let mut memory: Vec<u8> = Vec::new();
    let mut storage = Storage::new();
    let mut tx = TxData::default();
    tx.data = data.map(|d| SerializedBytes { value: hex::decode(d).unwrap() });
    let mut chain = BlockchainState {
        tx,
        block: BlockData::default(),
        contracts_state: ContractsStateData::new(),
    };
    let result = evm(&code, &mut memory, &mut storage, &mut chain, false);
    (result, memory)
}

#[test]
fn mstore_then_mload_gives_the_word_back() {
    let (result, memory) = run_with_data(
        "7f0102030405060708091011121314151617181920212223242526272829303132600052600051",
        None,
    );
    assert!(result.success);
    assert_eq!(
        result.stack,
        vec![mem_word("0102030405060708091011121314151617181920212223242526272829303132")]
    );
    assert_eq!(memory.len(), 32);
    assert_eq!(memory[0], 0x01);
    assert_eq!(memory[31], 0x32);
}

#[test]
fn store_and_load_at_an_odd_offset() {
    let x = mem_word("ff00000000000000000000000000000000000000000000000000000000000011");
    let mut stack = vec![x, Word::from_u64(5)];
    let mut memory: Vec<u8> = vec![7; 3];
    memstore(&mut stack, &mut memory);
    assert!(stack.is_empty());
    assert_eq!(memory.len(), 64);
    assert_eq!(&memory[0..5], &[7, 7, 7, 0, 0]);
    assert_eq!(memory[5], 0xff);
    assert_eq!(memory[36], 0x11);
    assert_eq!(memory[37], 0);
    let mut stack = vec![Word::from_u64(5)];
    memload(&mut stack, &mut memory);
    assert_eq!(stack, vec![x]);
    assert_eq!(memory.len(), 64);
}

#[test]
fn mload_reads_the_tail_of_a_stored_word() {
    let (result, memory) = run_with_data(
        "7f0102030405060708091011121314151617181920212223242526272829303132600052601f51",
        None,
    );
    assert!(result.success);
    assert_eq!(
        result.stack,
        vec![mem_word("3200000000000000000000000000000000000000000000000000000000000000")]
    );
    assert_eq!(memory.len(), 64);
}

#[test]
fn mstore8_writes_one_byte_and_grows_to_32() {
    let (result, memory) = run_with_data("60ff601f53600051", None);
    assert!(result.success);
    assert_eq!(result.stack, vec![Word::from_u64(0xff)]);
    assert_eq!(memory.len(), 32);
    let mut stack = vec![mem_word("1234"), Word::zero()];
    let mut memory: Vec<u8> = Vec::new();
    memstore8(&mut stack, &mut memory);
    assert!(stack.is_empty());
    assert_eq!(memory.len(), 32);
    assert_eq!(memory[0], 0x34);
    assert_eq!(memory[1], 0);
}

#[test]
fn msize_counts_whole_words() {
    let (result, _) = run_with_data("59", None);
    assert_eq!(result.stack, vec![Word::zero()]);
    let (result, _) = run_with_data("6000515059", None);
    assert_eq!(result.stack, vec![Word::from_u64(0x20)]);
    let (result, _) = run_with_data("6039515059", None);
    assert_eq!(result.stack, vec![Word::from_u64(0x60)]);
    let (result, _) = run_with_data("60ff60005359", None);
    assert_eq!(result.stack, vec![Word::from_u64(0x20)]);
    let mut stack: Vec<Word> = Vec::new();
    memsize(&mut stack, &vec![0u8; 96]);
    assert_eq!(stack, vec![Word::from_u64(96)]);
}

#[test]
fn memory_grows_to_the_next_multiple_of_32_and_never_shrinks() {
    let mut memory: Vec<u8> = Vec::new();
    expand_memory(&mut memory, 0);
    assert_eq!(memory.len(), 0);
    expand_memory(&mut memory, 1);
    assert_eq!(memory.len(), 32);
    expand_memory(&mut memory, 32);
    assert_eq!(memory.len(), 32);
    expand_memory(&mut memory, 33);
    assert_eq!(memory.len(), 64);
    expand_memory(&mut memory, 5);
    assert_eq!(memory.len(), 64);
    assert!(memory.iter().all(|b| *b == 0));
    let mut odd: Vec<u8> = vec![9; 5];
    expand_memory(&mut odd, 5);
    assert_eq!(odd.len(), 5);
    expand_memory(&mut odd, 6);
    assert_eq!(odd.len(), 32);
    assert_eq!(&odd[0..6], &[9, 9, 9, 9, 9, 0]);
}

#[test]
fn reads_and_writes_grow_the_memory() {
    let mut memory: Vec<u8> = Vec::new();
    write_memory(&mut memory, 5, &vec![1, 2, 3]);
    assert_eq!(memory.len(), 32);
    assert_eq!(&memory[4..9], &[0, 1, 2, 3, 0]);
    let bytes = read_memory_bytes(&mut memory, 30, 4);
    assert_eq!(bytes, vec![0, 0, 0, 0]);
    assert_eq!(memory.len(), 64);
    let bytes = read_memory_bytes(&mut memory, 6, 2);
    assert_eq!(bytes, vec![2, 3]);
    assert_eq!(memory.len(), 64);
    let w = read_memory(&mut memory, 40);
    assert_eq!(w, Word::zero());
    assert_eq!(memory.len(), 96);
    let w = read_memory(&mut memory, 0);
    assert_eq!(
        w,
        mem_word("0000000000010203000000000000000000000000000000000000000000000000")
    );
}

#[test]
fn an_access_of_no_bytes_still_covers_its_offset() {
    let mut memory: Vec<u8> = Vec::new();
    let bytes = read_memory_bytes(&mut memory, 100, 0);
    assert!(bytes.is_empty());
    assert_eq!(memory.len(), 128);
    write_memory(&mut memory, 0, &Vec::new());
    assert_eq!(memory.len(), 128);
    let mut fresh: Vec<u8> = Vec::new();
    write_memory(&mut fresh, 0, &Vec::new());
    assert_eq!(fresh.len(), 0);
}

#[test]
fn an_access_beyond_the_limit_fails_the_run() {
    let (result, memory) = run_with_data("630100000051", None);
    assert!(!result.success);
    assert_eq!(result.stack, vec![Word::from_u64(0x0100_0000)]);
    assert_eq!(memory.len(), 0);
    let (result, _) = run_with_data(
        "7fffffffffffffffffffffffffffffffffffffffffffffffffffffffffffffffff51",
        None,
    );
    assert!(!result.success);
    let (result, _) = run_with_data("6001630100000053", None);
    assert!(!result.success);
}

#[test]
fn keccak_of_four_bytes_of_memory() {
    let (result, memory) = run_with_data(
        "7fffffffff000000000000000000000000000000000000000000000000000000006000526004600020",
        None,
    );
    assert!(result.success);
    assert_eq!(
        result.stack,
        vec![mem_word("29045a592007d0c246ef02c2223570da9522d0cf0f73282c79a1bc8f0bb2c238")]
    );
    assert_eq!(memory.len(), 32);
}

#[test]
fn keccak_of_nothing() {
    let (result, _) = run_with_data("6000600020", None);
    assert!(result.success);
    assert_eq!(
        result.stack,
        vec![mem_word("c5d2460186f7233c927e7db2dcc703c0e500b653ca82273b7bfad8045d85a470")]
    );
    assert_eq!(
        evm::operations::hash::keccak256_word(&[]),
        mem_word("c5d2460186f7233c927e7db2dcc703c0e500b653ca82273b7bfad8045d85a470")
    );
}

#[test]
fn calldataload_pads_with_zero() {
    let data = "000102030405060708090a0b0c0d0e0f101112131415161718191a1b1c1d1e1fff";
    let (result, _) = run_with_data("600035", Some(data));
    assert_eq!(
        result.stack,
        vec![mem_word("000102030405060708090a0b0c0d0e0f101112131415161718191a1b1c1d1e1f")]
    );
    let (result, _) = run_with_data("601f35", Some(data));
    assert!(result.success);
    assert_eq!(
        result.stack,
        vec![mem_word("1fff000000000000000000000000000000000000000000000000000000000000")]
    );
    let (result, _) = run_with_data("606435", Some(data));
    assert!(result.success);
    assert_eq!(result.stack, vec![Word::zero()]);
    let (result, _) = run_with_data(
        "7fffffffffffffffffffffffffffffffffffffffffffffffffffffffffffffffff35",
        Some(data),
    );
    assert!(result.success);
    assert_eq!(result.stack, vec![Word::zero()]);
    let (result, _) = run_with_data("600035", None);
    assert!(result.success);
    assert_eq!(result.stack, vec![Word::zero()]);
}

#[test]
fn calldatasize_counts_the_bytes() {
    let (result, _) = run_with_data("36", Some("0102030405"));
    assert_eq!(result.stack, vec![Word::from_u64(5)]);
    let (result, _) = run_with_data("36", None);
    assert_eq!(result.stack, vec![Word::zero()]);
}

#[test]
fn calldatacopy_past_the_end_pads_with_zero() {
    let (result, memory) = run_with_data("6008600260003759", Some("0102030405"));
    assert!(result.success);
    assert_eq!(result.stack, vec![Word::from_u64(32)]);
    assert_eq!(&memory[0..9], &[3, 4, 5, 0, 0, 0, 0, 0, 0]);
    assert_eq!(memory.len(), 32);
}

#[test]
fn calldatacopy_overwrites_with_the_padding() {
    let (result, memory) = run_with_data(
        "7fffffffffffffffffffffffffffffffffffffffffffffffffffffffffffffffff6000526004600360013760005100",
        Some("0102030405"),
    );
    assert!(result.success);
    assert_eq!(
        result.stack,
        vec![mem_word("ff04050000ffffffffffffffffffffffffffffffffffffffffffffffffffffff")]
    );
    assert_eq!(memory.len(), 32);
}

#[test]
fn calldatacopy_from_far_beyond_the_data_writes_zeros() {
    let (result, memory) = run_with_data(
        "7fffffffffffffffffffffffffffffffffffffffffffffffffffffffffffffffff60005260027fffffffffffffffffffffffffffffffffffffffffffffffffffffffffffffffff600037",
        Some("0102030405"),
    );
    assert!(result.success);
    assert_eq!(&memory[0..4], &[0, 0, 0xff, 0xff]);
}

#[test]
fn codesize_and_codecopy() {
    let (result, _) = run_with_data("7f00000000000000000000000000000000000000000000000000000000000000005038", None);
    assert_eq!(result.stack, vec![Word::from_u64(0x23)]);
    let (result, memory) = run_with_data("60206000600039600051", None);
    assert!(result.success);
    assert_eq!(
        result.stack,
        vec![mem_word("6020600060003960005100000000000000000000000000000000000000000000")]
    );
    assert_eq!(memory.len(), 32);
}

#[test]
fn return_hands_out_memory_and_halts() {
    let (result, memory) = run_with_data("60a26000526001601ff36001", None);
    assert!(result.success);
    assert_eq!(result.ret, Some(vec![0xa2]));
    assert!(result.stack.is_empty());
    assert_eq!(memory.len(), 32);
    let (result, _) = run_with_data("60006000f3", None);
    assert!(result.success);
    assert_eq!(result.ret, Some(Vec::new()));
}

#[test]
fn revert_hands_out_memory_and_fails() {
    let (result, _) = run_with_data("600560a26000526001601ffd6001", None);
    assert!(!result.success);
    assert_eq!(result.ret, Some(vec![0xa2]));
    assert_eq!(result.stack, vec![Word::from_u64(5)]);
}

#[test]
fn return_data_is_empty_before_any_call() {
    let (result, memory) = run_with_data("3d60ff6000526002600060003e600051", None);
    assert!(result.success);
    assert_eq!(
        result.stack,
        vec![
            mem_word("00000000000000000000000000000000000000000000000000000000000000ff"),
            Word::zero()
        ]
    );
    assert_eq!(memory[30], 0);
    assert_eq!(memory[31], 0xff);
}
