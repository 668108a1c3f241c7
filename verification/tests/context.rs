use evm::evm;
use evm::operations::log::IntoHexString;
use evm::state::{
    BlockData, BlockchainState, ContractsStateData, ContractsStateDataEntry,
    ContractsStateDataEntryCode, SerializedBytes, SerializedU256, TxData,
};
use evm::table::Storage;
use evm::word::Word;
use evm::{EvmLog, EvmResult};

fn ctx_word(text: &str) -> Word {
    let mut digits = String::new();
    for _ in text.len()..64 {
        digits.push('0');
    }
    digits.push_str(text);
    Word::from_be_bytes(&hex::decode(digits).unwrap())
}

fn some(n: u64) -> Option<SerializedU256> {
    Some(SerializedU256 { value: Word::from_u64(n) })
}

fn full_chain() -> BlockchainState {
    let mut contracts = ContractsStateData::new();
    contracts.insert(
        SerializedU256 { value: Word::from_u64(0x1e79) },
        ContractsStateDataEntry { balance: some(0x100), code: None },
    );
    contracts.insert(
        SerializedU256 { value: Word::from_u64(0xc0de) },
        ContractsStateDataEntry {
            balance: None,
            code: Some(ContractsStateDataEntryCode {
                bin: Some(SerializedBytes { value: vec![0x60, 0x01, 0x60, 0x02, 0x01] }),
            }),
        },
    );
    contracts.insert(
        SerializedU256 { value: Word::from_u64(0xe) },
        ContractsStateDataEntry {
            balance: some(1),
            code: Some(ContractsStateDataEntryCode { bin: None }),
        },
    );
    BlockchainState {
        tx: TxData {
            to: some(0x1e79),
            from: some(0x1e80),
            origin: some(0x1337),
            gasprice: some(0x99),
            value: some(0x1000),
            data: None,
        },
        block: BlockData {
            basefee: some(0x1),
            coinbase: some(0x777),
            timestamp: some(0xe4e1c1),
            number: some(0x1000001),
            difficulty: some(0x20000),
            gaslimit: some(0xffffffffffff),
            chainid: some(0x5),
        },
        contracts_state: contracts,
    }
}

fn run_in(code: &str, chain: &mut BlockchainState, storage: &mut Storage, is_static: bool) -> EvmResult {
    let code: Vec<u8> = hex::decode(code).unwrap();
    let mut memory: Vec<u8> = Vec::new();
    evm(&code, &mut memory, storage, chain, is_static)
}

fn top(code: &str) -> Word {
    let result = run_in(code, &mut full_chain(), &mut Storage::new(), false);
    assert!(result.success);
    assert_eq!(result.stack.len(), 1);
    result.stack[0]
}

#[test]
fn facts_about_the_transaction() {
    assert_eq!(top("30"), Word::from_u64(0x1e79));
    assert_eq!(top("33"), Word::from_u64(0x1e80));
    assert_eq!(top("32"), Word::from_u64(0x1337));
    assert_eq!(top("3a"), Word::from_u64(0x99));
    assert_eq!(top("34"), Word::from_u64(0x1000));
}

#[test]
fn facts_about_the_block() {
    assert_eq!(top("48"), Word::from_u64(0x1));
    assert_eq!(top("41"), Word::from_u64(0x777));
    assert_eq!(top("42"), Word::from_u64(0xe4e1c1));
    assert_eq!(top("43"), Word::from_u64(0x1000001));
    assert_eq!(top("44"), Word::from_u64(0x20000));
    assert_eq!(top("45"), Word::from_u64(0xffffffffffff));
    assert_eq!(top("46"), Word::from_u64(0x5));
}

#[test]
fn an_absent_fact_fails_the_run() {
    for code in ["30", "32", "33", "3a", "41", "42", "43", "44", "45", "46", "47", "48"] {
        let mut chain = BlockchainState {
            tx: TxData::default(),
            block: BlockData::default(),
            contracts_state: ContractsStateData::new(),
        };
        let result = run_in(&("6007".to_string() + code), &mut chain, &mut Storage::new(), false);
        assert!(!result.success, "{}", code);
        assert_eq!(result.stack, vec![Word::from_u64(7)]);
    }
}

#[test]
fn an_absent_value_or_data_reads_as_nothing() {
    let mut chain = BlockchainState {
        tx: TxData::default(),
        block: BlockData::default(),
        contracts_state: ContractsStateData::new(),
    };
    let result = run_in("343660003531", &mut chain, &mut Storage::new(), false);
    assert!(result.success);
    assert_eq!(result.stack, vec![Word::zero(), Word::zero(), Word::zero()]);
}

#[test]
fn balances() {
    assert_eq!(top("611e7931"), Word::from_u64(0x100));
    assert_eq!(top("61c0de31"), Word::zero());
    assert_eq!(top("61aaaa31"), Word::zero());
    assert_eq!(top("47"), Word::from_u64(0x100));
    let mut chain = full_chain();
    chain.tx.to = some(0xaaaa);
    let result = run_in("47", &mut chain, &mut Storage::new(), false);
    assert!(result.success);
    assert_eq!(result.stack, vec![Word::zero()]);
}

#[test]
fn code_of_other_contracts() {
    assert_eq!(top("61c0de3b"), Word::from_u64(5));
    assert_eq!(top("611e793b"), Word::zero());
    assert_eq!(top("600e3b"), Word::zero());
    assert_eq!(top("61aaaa3b"), Word::zero());
    let result = run_in("60086001600061c0de3c600051", &mut full_chain(), &mut Storage::new(), false);
    assert!(result.success);
    assert_eq!(
        result.stack,
        vec![ctx_word("0160020100000000000000000000000000000000000000000000000000000000")]
    );
    let result = run_in(
        "7fffffffffffffffffffffffffffffffffffffffffffffffffffffffffffffffff60005260046000600261aaaa3c600051",
        &mut full_chain(),
        &mut Storage::new(),
        false,
    );
    assert!(result.success);
    assert_eq!(
        result.stack,
        vec![ctx_word("ffff00000000ffffffffffffffffffffffffffffffffffffffffffffffffffff")]
    );
}

#[test]
fn hashes_of_code() {
    assert_eq!(
        top("61c0de3f"),
        evm::operations::hash::keccak256_word(&[0x60, 0x01, 0x60, 0x02, 0x01])
    );
    assert_eq!(top("61aaaa3f"), Word::zero());
    assert_eq!(
        top("611e793f"),
        ctx_word("c5d2460186f7233c927e7db2dcc703c0e500b653ca82273b7bfad8045d85a470")
    );
    assert_eq!(
        top("600e3f"),
        ctx_word("c5d2460186f7233c927e7db2dcc703c0e500b653ca82273b7bfad8045d85a470")
    );
}

#[test]
fn storage_reads_zero_until_written() {
    let mut storage = Storage::new();
    let result = run_in("600054", &mut full_chain(), &mut storage, false);
    assert!(result.success);
    assert_eq!(result.stack, vec![Word::zero()]);
    let result = run_in("602a600755600754600854", &mut full_chain(), &mut storage, false);
    assert!(result.success);
    assert_eq!(result.stack, vec![Word::zero(), Word::from_u64(0x2a)]);
    assert_eq!(storage.get(&Word::from_u64(7)), Some(Word::from_u64(0x2a)));
    assert_eq!(storage.get(&Word::from_u64(8)), None);
    let result = run_in("600754", &mut full_chain(), &mut storage, false);
    assert_eq!(result.stack, vec![Word::from_u64(0x2a)]);
    let result = run_in("602b600755600754", &mut full_chain(), &mut storage, false);
    assert_eq!(result.stack, vec![Word::from_u64(0x2b)]);
    assert_eq!(storage.get(&Word::from_u64(7)), Some(Word::from_u64(0x2b)));
}

#[test]
fn a_write_in_a_static_run_reverts_with_the_memory_it_names() {
    let mut storage = Storage::new();
    storage.insert(Word::from_u64(1), Word::from_u64(5));
    let result = run_in("60aa60005360096002600155", &mut full_chain(), &mut storage, true);
    assert!(!result.success);
    assert_eq!(result.ret, Some(vec![0, 0]));
    assert_eq!(result.stack, vec![Word::from_u64(9)]);
    assert_eq!(storage.get(&Word::from_u64(1)), Some(Word::from_u64(5)));
    let result = run_in("60aa60005360096002600055", &mut full_chain(), &mut storage, true);
    assert!(!result.success);
    assert_eq!(result.ret, Some(vec![0xaa, 0]));
    assert_eq!(storage.get(&Word::zero()), None);
    let result = run_in("600154", &mut full_chain(), &mut storage, true);
    assert!(result.success);
    assert_eq!(result.stack, vec![Word::from_u64(5)]);
}

#[test]
fn a_record_in_a_static_run_reverts_with_the_memory_it_names() {
    let result = run_in("60aa60005360016000a0", &mut full_chain(), &mut Storage::new(), true);
    assert!(!result.success);
    assert_eq!(result.ret, Some(vec![0xaa]));
    assert!(result.logs.is_empty());
    let result = run_in("6005600660016000a2", &mut full_chain(), &mut Storage::new(), true);
    assert!(!result.success);
    assert_eq!(result.ret, Some(vec![0]));
    assert_eq!(result.stack, vec![Word::from_u64(6), Word::from_u64(5)]);
    assert!(result.logs.is_empty());
    let result = run_in("600155", &mut full_chain(), &mut Storage::new(), true);
    assert!(!result.success);
    assert_eq!(result.ret, None);
}

#[test]
fn records_without_topics() {
    let result = run_in("60aa6000526001601fa0", &mut full_chain(), &mut Storage::new(), false);
    assert!(result.success);
    assert!(result.stack.is_empty());
    assert_eq!(
        result.logs,
        vec![EvmLog { address: "0x1e79".to_string(), data: "aa".to_string(), topics: vec![] }]
    );
}

#[test]
fn records_with_topics_in_the_order_they_are_emitted() {
    let result = run_in(
        "60aa6000527f111111111111111111111111111111111111111111111111111111111111111160006001601fa2600060006000a0",
        &mut full_chain(),
        &mut Storage::new(),
        false,
    );
    assert!(result.success);
    assert_eq!(
        result.logs,
        vec![
            EvmLog {
                address: "0x1e79".to_string(),
                data: "aa".to_string(),
                topics: vec![
                    "0x0".to_string(),
                    "0x1111111111111111111111111111111111111111111111111111111111111111"
                        .to_string()
                ],
            },
            EvmLog { address: "0x1e79".to_string(), data: "".to_string(), topics: vec![] },
        ]
    );
    let result = run_in(
        "600460036002600160026000a4",
        &mut full_chain(),
        &mut Storage::new(),
        false,
    );
    assert!(result.success);
    assert!(result.stack.is_empty());
    assert_eq!(result.logs.len(), 1);
    assert_eq!(result.logs[0].data, "0000");
    assert_eq!(result.logs[0].topics, vec!["0x1", "0x2", "0x3", "0x4"]);
}

#[test]
fn a_record_needs_the_address_of_the_running_contract() {
    let mut chain = full_chain();
    chain.tx.to = None;
    let result = run_in("60006000a0", &mut chain, &mut Storage::new(), false);
    assert!(!result.success);
    assert!(result.logs.is_empty());
    assert_eq!(result.stack.len(), 2);
}

#[test]
fn the_textual_form_of_words() {
    assert_eq!(Word::zero().into_hex_string(), "0x0");
    assert_eq!(Word::one().into_hex_string(), "0x1");
    assert_eq!(Word::from_u64(0x10).into_hex_string(), "0x10");
    assert_eq!(Word::from_u64(0xabcdef).into_hex_string(), "0xabcdef");
    assert_eq!(
        Word::max_value().into_hex_string(),
        "0xffffffffffffffffffffffffffffffffffffffffffffffffffffffffffffffff"
    );
    assert_eq!(
        ctx_word("0100000000000000000000000000000000000000000000000000000000000000")
            .into_hex_string(),
        "0x100000000000000000000000000000000000000000000000000000000000000"
    );
    assert_eq!(SerializedU256 { value: Word::from_u64(0x1e79) }.into_hex_string(), "0x1e79");
}

#[test]
fn the_table_of_contracts_is_a_map() {
    let mut table = ContractsStateData::new();
    let key = SerializedU256 { value: Word::from_u64(1) };
    assert!(table.get(&key).is_none());
    assert!(table.remove(&key).is_none());
    table.insert(key, ContractsStateDataEntry { balance: some(5), code: None });
    table.insert(
        SerializedU256 { value: Word::from_u64(2) },
        ContractsStateDataEntry { balance: some(6), code: None },
    );
    assert_eq!(table.get(&key).unwrap().balance, some(5));
    table.insert(key, ContractsStateDataEntry { balance: some(7), code: None });
    assert_eq!(table.get(&key).unwrap().balance, some(7));
    let taken = table.remove(&key).unwrap();
    assert_eq!(taken.balance, some(7));
    assert!(table.get(&key).is_none());
    assert_eq!(table.get(&SerializedU256 { value: Word::from_u64(2) }).unwrap().balance, some(6));
}

#[test]
fn the_types_of_the_context() {
    let bytes = SerializedBytes::from(vec![1u8, 2, 3]);
    assert_eq!(bytes.len(), 3);
    assert_eq!(SerializedBytes::default().len(), 0);
    let raw: Vec<u8> = bytes.into();
    assert_eq!(raw, vec![1, 2, 3]);
    let w = SerializedU256::from(Word::from_u64(9));
    assert_eq!(w.value, Word::from_u64(9));
    let back: Word = w.into();
    assert_eq!(back, Word::from_u64(9));
    assert_eq!(SerializedU256::default().value, Word::zero());
    assert_eq!(ContractsStateDataEntryCode::default().len(), 0);
    assert_eq!(
        ContractsStateDataEntryCode { bin: Some(SerializedBytes { value: vec![0; 4] }) }.len(),
        4
    );
    assert_eq!(ContractsStateDataEntryCode { bin: None }.len(), 0);
    let entry = ContractsStateDataEntry::default();
    assert!(entry.balance.is_none() && entry.code.is_none());
    let tx = TxData::default();
    assert!(tx.to.is_none() && tx.data.is_none());
    assert!(BlockData::default().chainid.is_none());
}
