use evm::evm;
use evm::state::{BlockData, BlockchainState, ContractsStateData, TxData};
use evm::table::Storage;
use evm::word::Word;

fn word(text: &str) -> Word {
    let mut digits = String::new();
    for _ in text.len()..64 {
        digits.push('0');
    }
    digits.push_str(text);
    Word::from_be_bytes(&hex::decode(digits).unwrap())
}

fn max() -> Word {
    Word::max_value()
}

fn run_code(code: &str) -> (Vec<Word>, bool) {
    let code: Vec<u8> = hex::decode(code).unwrap();
    let mut memory: Vec<u8> = Vec::new();
    let mut storage = Storage::new();
    let mut chain = BlockchainState {
        tx: TxData::default(),
        block: BlockData::default(),
        contracts_state: ContractsStateData::new(),
    };
    let result = evm(&code, &mut memory, &mut storage, &mut chain, false);
    (result.stack, result.success)
}

fn binary(op: fn(&mut Vec<Word>), top: Word, second: Word) -> Word {
    let mut stack = vec![Word::from_u64(77), second, top];
    op(&mut stack);
    assert_eq!(stack.len(), 2);
    assert_eq!(stack[0], Word::from_u64(77));
    stack[1]
}

#[test]
fn push_push_add_leaves_three() {
    let (stack, success) = run_code("6001600201");
    assert!(success);
    assert_eq!(stack, vec![Word::from_u64(3)]);
}

#[test]
fn add_wraps_at_two_to_the_256() {
    assert_eq!(binary(evm::operations::math::add, max(), Word::one()), Word::zero());
    assert_eq!(
        binary(evm::operations::math::add, Word::from_u64(10), Word::from_u64(20)),
        Word::from_u64(30)
    );
    assert_eq!(
        binary(evm::operations::math::add, word("ffffffffffffffff"), Word::one()),
        word("10000000000000000")
    );
}

#[test]
fn add_overflow_through_the_loop() {
    let (stack, success) = run_code(
        "7fffffffffffffffffffffffffffffffffffffffffffffffffffffffffffffffff600201",
    );
    assert!(success);
    assert_eq!(stack, vec![Word::one()]);
}

#[test]
fn mul_wraps() {
    assert_eq!(
        binary(evm::operations::math::mul, Word::from_u64(10), Word::from_u64(10)),
        Word::from_u64(100)
    );
    assert_eq!(
        binary(evm::operations::math::mul, max(), Word::from_u64(2)),
        word("fffffffffffffffffffffffffffffffffffffffffffffffffffffffffffffffe")
    );
}

#[test]
fn sub_is_top_minus_second() {
    assert_eq!(
        binary(evm::operations::math::sub, Word::from_u64(10), Word::from_u64(3)),
        Word::from_u64(7)
    );
    assert_eq!(binary(evm::operations::math::sub, Word::from_u64(2), Word::from_u64(3)), max());
    let (stack, success) = run_code("6003600a03");
    assert!(success);
    assert_eq!(stack, vec![Word::from_u64(7)]);
}

#[test]
fn div_rounds_down_and_gives_zero_for_zero() {
    assert_eq!(
        binary(evm::operations::math::div, Word::from_u64(7), Word::from_u64(2)),
        Word::from_u64(3)
    );
    assert_eq!(
        binary(evm::operations::math::div, Word::from_u64(2), Word::from_u64(7)),
        Word::zero()
    );
    assert_eq!(binary(evm::operations::math::div, Word::from_u64(7), Word::zero()), Word::zero());
    assert_eq!(binary(evm::operations::math::div, max(), Word::zero()), Word::zero());
    assert_eq!(binary(evm::operations::math::div, Word::zero(), Word::zero()), Word::zero());
}

#[test]
fn modulo_gives_zero_for_zero() {
    assert_eq!(
        binary(evm::operations::math::modulo, Word::from_u64(10), Word::from_u64(3)),
        Word::one()
    );
    assert_eq!(
        binary(evm::operations::math::modulo, Word::from_u64(17), Word::from_u64(5)),
        Word::from_u64(2)
    );
    assert_eq!(
        binary(evm::operations::math::modulo, Word::from_u64(10), Word::zero()),
        Word::zero()
    );
    assert_eq!(binary(evm::operations::math::modulo, max(), Word::zero()), Word::zero());
}

#[test]
fn addmod_reduces_each_operand_then_adds() {
    let mut stack = vec![Word::from_u64(8), Word::from_u64(10), Word::from_u64(10)];
    evm::operations::math::addmod(&mut stack);
    assert_eq!(stack, vec![Word::from_u64(4)]);
    let mut stack = vec![Word::from_u64(8), Word::from_u64(7), Word::from_u64(7)];
    evm::operations::math::addmod(&mut stack);
    assert_eq!(stack, vec![Word::from_u64(14)]);
    let mut stack = vec![Word::zero(), Word::from_u64(7), Word::from_u64(7)];
    evm::operations::math::addmod(&mut stack);
    assert_eq!(stack, vec![Word::zero()]);
}

#[test]
fn mulmod_reduces_each_operand_then_multiplies() {
    let mut stack = vec![Word::from_u64(8), Word::from_u64(10), Word::from_u64(10)];
    evm::operations::math::mulmod(&mut stack);
    assert_eq!(stack, vec![Word::from_u64(4)]);
    let mut stack = vec![Word::from_u64(12), max(), max()];
    evm::operations::math::mulmod(&mut stack);
    assert_eq!(stack, vec![Word::from_u64(9)]);
    let mut stack = vec![Word::zero(), Word::from_u64(3), Word::from_u64(5)];
    evm::operations::math::mulmod(&mut stack);
    assert_eq!(stack, vec![Word::zero()]);
}

#[test]
fn exp_wraps() {
    assert_eq!(
        binary(evm::operations::math::exp, Word::from_u64(10), Word::from_u64(2)),
        Word::from_u64(100)
    );
    assert_eq!(
        binary(evm::operations::math::exp, Word::from_u64(2), Word::from_u64(255)),
        word("8000000000000000000000000000000000000000000000000000000000000000")
    );
    assert_eq!(
        binary(evm::operations::math::exp, Word::from_u64(2), Word::from_u64(256)),
        Word::zero()
    );
    assert_eq!(binary(evm::operations::math::exp, Word::zero(), Word::zero()), Word::one());
    assert_eq!(
        binary(evm::operations::math::exp, Word::from_u64(3), Word::from_u64(5)),
        Word::from_u64(243)
    );
}

#[test]
fn signextend_of_a_set_low_byte_is_all_ones() {
    assert_eq!(
        binary(evm::operations::math::signextend, Word::zero(), Word::from_u64(0xff)),
        max()
    );
    let (stack, success) = run_code("60ff60000b");
    assert!(success);
    assert_eq!(stack, vec![max()]);
}

#[test]
fn signextend_keeps_positive_numbers_and_drops_high_bits() {
    assert_eq!(
        binary(evm::operations::math::signextend, Word::zero(), Word::from_u64(0x7f)),
        Word::from_u64(0x7f)
    );
    assert_eq!(
        binary(evm::operations::math::signextend, Word::zero(), Word::from_u64(0x17f)),
        Word::from_u64(0x7f)
    );
    assert_eq!(
        binary(evm::operations::math::signextend, Word::zero(), Word::from_u64(0x1ff)),
        max()
    );
    assert_eq!(
        binary(evm::operations::math::signextend, Word::one(), Word::from_u64(0x8000)),
        word("ffffffffffffffffffffffffffffffffffffffffffffffffffffffffffff8000")
    );
    assert_eq!(
        binary(evm::operations::math::signextend, Word::one(), Word::from_u64(0xff)),
        Word::from_u64(0xff)
    );
}

#[test]
fn signextend_from_byte_31_on_changes_nothing() {
    let x = word("8000000000000000000000000000000000000000000000000000000000001234");
    assert_eq!(binary(evm::operations::math::signextend, Word::from_u64(31), x), x);
    assert_eq!(binary(evm::operations::math::signextend, Word::from_u64(32), x), x);
    assert_eq!(binary(evm::operations::math::signextend, max(), x), x);
    assert_eq!(
        binary(
            evm::operations::math::signextend,
            Word::from_u64(30),
            word("80000000000000000000000000000000000000000000000000000000001234")
        ),
        word("ff80000000000000000000000000000000000000000000000000000000001234")
    );
}

#[test]
fn signed_div_rounds_towards_zero() {
    let minus = |n: u64| Word::zero().wrapping_sub(Word::from_u64(n));
    assert_eq!(
        binary(evm::operations::math::signed_div, Word::from_u64(10), Word::from_u64(3)),
        Word::from_u64(3)
    );
    assert_eq!(binary(evm::operations::math::signed_div, minus(10), Word::from_u64(3)), minus(3));
    assert_eq!(binary(evm::operations::math::signed_div, Word::from_u64(10), minus(3)), minus(3));
    assert_eq!(binary(evm::operations::math::signed_div, minus(10), minus(3)), Word::from_u64(3));
    assert_eq!(binary(evm::operations::math::signed_div, minus(10), Word::zero()), Word::zero());
    assert_eq!(binary(evm::operations::math::signed_div, max(), max()), Word::one());
}

#[test]
fn signed_div_of_the_least_number_by_minus_one_wraps() {
    let least = word("8000000000000000000000000000000000000000000000000000000000000000");
    assert_eq!(binary(evm::operations::math::signed_div, least, max()), least);
    assert_eq!(binary(evm::operations::math::signed_modulo, least, max()), Word::zero());
}

#[test]
fn signed_modulo_has_the_sign_of_the_dividend() {
    let minus = |n: u64| Word::zero().wrapping_sub(Word::from_u64(n));
    assert_eq!(
        binary(evm::operations::math::signed_modulo, Word::from_u64(10), Word::from_u64(3)),
        Word::one()
    );
    assert_eq!(
        binary(evm::operations::math::signed_modulo, minus(10), Word::from_u64(3)),
        minus(1)
    );
    assert_eq!(
        binary(evm::operations::math::signed_modulo, Word::from_u64(10), minus(3)),
        Word::one()
    );
    assert_eq!(binary(evm::operations::math::signed_modulo, minus(10), minus(3)), minus(1));
    assert_eq!(
        binary(evm::operations::math::signed_modulo, minus(10), Word::zero()),
        Word::zero()
    );
}

#[test]
fn unsigned_comparisons() {
    let nine = Word::from_u64(9);
    let ten = Word::from_u64(10);
    assert_eq!(binary(evm::operations::math::less_than, nine, ten), Word::one());
    assert_eq!(binary(evm::operations::math::less_than, ten, nine), Word::zero());
    assert_eq!(binary(evm::operations::math::less_than, ten, ten), Word::zero());
    assert_eq!(binary(evm::operations::math::greater_than, ten, nine), Word::one());
    assert_eq!(binary(evm::operations::math::greater_than, nine, ten), Word::zero());
    assert_eq!(binary(evm::operations::math::greater_than, ten, ten), Word::zero());
    assert_eq!(binary(evm::operations::math::less_than, max(), Word::zero()), Word::zero());
    assert_eq!(
        binary(evm::operations::math::less_than, word("10000000000000000"), Word::from_u64(5)),
        Word::zero()
    );
    assert_eq!(
        binary(evm::operations::math::less_than, Word::from_u64(5), word("10000000000000000")),
        Word::one()
    );
}

#[test]
fn signed_comparisons() {
    assert_eq!(binary(evm::operations::math::signed_less_than, max(), Word::zero()), Word::one());
    assert_eq!(
        binary(evm::operations::math::signed_less_than, Word::zero(), max()),
        Word::zero()
    );
    assert_eq!(
        binary(evm::operations::math::signed_less_than, Word::from_u64(9), Word::from_u64(10)),
        Word::one()
    );
    assert_eq!(
        binary(evm::operations::math::signed_greater_than, Word::zero(), max()),
        Word::one()
    );
    assert_eq!(
        binary(evm::operations::math::signed_greater_than, max(), Word::zero()),
        Word::zero()
    );
    assert_eq!(binary(evm::operations::math::signed_greater_than, max(), max()), Word::zero());
}

#[test]
fn equality_and_zero_test() {
    assert_eq!(
        binary(evm::operations::math::equal, Word::from_u64(10), Word::from_u64(10)),
        Word::one()
    );
    assert_eq!(
        binary(evm::operations::math::equal, Word::from_u64(10), Word::from_u64(9)),
        Word::zero()
    );
    let mut stack = vec![Word::from_u64(9)];
    evm::operations::math::is_zero(&mut stack);
    assert_eq!(stack, vec![Word::zero()]);
    let mut stack = vec![Word::zero()];
    evm::operations::math::is_zero(&mut stack);
    assert_eq!(stack, vec![Word::one()]);
}

#[test]
fn bitwise_instructions() {
    let mut stack = vec![Word::from_u64(0x0f)];
    evm::operations::bool::not(&mut stack);
    assert_eq!(
        stack,
        vec![word("fffffffffffffffffffffffffffffffffffffffffffffffffffffffffffffff0")]
    );
    assert_eq!(
        binary(evm::operations::bool::and, Word::from_u64(0xe), Word::from_u64(0x3)),
        Word::from_u64(0x2)
    );
    assert_eq!(
        binary(evm::operations::bool::or, Word::from_u64(0xe), Word::from_u64(0x3)),
        Word::from_u64(0xf)
    );
    assert_eq!(
        binary(evm::operations::bool::xor, Word::from_u64(0xf0), Word::from_u64(0x0f)),
        Word::from_u64(0xff)
    );
    assert_eq!(binary(evm::operations::bool::and, max(), word("1234567890abcdef1234567890abcdef1234567890abcdef1234567890abcdef")), word("1234567890abcdef1234567890abcdef1234567890abcdef1234567890abcdef"));
}

#[test]
fn byte_around_the_boundary() {
    let x = word("0102030405060708091011121314151617181920212223242526272829303132");
    assert_eq!(binary(evm::operations::bool::byte, Word::zero(), x), Word::from_u64(0x01));
    assert_eq!(binary(evm::operations::bool::byte, Word::from_u64(30), x), Word::from_u64(0x31));
    assert_eq!(binary(evm::operations::bool::byte, Word::from_u64(31), x), Word::from_u64(0x32));
    assert_eq!(binary(evm::operations::bool::byte, Word::from_u64(33), x), Word::zero());
    assert_eq!(binary(evm::operations::bool::byte, max(), x), Word::zero());
    assert_eq!(
        binary(evm::operations::bool::byte, word("10000000000000000"), x),
        Word::zero()
    );
}

#[test]
fn byte_at_index_32_fails_the_run() {
    let (stack, success) = run_code("60ff60201a");
    assert!(!success);
    assert_eq!(stack, vec![Word::from_u64(0x20), Word::from_u64(0xff)]);
    let (stack, success) = run_code("60ff601f1a");
    assert!(success);
    assert_eq!(stack, vec![Word::from_u64(0xff)]);
    let (stack, success) = run_code("60ff60211a");
    assert!(success);
    assert_eq!(stack, vec![Word::zero()]);
}

#[test]
fn shifts() {
    assert_eq!(
        binary(evm::operations::bool::shl, Word::one(), Word::one()),
        Word::from_u64(2)
    );
    assert_eq!(
        binary(evm::operations::bool::shl, Word::from_u64(4), max()),
        word("fffffffffffffffffffffffffffffffffffffffffffffffffffffffffffffff0")
    );
    assert_eq!(
        binary(evm::operations::bool::shl, Word::from_u64(255), Word::one()),
        word("8000000000000000000000000000000000000000000000000000000000000000")
    );
    assert_eq!(binary(evm::operations::bool::shl, Word::from_u64(256), max()), Word::zero());
    assert_eq!(binary(evm::operations::bool::shl, max(), max()), Word::zero());
    assert_eq!(
        binary(evm::operations::bool::shr, Word::one(), Word::from_u64(2)),
        Word::one()
    );
    assert_eq!(
        binary(evm::operations::bool::shr, Word::from_u64(4), Word::from_u64(0xff)),
        Word::from_u64(0xf)
    );
    assert_eq!(binary(evm::operations::bool::shr, Word::from_u64(255), max()), Word::one());
    assert_eq!(binary(evm::operations::bool::shr, Word::from_u64(256), max()), Word::zero());
    assert_eq!(binary(evm::operations::bool::shr, word("10000000000000000"), max()), Word::zero());
}

#[test]
fn arithmetic_shift_right() {
    assert_eq!(
        binary(evm::operations::bool::sar, Word::one(), Word::from_u64(2)),
        Word::one()
    );
    assert_eq!(
        binary(
            evm::operations::bool::sar,
            Word::from_u64(4),
            word("ffffffffffffffffffffffffffffffffffffffffffffffffffffffffffffff00")
        ),
        word("fffffffffffffffffffffffffffffffffffffffffffffffffffffffffffffff0")
    );
    assert_eq!(binary(evm::operations::bool::sar, Word::zero(), max()), max());
    assert_eq!(binary(evm::operations::bool::sar, Word::from_u64(255), max()), max());
    assert_eq!(binary(evm::operations::bool::sar, Word::from_u64(256), max()), max());
    assert_eq!(binary(evm::operations::bool::sar, max(), max()), max());
    assert_eq!(
        binary(
            evm::operations::bool::sar,
            Word::from_u64(256),
            word("7fffffffffffffffffffffffffffffffffffffffffffffffffffffffffffffff")
        ),
        Word::zero()
    );
    assert_eq!(
        binary(
            evm::operations::bool::sar,
            Word::from_u64(254),
            word("7fffffffffffffffffffffffffffffffffffffffffffffffffffffffffffffff")
        ),
        Word::one()
    );
    assert_eq!(
        binary(
            evm::operations::bool::sar,
            Word::from_u64(255),
            word("8000000000000000000000000000000000000000000000000000000000000000")
        ),
        max()
    );
}

#[test]
fn words_and_bytes_go_back_and_forth() {
    let x = word("0102030405060708091011121314151617181920212223242526272829303132");
    let bytes = x.to_be_bytes();
    assert_eq!(bytes.len(), 32);
    assert_eq!(bytes[0], 0x01);
    assert_eq!(bytes[31], 0x32);
    assert_eq!(Word::from_be_bytes(&bytes), x);
    assert_eq!(Word::from_be_bytes(&[0x01, 0x02]), Word::from_u64(0x0102));
    assert_eq!(Word::from_be_bytes(&[]), Word::zero());
    assert_eq!(x.low_byte(), 0x32);
    assert_eq!(Word::from_u64(5).to_usize(), Some(5));
    assert_eq!(word("10000000000000000").to_usize(), None);
    assert_eq!(x.w0, 0x2526272829303132);
    assert_eq!(x.w3, 0x0102030405060708);
}

#[test]
fn word_helpers() {
    assert!(Word::zero().is_zero());
    assert!(!Word::one().is_zero());
    assert!(!word("10000000000000000").is_zero());
    assert!(max().is_negative());
    assert!(!Word::one().is_negative());
    assert!(word("8000000000000000000000000000000000000000000000000000000000000000").is_negative());
    assert!(!word("7fffffffffffffffffffffffffffffffffffffffffffffffffffffffffffffff").is_negative());
    assert_eq!(Word::of_bool(true), Word::one());
    assert_eq!(Word::of_bool(false), Word::zero());
    assert_eq!(Word::from_usize(12), Word::from_u64(12));
    assert!(Word::one().lt(&Word::from_u64(2)));
    assert!(max().signed_lt(Word::zero()));
    assert_eq!(Word::from_u64(7).div_or_zero(Word::zero()), Word::zero());
    assert_eq!(Word::from_u64(7).rem_or_zero(Word::from_u64(4)), Word::from_u64(3));
    assert_eq!(Word::from_u64(2).wrapping_pow(Word::from_u64(10)), Word::from_u64(1024));
}
