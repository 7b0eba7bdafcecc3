use axis_vm::bytecode::decode_hex;
use axis_vm::context::{Address, Environment};
use axis_vm::opcodes::mnemonic;
use axis_vm::storage::Storage;
use axis_vm::arith::compute_binary;
use axis_vm::vm::{is_jumpdest, AXISVM};
use axis_vm::word::Word;

fn word(x: u64) -> Word {
    Word { limbs: [x, 0, 0, 0] }
}

#[test]
fn disassemble_lists_executed_instructions() {
    let listing = AXISVM::disassemble("6001600201").expect("valid hex");
    assert_eq!(listing, vec!["PUSH1", "PUSH1", "ADD"]);
}

#[test]
fn disassemble_refuses_bad_hex() {
    assert_eq!(AXISVM::disassemble("600"), None);
    assert_eq!(AXISVM::disassemble("zz"), None);
}

#[test]
fn decode_hex_reads_pairs() {
    assert_eq!(decode_hex("00ffAb10"), Some(vec![0x00, 0xff, 0xab, 0x10]));
    assert_eq!(decode_hex(""), Some(vec![]));
    assert_eq!(decode_hex("0g"), None);
}

#[test]
fn mnemonics_of_opcodes() {
    assert_eq!(mnemonic(0x01), "ADD");
    assert_eq!(mnemonic(0x7f), "PUSH32");
    assert_eq!(mnemonic(0x8f), "DUP16");
    assert_eq!(mnemonic(0x9a), "SWAP11");
    assert_eq!(mnemonic(0xfe), "INVALID");
}

#[test]
fn environment_keeps_what_it_was_given() {
    let mut env = Environment::new(Address::zero(), Address { bytes: [1; 20] }, 3, 30);
    env.set_code(vec![1, 2]);
    env.set_input(vec![9]);
    assert_eq!(env.gas_cost(), 3);
    assert_eq!(env.value(), 30);
    assert_eq!(env.code(), &vec![1, 2]);
    assert_eq!(env.input(), &vec![9]);
    assert_eq!(env.sender().bytes, [1; 20]);
    assert_eq!(env.code_supervisor().bytes, [0; 20]);
}

#[test]
fn address_as_word_is_big_endian() {
    let mut bytes = [0u8; 20];
    bytes[18] = 0x01;
    bytes[19] = 0x02;
    bytes[0] = 0x80;
    let w = Address { bytes }.to_word();
    assert_eq!(w.limbs[0], 0x0102);
    assert_eq!(w.limbs[2], 0x8000_0000);
}

#[test]
fn storage_latest_write_wins_and_rolls_back() {
    let a = Address::zero();
    let mut s = Storage::new();
    assert_eq!(s.get(&a, &word(1)), word(0));
    s.set(&a, &word(1), &word(10));
    let mark = s.checkpoint();
    s.set(&a, &word(1), &word(20));
    s.set(&a, &word(2), &word(30));
    assert_eq!(s.get(&a, &word(1)), word(20));
    assert_eq!(s.get(&a, &word(2)), word(30));
    s.rollback(mark);
    assert_eq!(s.get(&a, &word(1)), word(10));
    assert_eq!(s.get(&a, &word(2)), word(0));
}

#[test]
fn word_arithmetic_through_u256() {
    let max = Word { limbs: [u64::MAX; 4] };
    assert_eq!(compute_binary(0x01, max, word(1)), word(0));
    assert_eq!(compute_binary(0x01, word(40), word(2)), word(42));
    assert_eq!(compute_binary(0x03, word(0), word(1)), max);
    assert_eq!(compute_binary(0x03, word(5), word(3)), word(2));
    assert_eq!(compute_binary(0x02, word(6), word(7)), word(42));
    assert_eq!(compute_binary(0x02, Word { limbs: [0, 1, 0, 0] }, Word { limbs: [0, 0, 0, 1] }), word(0));
    assert_eq!(compute_binary(0x04, word(43), word(2)), word(21));
    assert_eq!(compute_binary(0x04, word(43), word(0)), word(0));
    assert_eq!(compute_binary(0x06, word(43), word(5)), word(3));
    assert_eq!(compute_binary(0x0a, word(3), word(4)), word(81));
    assert_eq!(compute_binary(0x10, word(3), Word { limbs: [0, 0, 0, 1] }), word(1));
    assert_eq!(compute_binary(0x11, word(3), Word { limbs: [0, 0, 0, 1] }), word(0));
    assert_eq!(compute_binary(0x14, word(3), word(3)), word(1));
    assert_eq!(compute_binary(0x16, Word { limbs: [6, 6, 6, 6] }, Word { limbs: [3, 3, 3, 3] }), Word { limbs: [2, 2, 2, 2] });
    assert_eq!(compute_binary(0x17, Word { limbs: [6, 6, 6, 6] }, Word { limbs: [3, 3, 3, 3] }), Word { limbs: [7, 7, 7, 7] });
    assert_eq!(compute_binary(0x18, Word { limbs: [6, 6, 6, 6] }, Word { limbs: [3, 3, 3, 3] }), Word { limbs: [5, 5, 5, 5] });
    assert_eq!(compute_binary(0x1a, word(0), Word { limbs: [0, 0, 0, 0xab00_0000_0000_0000] }), word(0xab));
}

#[test]
fn word_helpers() {
    assert!(word(0).is_zero());
    assert!(!Word { limbs: [0, 0, 1, 0] }.is_zero());
    assert!(word(4).same_value(&word(4)));
    assert!(!word(4).same_value(&Word { limbs: [4, 1, 0, 0] }));
    assert_eq!(word(9).to_bounded(10), Some(9));
    assert_eq!(word(11).to_bounded(10), None);
    assert_eq!(Word { limbs: [1, 1, 0, 0] }.to_bounded(usize::MAX), None);
    assert_eq!(Word::from_u64(77), word(77));
}

#[test]
fn jumpdest_detection_skips_push_data() {
    let code = vec![0x60, 0x5b, 0x5b];
    assert!(!is_jumpdest(&code, 1));
    assert!(is_jumpdest(&code, 2));
    assert!(!is_jumpdest(&code, 3));
}

fn neg(x: u64) -> Word {
    Word { limbs: [x.wrapping_neg(), u64::MAX, u64::MAX, u64::MAX] }
}

#[test]
fn signed_division_rounds_toward_zero() {
    assert_eq!(compute_binary(0x05, neg(8), word(3)), neg(2));
    assert_eq!(compute_binary(0x05, word(8), neg(3)), neg(2));
    assert_eq!(compute_binary(0x05, neg(8), neg(3)), word(2));
    assert_eq!(compute_binary(0x05, word(8), word(0)), word(0));
    let min = Word { limbs: [0, 0, 0, 0x8000_0000_0000_0000] };
    assert_eq!(compute_binary(0x05, min, neg(1)), min);
}

#[test]
fn signed_remainder_takes_dividend_sign() {
    assert_eq!(compute_binary(0x07, neg(8), word(3)), neg(2));
    assert_eq!(compute_binary(0x07, word(8), neg(3)), word(2));
    assert_eq!(compute_binary(0x07, neg(8), word(0)), word(0));
}

#[test]
fn signed_comparisons() {
    assert_eq!(compute_binary(0x12, neg(1), word(0)), word(1));
    assert_eq!(compute_binary(0x12, word(0), neg(1)), word(0));
    assert_eq!(compute_binary(0x13, word(0), neg(1)), word(1));
    assert_eq!(compute_binary(0x13, neg(5), neg(3)), word(0));
    assert_eq!(compute_binary(0x12, neg(5), neg(3)), word(1));
}

#[test]
fn shifts() {
    assert_eq!(compute_binary(0x1b, word(4), word(1)), word(16));
    assert_eq!(compute_binary(0x1b, word(64), word(3)), Word { limbs: [0, 3, 0, 0] });
    assert_eq!(compute_binary(0x1b, word(255), word(3)), Word { limbs: [0, 0, 0, 0x8000_0000_0000_0000] });
    assert_eq!(compute_binary(0x1b, word(256), word(1)), word(0));
    assert_eq!(compute_binary(0x1c, word(4), word(256)), word(16));
    assert_eq!(compute_binary(0x1c, word(300), neg(1)), word(0));
}

#[test]
fn arithmetic_shift_keeps_the_sign() {
    assert_eq!(compute_binary(0x1d, word(4), neg(16)), neg(1));
    assert_eq!(compute_binary(0x1d, word(1), neg(1)), neg(1));
    assert_eq!(compute_binary(0x1d, word(1), neg(5)), neg(3));
    assert_eq!(compute_binary(0x1d, word(2), word(16)), word(4));
    assert_eq!(compute_binary(0x1d, word(300), neg(7)), neg(1));
    assert_eq!(compute_binary(0x1d, word(300), word(7)), word(0));
}

#[test]
fn sign_extension() {
    assert_eq!(compute_binary(0x0b, word(0), word(0xff)), neg(1));
    assert_eq!(compute_binary(0x0b, word(0), word(0x7f)), word(0x7f));
    assert_eq!(compute_binary(0x0b, word(0), word(0x17f)), word(0x7f));
    assert_eq!(compute_binary(0x0b, word(1), word(0x8000)), neg(0x8000));
    assert_eq!(compute_binary(0x0b, word(31), word(0x8000)), word(0x8000));
    assert_eq!(compute_binary(0x0b, word(40), neg(3)), neg(3));
}
