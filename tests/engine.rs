use axis_vm::context::{Address, Environment};
use axis_vm::semantics::Fault;
use axis_vm::storage::Storage;
use axis_vm::vm::{Outcome, AXISVM};
use axis_vm::word::Word;

fn word(x: u64) -> Word {
    Word { limbs: [x, 0, 0, 0] }
}

fn max_word() -> Word {
    Word { limbs: [u64::MAX; 4] }
}

fn address(last: u8) -> Address {
    let mut bytes = [0u8; 20];
    bytes[19] = last;
    Address { bytes }
}

fn engine(code: Vec<u8>, input: Vec<u8>, value: usize) -> AXISVM {
    let mut env = Environment::new(address(0xaa), address(0xbb), 1, value);
    env.set_code(code);
    env.set_input(input);
    AXISVM::new(env)
}

fn run_code(code: Vec<u8>) -> (AXISVM, Outcome, Storage) {
    let mut vm = engine(code, Vec::new(), 1_000_000);
    let mut storage = Storage::new();
    let outcome = vm.transaction_execute(&mut storage);
    (vm, outcome, storage)
}

fn top(vm: &AXISVM) -> Word {
    *vm.stack().last().expect("empty stack")
}

#[test]
fn scenario_add_and_stop() {
    let (vm, outcome, storage) = run_code(vec![0x60, 1, 0x60, 2, 0x01, 0x00]);
    assert_eq!(outcome, Outcome::Success { return_data: vec![], gas_used: 9 });
    assert_eq!(vm.stack(), &vec![word(3)]);
    assert_eq!(storage.checkpoint(), 0);
    assert_eq!(vm.mnemonics(), vec!["PUSH1", "PUSH1", "ADD", "STOP"]);
}

#[test]
fn scenario_div_with_one_operand_underflows() {
    let (_, outcome, _) = run_code(vec![0x60, 0, 0x04]);
    assert_eq!(outcome, Outcome::Fault { reason: Fault::StackUnderflow, gas_used: 3 });
}

#[test]
fn scenario_sload_of_unwritten_key_is_zero() {
    let (vm, outcome, _) = run_code(vec![0x60, 0x07, 0x54, 0x00]);
    assert!(matches!(outcome, Outcome::Success { .. }));
    assert_eq!(vm.stack(), &vec![word(0)]);
}

#[test]
fn scenario_revert_discards_storage_writes() {
    let code = vec![0x60, 0x2a, 0x60, 0x01, 0x55, 0x60, 0, 0x60, 0, 0xfd];
    let (_, outcome, storage) = run_code(code);
    assert_eq!(outcome, Outcome::Reverted { return_data: vec![], gas_used: 3 + 3 + 20000 + 3 + 3 });
    assert_eq!(storage.get(&address(0xaa), &word(1)), word(0));
    assert_eq!(storage.checkpoint(), 0);
}

#[test]
fn sstore_then_stop_commits() {
    let code = vec![0x60, 0x2a, 0x60, 0x01, 0x55, 0x60, 0x01, 0x54, 0x00];
    let (vm, outcome, storage) = run_code(code);
    assert!(matches!(outcome, Outcome::Success { .. }));
    assert_eq!(storage.get(&address(0xaa), &word(1)), word(42));
    assert_eq!(storage.get(&address(0xbb), &word(1)), word(0));
    assert_eq!(top(&vm), word(42));
}

#[test]
fn sstore_of_an_existing_slot_costs_less() {
    let mut storage = Storage::new();
    storage.set(&address(0xaa), &word(1), &word(5));
    let mut vm = engine(vec![0x60, 0x09, 0x60, 0x01, 0x55], Vec::new(), 1_000_000);
    let outcome = vm.transaction_execute(&mut storage);
    assert_eq!(outcome, Outcome::Success { return_data: vec![], gas_used: 3 + 3 + 5000 });
    assert_eq!(storage.get(&address(0xaa), &word(1)), word(9));
}

#[test]
fn fault_discards_storage_writes() {
    let code = vec![0x60, 0x2a, 0x60, 0x01, 0x55, 0x50];
    let (_, outcome, storage) = run_code(code);
    assert_eq!(outcome, Outcome::Fault { reason: Fault::StackUnderflow, gas_used: 20006 });
    assert_eq!(storage.get(&address(0xaa), &word(1)), word(0));
}

#[test]
fn add_wraps_around() {
    let mut code = vec![0x60, 1, 0x7f];
    code.extend_from_slice(&[0xff; 32]);
    code.push(0x01);
    let (vm, _, _) = run_code(code);
    assert_eq!(top(&vm), word(0));
}

#[test]
fn sub_wraps_around() {
    let (vm, _, _) = run_code(vec![0x60, 1, 0x60, 0, 0x03]);
    assert_eq!(top(&vm), max_word());
}

#[test]
fn div_and_mod_by_zero_give_zero() {
    let (vm, _, _) = run_code(vec![0x60, 0, 0x60, 5, 0x04, 0x60, 0, 0x60, 5, 0x06]);
    assert_eq!(vm.stack(), &vec![word(0), word(0)]);
}

#[test]
fn mul_wraps_around() {
    let mut code = vec![0x60, 2, 0x7f, 0x80];
    code.extend_from_slice(&[0; 31]);
    code.push(0x02);
    let (vm, _, _) = run_code(code);
    assert_eq!(top(&vm), word(0));
}

#[test]
fn division_remainder_and_power() {
    let (vm, _, _) = run_code(vec![0x60, 3, 0x60, 17, 0x04, 0x60, 5, 0x60, 17, 0x06, 0x60, 10, 0x60, 2, 0x0a]);
    assert_eq!(vm.stack(), &vec![word(5), word(2), word(1024)]);
}

#[test]
fn power_wraps_around() {
    let (vm, _, _) = run_code(vec![0x61, 0x01, 0x00, 0x60, 2, 0x0a]);
    assert_eq!(top(&vm), word(0));
}

#[test]
fn comparisons_give_one_or_zero() {
    let code = vec![
        0x60, 2, 0x60, 1, 0x10, // 1 < 2
        0x60, 2, 0x60, 1, 0x11, // 1 > 2
        0x60, 7, 0x60, 7, 0x14, // 7 == 7
        0x60, 0, 0x15, // iszero(0)
        0x60, 9, 0x15, // iszero(9)
    ];
    let (vm, _, _) = run_code(code);
    assert_eq!(vm.stack(), &vec![word(1), word(0), word(1), word(1), word(0)]);
}

#[test]
fn bitwise_operations() {
    let code = vec![
        0x60, 0x0c, 0x60, 0x0a, 0x16, // 10 & 12
        0x60, 0x0c, 0x60, 0x0a, 0x17, // 10 | 12
        0x60, 0x0c, 0x60, 0x0a, 0x18, // 10 ^ 12
        0x60, 0x00, 0x19, // !0
    ];
    let (vm, _, _) = run_code(code);
    assert_eq!(vm.stack(), &vec![word(8), word(14), word(6), max_word()]);
}

#[test]
fn byte_reads_from_the_most_significant_end() {
    let code = vec![
        0x61, 0x12, 0x34, 0x60, 31, 0x1a, // byte 31 of 0x1234
        0x61, 0x12, 0x34, 0x60, 30, 0x1a, // byte 30
        0x61, 0x12, 0x34, 0x60, 0, 0x1a, // byte 0
        0x61, 0x12, 0x34, 0x60, 32, 0x1a, // out of range
    ];
    let (vm, _, _) = run_code(code);
    assert_eq!(vm.stack(), &vec![word(0x34), word(0x12), word(0), word(0)]);
}

#[test]
fn push_reads_big_endian() {
    let (vm, _, _) = run_code(vec![0x62, 0x01, 0x02, 0x03]);
    assert_eq!(top(&vm), word(0x010203));
}

#[test]
fn push_past_end_of_code_pads_with_zero() {
    let (vm, outcome, _) = run_code(vec![0x61, 0x01]);
    assert_eq!(outcome, Outcome::Success { return_data: vec![], gas_used: 3 });
    assert_eq!(vm.stack(), &vec![word(0x0100)]);
    assert_eq!(vm.pc(), 2);
}

#[test]
fn dup_copies_the_kth_word() {
    let (vm, _, _) = run_code(vec![0x60, 1, 0x60, 2, 0x60, 3, 0x82]);
    assert_eq!(vm.stack(), &vec![word(1), word(2), word(3), word(1)]);
}

#[test]
fn swap_exchanges_top_and_kth() {
    let (vm, _, _) = run_code(vec![0x60, 1, 0x60, 2, 0x60, 3, 0x91]);
    assert_eq!(vm.stack(), &vec![word(3), word(2), word(1)]);
}

#[test]
fn dup_beyond_stack_underflows() {
    let (_, outcome, _) = run_code(vec![0x60, 1, 0x81]);
    assert_eq!(outcome, Outcome::Fault { reason: Fault::StackUnderflow, gas_used: 3 });
}

#[test]
fn swap_beyond_stack_underflows() {
    let (_, outcome, _) = run_code(vec![0x60, 1, 0x90]);
    assert_eq!(outcome, Outcome::Fault { reason: Fault::StackUnderflow, gas_used: 3 });
}

#[test]
fn stack_balance_pushes_then_pops() {
    let (vm, outcome, _) = run_code(vec![0x60, 9, 0x60, 1, 0x60, 2, 0x60, 3, 0x50, 0x50, 0x50]);
    assert!(matches!(outcome, Outcome::Success { .. }));
    assert_eq!(vm.stack(), &vec![word(9)]);
}

#[test]
fn jump_to_jumpdest() {
    let (vm, outcome, _) = run_code(vec![0x60, 0x04, 0x56, 0x00, 0x5b, 0x60, 0x07, 0x00]);
    assert_eq!(outcome, Outcome::Success { return_data: vec![], gas_used: 3 + 8 + 1 + 3 });
    assert_eq!(vm.stack(), &vec![word(7)]);
    assert_eq!(vm.mnemonics(), vec!["PUSH1", "JUMP", "JUMPDEST", "PUSH1", "STOP"]);
}

#[test]
fn jump_into_push_data_fails() {
    let (_, outcome, _) = run_code(vec![0x60, 0x04, 0x56, 0x60, 0x5b, 0x00]);
    assert_eq!(outcome, Outcome::Fault { reason: Fault::InvalidJumpDestination, gas_used: 3 });
}

#[test]
fn jump_to_non_jumpdest_or_past_end_fails() {
    let (_, outcome, _) = run_code(vec![0x60, 0x00, 0x56]);
    assert_eq!(outcome, Outcome::Fault { reason: Fault::InvalidJumpDestination, gas_used: 3 });
    let (_, outcome, _) = run_code(vec![0x60, 0x40, 0x56]);
    assert_eq!(outcome, Outcome::Fault { reason: Fault::InvalidJumpDestination, gas_used: 3 });
}

#[test]
fn jumpi_jumps_only_on_nonzero() {
    let code = vec![0x60, 0, 0x60, 0x08, 0x57, 0x60, 0x01, 0x00, 0x5b, 0x60, 0x02, 0x00];
    let (vm, _, _) = run_code(code);
    assert_eq!(vm.stack(), &vec![word(1)]);
    let code = vec![0x60, 1, 0x60, 0x08, 0x57, 0x60, 0x01, 0x00, 0x5b, 0x60, 0x02, 0x00];
    let (vm, _, _) = run_code(code);
    assert_eq!(vm.stack(), &vec![word(2)]);
}

#[test]
fn out_of_gas_applies_nothing() {
    let mut vm = engine(vec![0x60, 1, 0x60, 2, 0x01], Vec::new(), 5);
    let mut storage = Storage::new();
    let outcome = vm.transaction_execute(&mut storage);
    assert_eq!(outcome, Outcome::Fault { reason: Fault::OutOfGas, gas_used: 3 });
    assert_eq!(vm.stack(), &vec![word(1)]);
    assert_eq!(vm.gas(), 2);
}

#[test]
fn initial_gas_is_value_over_price() {
    let mut env = Environment::new(Address::zero(), Address::zero(), 7, 100);
    env.set_code(vec![0x5a]);
    let mut vm = AXISVM::new(env);
    assert_eq!(vm.gas(), 14);
    let mut storage = Storage::new();
    vm.transaction_execute(&mut storage);
    assert_eq!(vm.stack(), &vec![word(12)]);
}

#[test]
fn unmapped_opcode_is_unimplemented() {
    let (_, outcome, _) = run_code(vec![0xfe]);
    assert_eq!(outcome, Outcome::Fault { reason: Fault::UnimplementedOpcode, gas_used: 0 });
    let (vm, outcome, _) = run_code(vec![0x20]);
    assert_eq!(outcome, Outcome::Fault { reason: Fault::UnimplementedOpcode, gas_used: 0 });
    assert_eq!(vm.mnemonics(), vec!["SHA3"]);
}

#[test]
fn ledger_and_block_queries_need_a_collaborator() {
    for op in [0x31u8, 0x32, 0x42, 0xa0, 0xf1, 0xff] {
        let (_, outcome, _) = run_code(vec![op]);
        assert_eq!(outcome, Outcome::Fault { reason: Fault::MissingCollaborator, gas_used: 0 });
    }
}

#[test]
fn context_queries() {
    let mut vm = engine(vec![0x30, 0x33, 0x34, 0x36, 0x38, 0x3a, 0x58], vec![1, 2, 3], 500);
    let mut storage = Storage::new();
    vm.transaction_execute(&mut storage);
    assert_eq!(
        vm.stack(),
        &vec![word(0xaa), word(0xbb), word(500), word(3), word(7), word(1), word(6)]
    );
}

#[test]
fn calldataload_pads_past_input_end() {
    let mut vm = engine(vec![0x60, 1, 0x35, 0x60, 0x40, 0x35], vec![0xff, 0x01, 0x02], 1000);
    let mut storage = Storage::new();
    vm.transaction_execute(&mut storage);
    assert_eq!(vm.stack()[0], Word { limbs: [0, 0, 0, 0x0102_0000_0000_0000] });
    assert_eq!(vm.stack()[1], word(0));
}

#[test]
fn mstore_then_mload_round_trips() {
    let code = vec![0x61, 0x12, 0x34, 0x60, 0x20, 0x52, 0x60, 0x20, 0x51, 0x59];
    let (vm, outcome, _) = run_code(code);
    assert_eq!(outcome, Outcome::Success { return_data: vec![], gas_used: 3 + 3 + 3 + 6 + 3 + 3 + 2 });
    assert_eq!(vm.stack(), &vec![word(0x1234), word(64)]);
    assert_eq!(vm.memory().len(), 64);
    assert_eq!(vm.memory()[62], 0x12);
    assert_eq!(vm.memory()[63], 0x34);
}

#[test]
fn return_hands_back_memory() {
    let code = vec![0x60, 0x2a, 0x60, 0, 0x52, 0x60, 2, 0x60, 30, 0xf3];
    let (vm, outcome, _) = run_code(code);
    assert_eq!(outcome, Outcome::Success { return_data: vec![0, 0x2a], gas_used: 3 + 3 + 6 + 3 + 3 });
    assert_eq!(vm.return_data(), &vec![0, 0x2a]);
}

#[test]
fn revert_hands_back_memory() {
    let code = vec![0x60, 0x01, 0x60, 0x1f, 0xfd];
    let (_, outcome, _) = run_code(code);
    assert_eq!(outcome, Outcome::Reverted { return_data: vec![0], gas_used: 3 + 3 + 3 });
}

#[test]
fn codecopy_overwrites_with_zero_padding() {
    let code = vec![0x60, 4, 0x60, 8, 0x60, 0, 0x39, 0x00, 0xab];
    let (vm, outcome, _) = run_code(code);
    assert_eq!(outcome, Outcome::Success { return_data: vec![], gas_used: 3 + 3 + 3 + 3 + 3 + 3 });
    assert_eq!(&vm.memory()[0..4], &[0xab, 0, 0, 0]);
    assert_eq!(vm.memory().len(), 32);
}

#[test]
fn calldatacopy_copies_input() {
    let mut vm = engine(vec![0x60, 2, 0x60, 1, 0x60, 3, 0x37], vec![7, 8, 9], 1000);
    let mut storage = Storage::new();
    vm.transaction_execute(&mut storage);
    assert_eq!(&vm.memory()[0..6], &[0, 0, 0, 8, 9, 0]);
}

#[test]
fn memory_beyond_the_cap_runs_out_of_gas() {
    let code = vec![0x63, 0x7f, 0xff, 0xff, 0xff, 0x51];
    let (_, outcome, _) = run_code(code);
    assert_eq!(outcome, Outcome::Fault { reason: Fault::OutOfGas, gas_used: 3 });
}

#[test]
fn determinism_of_repeated_runs() {
    let code = vec![0x60, 5, 0x60, 3, 0x02, 0x60, 0, 0x52, 0x60, 32, 0x60, 0, 0xf3];
    let (vm1, o1, _) = run_code(code.clone());
    let (vm2, o2, _) = run_code(code);
    assert_eq!(o1, o2);
    assert_eq!(vm1.stack(), vm2.stack());
    assert_eq!(vm1.memory(), vm2.memory());
    assert_eq!(vm1.trace(), vm2.trace());
    assert_eq!(vm1.gas(), vm2.gas());
}

#[test]
fn end_of_code_is_a_stop() {
    let (vm, outcome, _) = run_code(vec![]);
    assert_eq!(outcome, Outcome::Success { return_data: vec![], gas_used: 0 });
    assert!(vm.trace().is_empty());
}

#[test]
fn addmod_does_not_wrap() {
    let mut code = vec![0x60, 7, 0x60, 2, 0x7f];
    code.extend_from_slice(&[0xff; 32]);
    code.push(0x08);
    let (vm, outcome, _) = run_code(code);
    assert_eq!(outcome, Outcome::Success { return_data: vec![], gas_used: 3 + 3 + 3 + 8 });
    // (2^256 - 1 + 2) mod 7 = (2^256 + 1) mod 7 = 3
    assert_eq!(top(&vm), word(3));
}

#[test]
fn mulmod_does_not_wrap() {
    let mut code = vec![0x60, 12, 0x7f];
    code.extend_from_slice(&[0xff; 32]);
    code.push(0x7f);
    code.extend_from_slice(&[0xff; 32]);
    code.push(0x09);
    let (vm, _, _) = run_code(code);
    // (2^256 - 1)^2 mod 12 = 9
    assert_eq!(top(&vm), word(9));
}

#[test]
fn modular_by_zero_gives_zero() {
    let (vm, _, _) = run_code(vec![0x60, 0, 0x60, 5, 0x60, 6, 0x08, 0x60, 0, 0x60, 5, 0x60, 6, 0x09]);
    assert_eq!(vm.stack(), &vec![word(0), word(0)]);
}
