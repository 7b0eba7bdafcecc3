//! The execution engine: the fetch-decode-execute loop and the handlers of
//! each instruction family, each proved to follow `semantics`.

use crate::bytecode::{decode_hex, hex_bytes, is_hex};
use crate::context::{Address, ContextModel, Environment};
use crate::opcodes::{mnemonic, mnemonic_of};
use crate::semantics::{
    below, binary_cost, binary_step, calldataload_step, copy_step, dup_step, grow,
    growth_cost, grown_len, is_binary, is_query, jump_step, jumpdest_step, jumpi_step,
    memory_step, modular_step, needs_collaborator, overwrite, padded_read, pop_step,
    push_step, query_step, reaches, return_step, run, sload_step, sstore_step, step, swap_step,
    top, unary_step, valid_jumpdest, words, Fault, Halt, State, Step, MEMORY_LIMIT,
};
use crate::storage::{Slot, Storage};
use crate::arith::{add_mod, compute_binary, mul_mod, truth};
use crate::word::{word_from_be, word_not, word_to_be, Word};
use vstd::prelude::*;
use vstd::string::StringSliceAdditionalSpecFns;

verus! {

/// The engine for one call: the context, the program counter, the gas left,
/// the executed opcodes, the operand stack, memory, the return buffer and,
/// while a call runs, the storage it reads and writes.
pub struct AXISVM {
    env: Environment,
    pc: usize,
    gas: usize,
    trace: Vec<u8>,
    stack: Vec<Word>,
    memory: Vec<u8>,
    return_data: Vec<u8>,
    storage: Storage,
}

impl View for AXISVM {
    type V = State;

    closed spec fn view(&self) -> State {
        State {
            pc: self.pc as nat,
            gas: self.gas as nat,
            stack: self.stack@.map_values(|w: Word| w@),
            memory: self.memory@,
            return_data: self.return_data@,
            trace: self.trace@,
            storage: self.storage@,
        }
    }
}

fn gas_of_binary(op: u8) -> (r: usize)
    ensures
        r as nat == binary_cost(op),
{
    if op == 0x02 || op == 0x04 || op == 0x05 || op == 0x06 || op == 0x07 || op == 0x0b {
        5
    } else if op == 0x0a {
        10
    } else {
        3
    }
}

/// `size` bytes of `src` from `offset`, zero past its end.
fn read_padded(src: &Vec<u8>, offset: usize, size: usize) -> (r: Vec<u8>)
    ensures
        r@ == padded_read(src@, offset as nat, size as nat),
{
    let mut r: Vec<u8> = Vec::new();
    let mut i: usize = 0;
    while i < size
        invariant
            i <= size,
            r@ =~= padded_read(src@, offset as nat, i as nat),
        decreases size - i,
    {
        let b = if offset < src.len() && i < src.len() - offset {
            src[offset + i]
        } else {
            0u8
        };
        r.push(b);
        i = i + 1;
        assert(r@ =~= padded_read(src@, offset as nat, i as nat));
    }
    r
}

/// `size` bytes of `src` from the offset held in a word, zero past its end.
fn read_padded_at(src: &Vec<u8>, offset: Word, size: usize) -> (r: Vec<u8>)
    ensures
        r@ == padded_read(src@, offset@, size as nat),
{
    match offset.to_bounded(src.len()) {
        Some(o) => read_padded(src, o, size),
        None => {
            let r = read_padded(src, src.len(), size);
            assert(r@ =~= padded_read(src@, offset@, size as nat));
            r
        },
    }
}

/// Whether `dest` is a JUMPDEST reached by decoding the code from its start.
pub fn is_jumpdest(code: &Vec<u8>, dest: usize) -> (r: bool)
    ensures
        r == valid_jumpdest(code@, dest as nat),
{
    if dest >= code.len() {
        return false;
    }
    let mut i: usize = 0;
    while i < dest
        invariant
            i <= dest < code@.len(),
            reaches(code@, 0, dest as nat) == reaches(code@, i as nat, dest as nat),
        decreases dest - i,
    {
        let op = code[i];
        let k: usize = if 0x60 <= op && op <= 0x7f { (op - 0x5f) as usize } else { 0 };
        if k >= dest - i {
            return false;
        }
        i = i + 1 + k;
    }
    code[dest] == 0x5b
}

/// How a call ended: normally, by REVERT, or aborted. `gas_used` is the gas
/// spent in all three.
#[derive(Debug, PartialEq, Eq)]
pub enum Outcome {
    Success { return_data: Vec<u8>, gas_used: usize },
    Reverted { return_data: Vec<u8>, gas_used: usize },
    Fault { reason: Fault, gas_used: usize },
}

/// Whether an outcome reports the end of a run that started with `gas` gas.
pub open spec fn describes(o: Outcome, r: Step, gas: nat) -> bool {
    match o {
        Outcome::Success { return_data, gas_used } => {
            &&& (r.halt == Some(Halt::Stop) || r.halt == Some(Halt::Return))
            &&& return_data@ == r.state.return_data
            &&& gas_used == gas - r.state.gas
        },
        Outcome::Reverted { return_data, gas_used } => {
            &&& r.halt == Some(Halt::Revert)
            &&& return_data@ == r.state.return_data
            &&& gas_used == gas - r.state.gas
        },
        Outcome::Fault { reason, gas_used } => {
            &&& r.halt == Some(Halt::Failed(reason))
            &&& gas_used == gas - r.state.gas
        },
    }
}

/// Whether a call that ended so keeps its storage writes.
pub open spec fn commits(h: Option<Halt>) -> bool {
    h == Some(Halt::Stop) || h == Some(Halt::Return)
}

/// The run of a fresh call with `contract` as its storage.
pub open spec fn call_result(vm: State, env: ContextModel, contract: Map<crate::storage::SlotKey, nat>) -> Step {
    run(env, State { storage: contract, ..vm })
}

/// `new` holds all of `old` and then perhaps more.
pub open spec fn extends(new: Seq<Slot>, old: Seq<Slot>) -> bool {
    old.len() <= new.len() && new.subrange(0, old.len() as int) == old
}

/// The state in which an engine starts: gas is the value divided by the
/// gas price, everything else empty.
pub open spec fn initial_state(env: ContextModel) -> State {
    State {
        pc: 0,
        gas: env.value / env.gas_cost,
        stack: Seq::empty(),
        memory: Seq::empty(),
        return_data: Seq::empty(),
        trace: Seq::empty(),
        storage: Map::empty(),
    }
}

/// Gas price and value of the calls that `disassemble` makes: a budget of
/// 10^8 gas.
pub const DISASSEMBLY_GAS_PRICE: usize = 1;

pub const DISASSEMBLY_VALUE: usize = 100000000;

/// The context in which `disassemble` runs code: zero addresses, no input.
pub open spec fn disassembly_context(code: Seq<u8>) -> ContextModel {
    ContextModel {
        supervisor: Seq::new(20, |i: int| 0u8),
        sender: Seq::new(20, |i: int| 0u8),
        gas_cost: DISASSEMBLY_GAS_PRICE as nat,
        value: DISASSEMBLY_VALUE as nat,
        code: code,
        input: Seq::empty(),
    }
}

/// The opcodes that running `code` from an empty storage executes.
pub open spec fn executed_opcodes(code: Seq<u8>) -> Seq<u8> {
    run(disassembly_context(code), initial_state(disassembly_context(code))).state.trace
}

fn binary_op(op: u8) -> (r: bool)
    ensures
        r == is_binary(op),
{
    (0x01 <= op && op <= 0x07) || op == 0x0a || op == 0x0b || (0x10 <= op && op <= 0x14) || (0x16
        <= op && op <= 0x18) || (0x1a <= op && op <= 0x1d)
}

fn query_op(op: u8) -> (r: bool)
    ensures
        r == is_query(op),
{
    op == 0x30 || op == 0x33 || op == 0x34 || op == 0x36 || op == 0x38 || op == 0x3a || op == 0x58
        || op == 0x59 || op == 0x5a
}

fn collaborator_op(op: u8) -> (r: bool)
    ensures
        r == needs_collaborator(op),
{
    op == 0x31 || op == 0x32 || op == 0x3b || op == 0x3c || op == 0x3f || (0x40 <= op && op <= 0x45)
        || (0xa0 <= op && op <= 0xa4) || op == 0xf0 || op == 0xf1 || op == 0xf2 || op == 0xf4
        || op == 0xf5 || op == 0xfa || op == 0xff
}

fn copy_of(v: &Vec<u8>) -> (r: Vec<u8>)
    ensures
        r@ == v@,
{
    let r = v.clone();
    assert(r@ =~= v@);
    r
}

fn words_of(n: usize) -> (r: usize)
    requires
        n <= MEMORY_LIMIT,
    ensures
        r == words(n as nat),
        r <= MEMORY_LIMIT / 32,
{
    (n + 31) / 32
}

/// The memory length after an access of `size` bytes at `offset`.
fn grown(len: usize, offset: usize, size: usize) -> (r: usize)
    requires
        len <= MEMORY_LIMIT,
        offset + size <= MEMORY_LIMIT,
    ensures
        r == grown_len(len as nat, offset as nat, size as nat),
        len <= r <= MEMORY_LIMIT,
{
    if size == 0 || offset + size <= len {
        len
    } else {
        32 * words_of(offset + size)
    }
}

/// The gas that the growth of an access costs.
fn growth(len: usize, offset: usize, size: usize) -> (r: usize)
    requires
        len <= MEMORY_LIMIT,
        offset + size <= MEMORY_LIMIT,
    ensures
        r == growth_cost(len as nat, offset as nat, size as nat),
        r <= 3 * (MEMORY_LIMIT / 32),
{
    3 * (words_of(grown(len, offset, size)) - words_of(len))
}

impl AXISVM {
    /// The call context the engine runs.
    pub closed spec fn context(&self) -> ContextModel {
        self.env@
    }

    /// The program counter stays within the code, and memory within its cap.
    pub closed spec fn wf(&self) -> bool {
        &&& self.pc <= self.env@.code.len()
        &&& self.memory@.len() <= MEMORY_LIMIT
    }

    /// Everything but the stack and the gas is as it was.
    spec fn same_frame(&self, other: &AXISVM) -> bool {
        &&& self.env == other.env
        &&& self.storage == other.storage
        &&& self.pc == other.pc
        &&& self.memory == other.memory
        &&& self.return_data == other.return_data
        &&& self.trace == other.trace
    }

    /// The `i`-th word from the top.
    fn peek(&self, i: usize) -> (r: Word)
        requires
            i < self@.stack.len(),
        ensures
            r@ == top(self@, i as nat),
    {
        self.stack[self.stack.len() - 1 - i]
    }

    /// Removes the top `n` words.
    fn discard(&mut self, n: usize)
        requires
            n <= old(self)@.stack.len(),
        ensures
            final(self).same_frame(old(self)),
            final(self).gas == old(self).gas,
            final(self)@.stack == below(old(self)@, n as nat),
    {
        let ghost s = self.stack@;
        let keep = self.stack.len() - n;
        self.stack.truncate(keep);
        assert(self.stack@.map_values(|w: Word| w@) =~= s.map_values(|w: Word| w@).subrange(
            0,
            keep as int,
        ));
    }

    /// Pushes a word.
    fn push(&mut self, w: Word)
        ensures
            final(self).same_frame(old(self)),
            final(self).gas == old(self).gas,
            final(self)@.stack == old(self)@.stack.push(w@),
    {
        let ghost s = self.stack@;
        self.stack.push(w);
        assert(self.stack@.map_values(|w: Word| w@) =~= s.map_values(|w: Word| w@).push(w@));
    }

    /// Two-operand arithmetic, comparison and bitwise instructions.
    fn op_binary(&mut self, op: u8) -> (r: Option<Halt>)
        requires
            is_binary(op),
        ensures
            final(self).same_frame(old(self)),
            (Step { state: final(self)@, halt: r }) == binary_step(old(self)@, op),
    {
        if self.stack.len() < 2 {
            return Some(Halt::Failed(Fault::StackUnderflow));
        }
        let cost = gas_of_binary(op);
        if self.gas < cost {
            return Some(Halt::Failed(Fault::OutOfGas));
        }
        let a = self.peek(0);
        let b = self.peek(1);
        let v = compute_binary(op, a, b);
        self.gas = self.gas - cost;
        self.discard(2);
        self.push(v);
        None
    }

    /// ADDMOD and MULMOD.
    fn op_modular(&mut self, op: u8) -> (r: Option<Halt>)
        requires
            op == 0x08 || op == 0x09,
        ensures
            final(self).same_frame(old(self)),
            (Step { state: final(self)@, halt: r }) == modular_step(old(self)@, op),
    {
        if self.stack.len() < 3 {
            return Some(Halt::Failed(Fault::StackUnderflow));
        }
        if self.gas < 8 {
            return Some(Halt::Failed(Fault::OutOfGas));
        }
        let a = self.peek(0);
        let b = self.peek(1);
        let n = self.peek(2);
        let v = if op == 0x08 { add_mod(a, b, n) } else { mul_mod(a, b, n) };
        self.gas = self.gas - 8;
        self.discard(3);
        self.push(v);
        None
    }

    /// ISZERO and NOT.
    fn op_unary(&mut self, op: u8) -> (r: Option<Halt>)
        requires
            op == 0x15 || op == 0x19,
        ensures
            final(self).same_frame(old(self)),
            (Step { state: final(self)@, halt: r }) == unary_step(old(self)@, op),
    {
        if self.stack.len() < 1 {
            return Some(Halt::Failed(Fault::StackUnderflow));
        }
        if self.gas < 3 {
            return Some(Halt::Failed(Fault::OutOfGas));
        }
        let a = self.peek(0);
        let v = if op == 0x15 { truth(a.is_zero()) } else { word_not(a) };
        self.gas = self.gas - 3;
        self.discard(1);
        self.push(v);
        None
    }

    /// Instructions that push a fact of the context or of the machine.
    fn op_query(&mut self, op: u8) -> (r: Option<Halt>)
        requires
            is_query(op),
            old(self).pc >= 1,
        ensures
            final(self).same_frame(old(self)),
            (Step { state: final(self)@, halt: r }) == query_step(old(self).context(), old(self)@, op),
    {
        if self.gas < 2 {
            return Some(Halt::Failed(Fault::OutOfGas));
        }
        self.gas = self.gas - 2;
        let v = if op == 0x30 {
            self.env.code_supervisor().to_word()
        } else if op == 0x33 {
            self.env.sender().to_word()
        } else if op == 0x34 {
            Word::from_u64(self.env.value() as u64)
        } else if op == 0x36 {
            Word::from_u64(self.env.input().len() as u64)
        } else if op == 0x38 {
            Word::from_u64(self.env.code().len() as u64)
        } else if op == 0x3a {
            Word::from_u64(self.env.gas_cost() as u64)
        } else if op == 0x58 {
            Word::from_u64((self.pc - 1) as u64)
        } else if op == 0x59 {
            Word::from_u64(self.memory.len() as u64)
        } else {
            Word::from_u64(self.gas as u64)
        };
        self.push(v);
        None
    }

    /// CALLDATALOAD: 32 bytes of call data from the popped offset.
    fn op_calldataload(&mut self) -> (r: Option<Halt>)
        ensures
            final(self).same_frame(old(self)),
            (Step { state: final(self)@, halt: r }) == calldataload_step(old(self).context(), old(self)@),
    {
        if self.stack.len() < 1 {
            return Some(Halt::Failed(Fault::StackUnderflow));
        }
        if self.gas < 3 {
            return Some(Halt::Failed(Fault::OutOfGas));
        }
        let offset = self.peek(0);
        let bytes = read_padded_at(self.env.input(), offset, 32);
        let v = word_from_be(bytes.as_slice());
        self.gas = self.gas - 3;
        self.discard(1);
        self.push(v);
        None
    }

    /// POP.
    fn op_pop(&mut self) -> (r: Option<Halt>)
        ensures
            final(self).same_frame(old(self)),
            (Step { state: final(self)@, halt: r }) == pop_step(old(self)@),
    {
        if self.stack.len() < 1 {
            return Some(Halt::Failed(Fault::StackUnderflow));
        }
        if self.gas < 2 {
            return Some(Halt::Failed(Fault::OutOfGas));
        }
        self.gas = self.gas - 2;
        self.discard(1);
        None
    }

    /// SLOAD: the slot of the executing contract under the popped key.
    fn op_sload(&mut self) -> (r: Option<Halt>)
        ensures
            final(self).same_frame(old(self)),
            (Step { state: final(self)@, halt: r }) == sload_step(old(self).context(), old(self)@),
    {
        if self.stack.len() < 1 {
            return Some(Halt::Failed(Fault::StackUnderflow));
        }
        if self.gas < 200 {
            return Some(Halt::Failed(Fault::OutOfGas));
        }
        let key = self.peek(0);
        let v = self.storage.get(&self.env.code_supervisor(), &key);
        self.gas = self.gas - 200;
        self.discard(1);
        self.push(v);
        None
    }

    /// SSTORE: writes the second word to the slot under the top word.
    fn op_sstore(&mut self) -> (r: Option<Halt>)
        ensures
            final(self).env == old(self).env,
            final(self).pc == old(self).pc,
            final(self).memory == old(self).memory,
            final(self).return_data == old(self).return_data,
            final(self).trace == old(self).trace,
            final(self).storage.history() == old(self).storage.history() || exists|s: Slot|
                final(self).storage.history() == old(self).storage.history().push(s),
            (Step { state: final(self)@, halt: r }) == sstore_step(old(self).context(), old(self)@),
    {
        if self.stack.len() < 2 {
            return Some(Halt::Failed(Fault::StackUnderflow));
        }
        let key = self.peek(0);
        let value = self.peek(1);
        let address = self.env.code_supervisor();
        let current = self.storage.get(&address, &key);
        let cost: usize = if current.is_zero() && !value.is_zero() { 20000 } else { 5000 };
        if self.gas < cost {
            return Some(Halt::Failed(Fault::OutOfGas));
        }
        self.gas = self.gas - cost;
        self.discard(2);
        self.storage.set(&address, &key, &value);
        None
    }

    /// JUMP: to the popped destination, which must be a JUMPDEST instruction.
    fn op_jump(&mut self) -> (r: Option<Halt>)
        requires
            old(self).wf(),
        ensures
            final(self).wf(),
            final(self).env == old(self).env,
            final(self).storage == old(self).storage,
            (Step { state: final(self)@, halt: r }) == jump_step(old(self).context(), old(self)@),
    {
        if self.stack.len() < 1 {
            return Some(Halt::Failed(Fault::StackUnderflow));
        }
        if self.gas < 8 {
            return Some(Halt::Failed(Fault::OutOfGas));
        }
        let dest = self.peek(0);
        match dest.to_bounded(self.env.code().len()) {
            Some(d) => {
                if !is_jumpdest(self.env.code(), d) {
                    return Some(Halt::Failed(Fault::InvalidJumpDestination));
                }
                self.gas = self.gas - 8;
                self.discard(1);
                self.pc = d;
                None
            },
            None => Some(Halt::Failed(Fault::InvalidJumpDestination)),
        }
    }

    /// JUMPI: to the top word's destination when the second word is not zero.
    fn op_jumpi(&mut self) -> (r: Option<Halt>)
        requires
            old(self).wf(),
        ensures
            final(self).wf(),
            final(self).env == old(self).env,
            final(self).storage == old(self).storage,
            (Step { state: final(self)@, halt: r }) == jumpi_step(old(self).context(), old(self)@),
    {
        if self.stack.len() < 2 {
            return Some(Halt::Failed(Fault::StackUnderflow));
        }
        if self.gas < 10 {
            return Some(Halt::Failed(Fault::OutOfGas));
        }
        let dest = self.peek(0);
        let cond = self.peek(1);
        if cond.is_zero() {
            self.gas = self.gas - 10;
            self.discard(2);
            return None;
        }
        match dest.to_bounded(self.env.code().len()) {
            Some(d) => {
                if !is_jumpdest(self.env.code(), d) {
                    return Some(Halt::Failed(Fault::InvalidJumpDestination));
                }
                self.gas = self.gas - 10;
                self.discard(2);
                self.pc = d;
                None
            },
            None => Some(Halt::Failed(Fault::InvalidJumpDestination)),
        }
    }

    /// JUMPDEST: marks a jump target and does nothing else.
    fn op_jumpdest(&mut self) -> (r: Option<Halt>)
        ensures
            final(self).same_frame(old(self)),
            final(self).stack == old(self).stack,
            (Step { state: final(self)@, halt: r }) == jumpdest_step(old(self)@),
    {
        if self.gas < 1 {
            return Some(Halt::Failed(Fault::OutOfGas));
        }
        self.gas = self.gas - 1;
        None
    }

    /// PUSHk: the `k` bytes after the opcode, big-endian, zero past the end
    /// of the code; the program counter moves past them.
    fn op_push(&mut self, k: usize) -> (r: Option<Halt>)
        requires
            1 <= k <= 32,
            old(self).wf(),
        ensures
            final(self).wf(),
            final(self).env == old(self).env,
            final(self).storage == old(self).storage,
            (Step { state: final(self)@, halt: r }) == push_step(old(self).context(), old(self)@, k as nat),
    {
        if self.gas < 3 {
            return Some(Halt::Failed(Fault::OutOfGas));
        }
        let bytes = read_padded(self.env.code(), self.pc, k);
        let v = word_from_be(bytes.as_slice());
        self.gas = self.gas - 3;
        self.push(v);
        let len = self.env.code().len();
        if k <= len - self.pc {
            self.pc = self.pc + k;
        } else {
            self.pc = len;
        }
        None
    }

    /// DUPk: pushes a copy of the `k`-th word from the top.
    fn op_dup(&mut self, k: usize) -> (r: Option<Halt>)
        requires
            1 <= k <= 16,
        ensures
            final(self).same_frame(old(self)),
            (Step { state: final(self)@, halt: r }) == dup_step(old(self)@, k as nat),
    {
        if self.stack.len() < k {
            return Some(Halt::Failed(Fault::StackUnderflow));
        }
        if self.gas < 3 {
            return Some(Halt::Failed(Fault::OutOfGas));
        }
        let v = self.peek(k - 1);
        self.gas = self.gas - 3;
        self.push(v);
        None
    }

    /// SWAPk: exchanges the top word with the one `k` places below it.
    fn op_swap(&mut self, k: usize) -> (r: Option<Halt>)
        requires
            1 <= k <= 16,
        ensures
            final(self).same_frame(old(self)),
            (Step { state: final(self)@, halt: r }) == swap_step(old(self)@, k as nat),
    {
        if self.stack.len() < k + 1 {
            return Some(Halt::Failed(Fault::StackUnderflow));
        }
        if self.gas < 3 {
            return Some(Halt::Failed(Fault::OutOfGas));
        }
        let ghost s = self.stack@;
        let t = self.stack.len() - 1;
        let u = t - k;
        let x = self.stack[t];
        let y = self.stack[u];
        self.stack.set(t, y);
        self.stack.set(u, x);
        self.gas = self.gas - 3;
        assert(self.stack@.map_values(|w: Word| w@) =~= s.map_values(|w: Word| w@).update(
            t as int,
            s[u as int]@,
        ).update(u as int, s[t as int]@));
        None
    }

    /// Zero-extends memory to `new_len` bytes.
    fn grow_memory(&mut self, new_len: usize)
        requires
            old(self).memory@.len() <= new_len,
        ensures
            final(self).memory@ == grow(old(self).memory@, new_len as nat),
            final(self).env == old(self).env,
            final(self).storage == old(self).storage,
            final(self).pc == old(self).pc,
            final(self).gas == old(self).gas,
            final(self).stack == old(self).stack,
            final(self).return_data == old(self).return_data,
            final(self).trace == old(self).trace,
    {
        let ghost m = self.memory@;
        while self.memory.len() < new_len
            invariant
                m.len() <= self.memory@.len() <= new_len,
                self.memory@ =~= grow(m, self.memory@.len()),
                self.env == old(self).env,
                self.storage == old(self).storage,
                self.pc == old(self).pc,
                self.gas == old(self).gas,
                self.stack == old(self).stack,
                self.return_data == old(self).return_data,
                self.trace == old(self).trace,
            decreases new_len - self.memory@.len(),
        {
            self.memory.push(0u8);
            assert(self.memory@ =~= grow(m, self.memory@.len()));
        }
    }

    /// Writes `data` to memory at `offset`.
    fn write_memory(&mut self, offset: usize, data: &[u8])
        requires
            offset + data@.len() <= old(self).memory@.len(),
        ensures
            final(self).memory@ == overwrite(old(self).memory@, offset as nat, data@),
            final(self).env == old(self).env,
            final(self).storage == old(self).storage,
            final(self).pc == old(self).pc,
            final(self).gas == old(self).gas,
            final(self).stack == old(self).stack,
            final(self).return_data == old(self).return_data,
            final(self).trace == old(self).trace,
    {
        let ghost m = self.memory@;
        let l = self.memory.len();
        let mut i: usize = 0;
        while i < data.len()
            invariant
                i <= data@.len(),
                m.len() == l,
                offset + data@.len() <= m.len(),
                self.memory@.len() == m.len(),
                forall|j: int|
                    0 <= j < m.len() ==> #[trigger] self.memory@[j] == if offset <= j < offset + i {
                        data@[j - offset]
                    } else {
                        m[j]
                    },
                self.env == old(self).env,
                self.storage == old(self).storage,
                self.pc == old(self).pc,
                self.gas == old(self).gas,
                self.stack == old(self).stack,
                self.return_data == old(self).return_data,
                self.trace == old(self).trace,
            decreases data@.len() - i,
        {
            self.memory.set(offset + i, data[i]);
            i = i + 1;
        }
        assert(self.memory@ =~= overwrite(m, offset as nat, data@));
    }

    /// CALLDATACOPY and CODECOPY: copy a range of the input or the code into
    /// memory, zero past the source's end.
    fn op_copy(&mut self, op: u8) -> (r: Option<Halt>)
        requires
            op == 0x37 || op == 0x39,
            old(self).wf(),
        ensures
            final(self).wf(),
            final(self).env == old(self).env,
            final(self).storage == old(self).storage,
            (Step { state: final(self)@, halt: r }) == copy_step(old(self).context(), old(self)@, op),
    {
        if self.stack.len() < 3 {
            return Some(Halt::Failed(Fault::StackUnderflow));
        }
        let dest = self.peek(0);
        let offset = self.peek(1);
        let size = self.peek(2);
        let sz = match size.to_bounded(MEMORY_LIMIT) {
            Some(z) => z,
            None => {
                return Some(Halt::Failed(Fault::OutOfGas));
            },
        };
        if sz == 0 {
            if self.gas < 3 {
                return Some(Halt::Failed(Fault::OutOfGas));
            }
            self.gas = self.gas - 3;
            self.discard(3);
            assert(self.memory@ =~= overwrite(
                grow(self.memory@, grown_len(self.memory@.len(), dest@, 0)),
                dest@,
                padded_read(self.env@.code, offset@, 0),
            ));
            assert(self.memory@ =~= overwrite(
                grow(self.memory@, grown_len(self.memory@.len(), dest@, 0)),
                dest@,
                padded_read(self.env@.input, offset@, 0),
            ));
            return None;
        }
        let d = match dest.to_bounded(MEMORY_LIMIT - sz) {
            Some(d) => d,
            None => {
                return Some(Halt::Failed(Fault::OutOfGas));
            },
        };
        let len = self.memory.len();
        let cost = 3 + 3 * words_of(sz) + growth(len, d, sz);
        if self.gas < cost {
            return Some(Halt::Failed(Fault::OutOfGas));
        }
        let data = if op == 0x37 {
            read_padded_at(self.env.input(), offset, sz)
        } else {
            read_padded_at(self.env.code(), offset, sz)
        };
        self.gas = self.gas - cost;
        self.discard(3);
        let new_len = grown(len, d, sz);
        self.grow_memory(new_len);
        self.write_memory(d, data.as_slice());
        None
    }

    /// MLOAD (0x51) reads a word from memory; MSTORE (0x52) writes one.
    fn op_memory(&mut self, op: u8) -> (r: Option<Halt>)
        requires
            op == 0x51 || op == 0x52,
            old(self).wf(),
        ensures
            final(self).wf(),
            final(self).env == old(self).env,
            final(self).storage == old(self).storage,
            (Step { state: final(self)@, halt: r }) == memory_step(old(self)@, op),
    {
        let n: usize = if op == 0x51 { 1 } else { 2 };
        if self.stack.len() < n {
            return Some(Halt::Failed(Fault::StackUnderflow));
        }
        let offset = self.peek(0);
        let o = match offset.to_bounded(MEMORY_LIMIT - 32) {
            Some(o) => o,
            None => {
                return Some(Halt::Failed(Fault::OutOfGas));
            },
        };
        let len = self.memory.len();
        let cost = 3 + growth(len, o, 32);
        if self.gas < cost {
            return Some(Halt::Failed(Fault::OutOfGas));
        }
        self.gas = self.gas - cost;
        let new_len = grown(len, o, 32);
        if op == 0x51 {
            self.discard(1);
            self.grow_memory(new_len);
            let bytes = read_padded(&self.memory, o, 32);
            assert(bytes@ =~= self.memory@.subrange(o as int, o + 32));
            let v = word_from_be(bytes.as_slice());
            self.push(v);
        } else {
            let v = self.peek(1);
            self.discard(2);
            self.grow_memory(new_len);
            let bytes = word_to_be(v);
            self.write_memory(o, bytes.as_slice());
        }
        None
    }

    /// RETURN (0xf3) and REVERT (0xfd): the memory range becomes the return
    /// data and the engine stops.
    fn op_return(&mut self, op: u8) -> (r: Option<Halt>)
        requires
            op == 0xf3 || op == 0xfd,
            old(self).wf(),
        ensures
            final(self).wf(),
            final(self).env == old(self).env,
            final(self).storage == old(self).storage,
            (Step { state: final(self)@, halt: r }) == return_step(old(self)@, op),
    {
        if self.stack.len() < 2 {
            return Some(Halt::Failed(Fault::StackUnderflow));
        }
        let offset = self.peek(0);
        let size = self.peek(1);
        let halt = if op == 0xf3 { Halt::Return } else { Halt::Revert };
        let sz = match size.to_bounded(MEMORY_LIMIT) {
            Some(z) => z,
            None => {
                return Some(Halt::Failed(Fault::OutOfGas));
            },
        };
        if sz == 0 {
            self.discard(2);
            self.return_data = Vec::new();
            assert(self.memory@ =~= grow(self.memory@, grown_len(self.memory@.len(), offset@, 0)));
            return Some(halt);
        }
        let o = match offset.to_bounded(MEMORY_LIMIT - sz) {
            Some(o) => o,
            None => {
                return Some(Halt::Failed(Fault::OutOfGas));
            },
        };
        let len = self.memory.len();
        let cost = growth(len, o, sz);
        if self.gas < cost {
            return Some(Halt::Failed(Fault::OutOfGas));
        }
        self.gas = self.gas - cost;
        self.discard(2);
        self.grow_memory(grown(len, o, sz));
        let data = read_padded(&self.memory, o, sz);
        assert(data@ =~= self.memory@.subrange(o as int, o + sz));
        self.return_data = data;
        Some(halt)
    }

    /// Executes one instruction: past the end of the code the engine stops;
    /// otherwise the opcode is fetched, recorded in the trace, and run.
    fn exec(&mut self) -> (r: Option<Halt>)
        requires
            old(self).wf(),
        ensures
            final(self).wf(),
            final(self).env == old(self).env,
            extends(final(self).storage.history(), old(self).storage.history()),
            (Step { state: final(self)@, halt: r }) == step(old(self).context(), old(self)@),
    {
        proof {
            reveal(step);
            let h = self.storage.history();
            assert(h.subrange(0, h.len() as int) =~= h);
        }
        let len = self.env.code().len();
        if self.pc >= len {
            return Some(Halt::Stop);
        }
        let op = self.env.code()[self.pc];
        self.pc = self.pc + 1;
        self.trace.push(op);
        let ghost fetched = self@;
        let ghost h0 = self.storage.history();
        assert(h0.subrange(0, h0.len() as int) =~= h0);
        if op == 0x00 {
            Some(Halt::Stop)
        } else if binary_op(op) {
            self.op_binary(op)
        } else if op == 0x08 || op == 0x09 {
            self.op_modular(op)
        } else if op == 0x15 || op == 0x19 {
            self.op_unary(op)
        } else if query_op(op) {
            self.op_query(op)
        } else if op == 0x35 {
            self.op_calldataload()
        } else if op == 0x37 || op == 0x39 {
            self.op_copy(op)
        } else if op == 0x50 {
            self.op_pop()
        } else if op == 0x51 || op == 0x52 {
            self.op_memory(op)
        } else if op == 0x54 {
            self.op_sload()
        } else if op == 0x55 {
            let r = self.op_sstore();
            proof {
                let h1 = self.storage.history();
                if h1 != h0 {
                    let s = choose|s: Slot| h1 == h0.push(s);
                    assert(h1.subrange(0, h0.len() as int) =~= h0);
                }
            }
            r
        } else if op == 0x56 {
            self.op_jump()
        } else if op == 0x57 {
            self.op_jumpi()
        } else if op == 0x5b {
            self.op_jumpdest()
        } else if 0x60 <= op && op <= 0x7f {
            self.op_push((op - 0x5f) as usize)
        } else if 0x80 <= op && op <= 0x8f {
            self.op_dup((op - 0x7f) as usize)
        } else if 0x90 <= op && op <= 0x9f {
            self.op_swap((op - 0x8f) as usize)
        } else if op == 0xf3 || op == 0xfd {
            self.op_return(op)
        } else if collaborator_op(op) {
            Some(Halt::Failed(Fault::MissingCollaborator))
        } else {
            Some(Halt::Failed(Fault::UnimplementedOpcode))
        }
    }

    /// Runs the call to its end against `contract`'s storage. Storage writes
    /// are kept when the call stops normally or returns, and discarded when it
    /// reverts or faults.
    pub fn transaction_execute(&mut self, contract: &mut Storage) -> (o: Outcome)
        requires
            old(self).wf(),
        ensures
            describes(o, call_result(old(self)@, old(self).context(), old(contract)@), old(self)@.gas),
            final(contract)@ == if commits(call_result(old(self)@, old(self).context(), old(contract)@).halt) {
                call_result(old(self)@, old(self).context(), old(contract)@).state.storage
            } else {
                old(contract)@
            },
            final(self)@ == (State {
                storage: old(self)@.storage,
                ..call_result(old(self)@, old(self).context(), old(contract)@).state
            }),
            final(self).context() == old(self).context(),
            final(self).wf(),
    {
        let ghost env = self.context();
        let ghost s0 = State { storage: contract@, ..self@ };
        assert(call_result(self@, env, contract@) == run(env, s0));
        let ghost c0 = contract.history();
        proof {
            contract.lemma_view_is_history();
        }
        let mark = contract.checkpoint();
        let start = self.gas;
        std::mem::swap(&mut self.storage, contract);
        assert(c0.subrange(0, c0.len() as int) =~= c0);
        loop
            invariant
                self.wf(),
                self.env == old(self).env,
                self.context() == env,
                self.gas <= start,
                start as nat == s0.gas,
                old(self)@.gas == s0.gas,
                env == old(self).context(),
                call_result(old(self)@, old(self).context(), old(contract)@) == run(env, s0),
                old(contract)@ == crate::storage::journal_model(c0),
                old(self)@.storage == contract@,
                *contract == old(self).storage,
                extends(self.storage.history(), c0),
                mark == c0.len(),
                run(env, self@) == run(env, s0),
            decreases self.gas,
        {
            let ghost prev = self@;
            let ghost hp = self.storage.history();
            let h = self.exec();
            proof {
                crate::semantics::lemma_run_unfold(env, prev);
                crate::semantics::lemma_step_uses_gas(env, prev);
                let hn = self.storage.history();
                assert(hn.subrange(0, c0.len() as int) =~= hp.subrange(0, c0.len() as int));
            }
            match h {
                Some(halt) => {
                    let used = start - self.gas;
                    let ghost fin = self@;
                    assert(run(env, s0) == (Step { state: fin, halt: Some(halt) }));
                    std::mem::swap(&mut self.storage, contract);
                    assert(contract@ == fin.storage);
                    proof {
                        assert(contract.history().subrange(0, c0.len() as int) == c0);
                        crate::storage::Storage::lemma_view_is_history(contract);
                    }
                    let o = match halt {
                        Halt::Stop | Halt::Return => {
                            Outcome::Success { return_data: copy_of(&self.return_data), gas_used: used }
                        },
                        Halt::Revert => {
                            contract.rollback(mark);
                            proof {
                                contract.lemma_view_is_history();
                            }
                            Outcome::Reverted { return_data: copy_of(&self.return_data), gas_used: used }
                        },
                        Halt::Failed(f) => {
                            contract.rollback(mark);
                            proof {
                                contract.lemma_view_is_history();
                            }
                            Outcome::Fault { reason: f, gas_used: used }
                        },
                    };
                    assert(describes(o, run(env, s0), s0.gas));
                    return o;
                },
                None => {},
            }
        }
    }

    /// An engine ready to run the call described by `env`.
    pub fn new(env: Environment) -> (r: Self)
        requires
            env@.gas_cost > 0,
        ensures
            r.wf(),
            r.context() == env@,
            r@ == initial_state(env@),
    {
        let gas = env.value() / env.gas_cost();
        let r = Self {
            env,
            pc: 0,
            gas,
            trace: Vec::new(),
            stack: Vec::new(),
            memory: Vec::new(),
            return_data: Vec::new(),
            storage: Storage::new(),
        };
        assert(r@.stack =~= Seq::<nat>::empty());
        r
    }

    /// The gas left.
    pub fn gas(&self) -> (r: usize)
        ensures
            r as nat == self@.gas,
    {
        self.gas
    }

    /// The program counter.
    pub fn pc(&self) -> (r: usize)
        ensures
            r as nat == self@.pc,
    {
        self.pc
    }

    /// The operand stack, bottom first.
    pub fn stack(&self) -> (r: &Vec<Word>)
        ensures
            r@.map_values(|w: Word| w@) == self@.stack,
    {
        &self.stack
    }

    /// The memory.
    pub fn memory(&self) -> (r: &Vec<u8>)
        ensures
            r@ == self@.memory,
    {
        &self.memory
    }

    /// The return buffer that RETURN or REVERT filled.
    pub fn return_data(&self) -> (r: &Vec<u8>)
        ensures
            r@ == self@.return_data,
    {
        &self.return_data
    }

    /// The executed opcodes, in order.
    pub fn trace(&self) -> (r: &Vec<u8>)
        ensures
            r@ == self@.trace,
    {
        &self.trace
    }

    /// The mnemonics of the executed instructions, in order.
    pub fn mnemonics(&self) -> (r: Vec<String>)
        ensures
            r@.len() == self@.trace.len(),
            forall|i: int| 0 <= i < r@.len() ==> (#[trigger] r@[i])@ == mnemonic_of(self@.trace[i]),
    {
        let mut out: Vec<String> = Vec::new();
        let mut i: usize = 0;
        while i < self.trace.len()
            invariant
                i <= self.trace@.len(),
                out@.len() == i,
                forall|j: int| 0 <= j < i ==> (#[trigger] out@[j])@ == mnemonic_of(self.trace@[j]),
            decreases self.trace@.len() - i,
        {
            out.push(mnemonic(self.trace[i]).to_owned());
            i = i + 1;
        }
        out
    }

    /// The listing of hexadecimal bytecode: the mnemonics of the
    /// instructions that running it executes, in order. `None` when the text
    /// is not an even number of hexadecimal digits.
    pub fn disassemble(code: &str) -> (r: Option<Vec<String>>)
        ensures
            r is Some <==> is_hex(code.spec_bytes()),
            r matches Some(v) ==> {
                let t = executed_opcodes(hex_bytes(code.spec_bytes()));
                &&& v@.len() == t.len()
                &&& forall|i: int| 0 <= i < v@.len() ==> (#[trigger] v@[i])@ == mnemonic_of(t[i])
            },
    {
        let bytes = match decode_hex(code) {
            Some(b) => b,
            None => {
                return None;
            },
        };
        let mut env = Environment::new(
            Address::zero(),
            Address::zero(),
            DISASSEMBLY_GAS_PRICE,
            DISASSEMBLY_VALUE,
        );
        env.set_code(bytes);
        let mut vm = AXISVM::new(env);
        let mut contract = Storage::new();
        let _ = vm.transaction_execute(&mut contract);
        Some(vm.mnemonics())
    }
}

} // verus!
