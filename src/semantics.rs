//! The meaning of one instruction, as a function from machine state to
//! machine state. The engine in `vm` is proved to follow it step by step.
//!
//! Gas schedule: fixed base costs per instruction; memory growth costs 3 per
//! newly touched 32-byte word (the linear part of the usual schedule, without
//! the quadratic term); copies cost 3 per copied word; EXP costs a flat 10.
//! Memory is capped at `MEMORY_LIMIT` bytes: an access beyond it cannot be
//! paid for and ends in `OutOfGas`.
//!
//! An instruction first checks that the stack holds its operands, then that
//! the gas covers its cost, and only then has any effect: a failing
//! instruction leaves the state as the fetch left it.

use crate::context::ContextModel;
use crate::storage::{load, SlotKey};
use crate::word::{
    add_w, addmod_w, and_w, be_bytes, be_value, bool_w, byte_w, div_w, exp_w, mod_w, mul_w,
    mulmod_w, not_w, or_w, sar_w, sdiv_w, shl_w, shr_w, signed, signextend_w, smod_w, sub_w, xor_w,
};
use vstd::prelude::*;

verus! {

/// The largest memory, in bytes, that a call may use.
pub const MEMORY_LIMIT: usize = 1073741824;

/// Why a call was aborted.
#[derive(Clone, Copy, Debug, PartialEq, Eq, Structural)]
pub enum Fault {
    StackUnderflow,
    OutOfGas,
    InvalidJumpDestination,
    UnimplementedOpcode,
    /// A read past the available bytes where no zero padding applies; every
    /// read of this instruction set pads, so no instruction raises it.
    OutOfBoundsAccess,
    MissingCollaborator,
}

/// Why the engine stopped.
#[derive(Clone, Copy, Debug, PartialEq, Eq, Structural)]
pub enum Halt {
    /// STOP, or the end of the code.
    Stop,
    /// RETURN.
    Return,
    /// REVERT.
    Revert,
    /// An aborting condition.
    Failed(Fault),
}

/// The machine state: program counter, remaining gas, operand stack (top
/// last), memory, return buffer, executed opcodes, and storage.
pub struct State {
    pub pc: nat,
    pub gas: nat,
    pub stack: Seq<nat>,
    pub memory: Seq<u8>,
    pub return_data: Seq<u8>,
    pub trace: Seq<u8>,
    pub storage: Map<SlotKey, nat>,
}

/// The state after a step, and why the engine stopped, if it did.
pub struct Step {
    pub state: State,
    pub halt: Option<Halt>,
}

pub open spec fn proceed(s: State) -> Step {
    Step { state: s, halt: None }
}

pub open spec fn fail(s: State, f: Fault) -> Step {
    Step { state: s, halt: Some(Halt::Failed(f)) }
}

/// The `i`-th word from the top of the stack.
pub open spec fn top(s: State, i: nat) -> nat {
    s.stack[s.stack.len() - 1 - i]
}

/// The stack without its top `n` words.
pub open spec fn below(s: State, n: nat) -> Seq<nat> {
    s.stack.subrange(0, s.stack.len() - n)
}

// ---------------------------------------------------------------- memory

/// The number of 32-byte words that cover `n` bytes.
pub open spec fn words(n: nat) -> nat {
    (n + 31) / 32
}

/// Whether an access of `size` bytes at `offset` stays within the memory cap.
pub open spec fn within_limit(offset: nat, size: nat) -> bool {
    size == 0 || offset + size <= MEMORY_LIMIT
}

/// The memory length after an access of `size` bytes at `offset`.
pub open spec fn grown_len(len: nat, offset: nat, size: nat) -> nat {
    if size == 0 || offset + size <= len {
        len
    } else {
        32 * words(offset + size)
    }
}

/// The gas that the growth of an access costs.
pub open spec fn growth_cost(len: nat, offset: nat, size: nat) -> nat {
    (3 * (words(grown_len(len, offset, size)) - words(len))) as nat
}

/// Memory zero-extended to `len` bytes.
pub open spec fn grow(mem: Seq<u8>, len: nat) -> Seq<u8> {
    Seq::new(len, |j: int| if j < mem.len() { mem[j] } else { 0u8 })
}

/// Memory with `data` written over it at `offset`.
pub open spec fn overwrite(mem: Seq<u8>, offset: nat, data: Seq<u8>) -> Seq<u8> {
    Seq::new(
        mem.len(),
        |j: int| if offset <= j < offset + data.len() { data[j - offset] } else { mem[j] },
    )
}

/// `size` bytes of `src` from `offset`, zero past its end.
pub open spec fn padded_read(src: Seq<u8>, offset: nat, size: nat) -> Seq<u8> {
    Seq::new(size, |i: int| if offset + i < src.len() { src[offset + i] } else { 0u8 })
}

// ---------------------------------------------------------------- jumps

/// The number of immediate bytes that follow an opcode.
pub open spec fn immediate_len(op: u8) -> nat {
    if 0x60 <= op <= 0x7f {
        (op - 0x5f) as nat
    } else {
        0
    }
}

/// Whether decoding the code from instruction position `i` reaches an
/// instruction at position `p`.
pub open spec fn reaches(code: Seq<u8>, i: nat, p: nat) -> bool
    decreases p - i,
{
    if i == p {
        true
    } else if i > p || i >= code.len() {
        false
    } else {
        let n = i + 1 + immediate_len(code[i as int]);
        if n > p {
            false
        } else {
            reaches(code, n, p)
        }
    }
}

/// A jump target: a JUMPDEST that is an instruction, not immediate data.
pub open spec fn valid_jumpdest(code: Seq<u8>, dest: nat) -> bool {
    dest < code.len() && code[dest as int] == 0x5b && reaches(code, 0, dest)
}

// ---------------------------------------------------------------- families

pub open spec fn is_binary(op: u8) -> bool {
    (0x01 <= op <= 0x07) || op == 0x0a || op == 0x0b || (0x10 <= op <= 0x14) || (0x16 <= op
        <= 0x18) || (0x1a <= op <= 0x1d)
}

pub open spec fn binary_cost(op: u8) -> nat {
    if op == 0x02 || op == 0x04 || op == 0x05 || op == 0x06 || op == 0x07 || op == 0x0b {
        5
    } else if op == 0x0a {
        10
    } else {
        3
    }
}

/// The result of a two-operand instruction on the top `a` and the next `b`.
pub open spec fn binary_value(op: u8, a: nat, b: nat) -> nat {
    if op == 0x01 {
        add_w(a, b)
    } else if op == 0x02 {
        mul_w(a, b)
    } else if op == 0x03 {
        sub_w(a, b)
    } else if op == 0x04 {
        div_w(a, b)
    } else if op == 0x05 {
        sdiv_w(a, b)
    } else if op == 0x06 {
        mod_w(a, b)
    } else if op == 0x07 {
        smod_w(a, b)
    } else if op == 0x0a {
        exp_w(a, b)
    } else if op == 0x0b {
        signextend_w(a, b)
    } else if op == 0x10 {
        bool_w(a < b)
    } else if op == 0x11 {
        bool_w(a > b)
    } else if op == 0x12 {
        bool_w(signed(a) < signed(b))
    } else if op == 0x13 {
        bool_w(signed(a) > signed(b))
    } else if op == 0x14 {
        bool_w(a == b)
    } else if op == 0x16 {
        and_w(a, b)
    } else if op == 0x17 {
        or_w(a, b)
    } else if op == 0x18 {
        xor_w(a, b)
    } else if op == 0x1a {
        byte_w(a, b)
    } else if op == 0x1b {
        shl_w(a, b)
    } else if op == 0x1c {
        shr_w(a, b)
    } else {
        sar_w(a, b)
    }
}

pub open spec fn binary_step(s: State, op: u8) -> Step {
    if s.stack.len() < 2 {
        fail(s, Fault::StackUnderflow)
    } else if s.gas < binary_cost(op) {
        fail(s, Fault::OutOfGas)
    } else {
        proceed(
            State {
                gas: (s.gas - binary_cost(op)) as nat,
                stack: below(s, 2).push(binary_value(op, top(s, 0), top(s, 1))),
                ..s
            },
        )
    }
}

/// ADDMOD (0x08) and MULMOD (0x09) on the top three words `a`, `b`, `n`.
pub open spec fn modular_step(s: State, op: u8) -> Step {
    if s.stack.len() < 3 {
        fail(s, Fault::StackUnderflow)
    } else if s.gas < 8 {
        fail(s, Fault::OutOfGas)
    } else {
        let v = if op == 0x08 {
            addmod_w(top(s, 0), top(s, 1), top(s, 2))
        } else {
            mulmod_w(top(s, 0), top(s, 1), top(s, 2))
        };
        proceed(State { gas: (s.gas - 8) as nat, stack: below(s, 3).push(v), ..s })
    }
}

/// ISZERO and NOT.
pub open spec fn unary_step(s: State, op: u8) -> Step {
    if s.stack.len() < 1 {
        fail(s, Fault::StackUnderflow)
    } else if s.gas < 3 {
        fail(s, Fault::OutOfGas)
    } else {
        let v = if op == 0x15 { bool_w(top(s, 0) == 0) } else { not_w(top(s, 0)) };
        proceed(State { gas: (s.gas - 3) as nat, stack: below(s, 1).push(v), ..s })
    }
}

pub open spec fn is_query(op: u8) -> bool {
    op == 0x30 || op == 0x33 || op == 0x34 || op == 0x36 || op == 0x38 || op == 0x3a
        || op == 0x58 || op == 0x59 || op == 0x5a
}

/// What an instruction that reads the context or the machine pushes.
pub open spec fn query_value(env: ContextModel, s: State, op: u8) -> nat {
    if op == 0x30 {
        be_value(env.supervisor)
    } else if op == 0x33 {
        be_value(env.sender)
    } else if op == 0x34 {
        env.value
    } else if op == 0x36 {
        env.input.len()
    } else if op == 0x38 {
        env.code.len()
    } else if op == 0x3a {
        env.gas_cost
    } else if op == 0x58 {
        (s.pc - 1) as nat
    } else if op == 0x59 {
        s.memory.len()
    } else {
        (s.gas - 2) as nat
    }
}

pub open spec fn query_step(env: ContextModel, s: State, op: u8) -> Step {
    if s.gas < 2 {
        fail(s, Fault::OutOfGas)
    } else {
        proceed(
            State {
                gas: (s.gas - 2) as nat,
                stack: s.stack.push(query_value(env, s, op)),
                ..s
            },
        )
    }
}

pub open spec fn calldataload_step(env: ContextModel, s: State) -> Step {
    if s.stack.len() < 1 {
        fail(s, Fault::StackUnderflow)
    } else if s.gas < 3 {
        fail(s, Fault::OutOfGas)
    } else {
        let v = be_value(padded_read(env.input, top(s, 0), 32));
        proceed(State { gas: (s.gas - 3) as nat, stack: below(s, 1).push(v), ..s })
    }
}

/// CALLDATACOPY (from the input) and CODECOPY (from the code).
pub open spec fn copy_step(env: ContextModel, s: State, op: u8) -> Step {
    if s.stack.len() < 3 {
        fail(s, Fault::StackUnderflow)
    } else {
        let dest = top(s, 0);
        let offset = top(s, 1);
        let size = top(s, 2);
        let src = if op == 0x37 { env.input } else { env.code };
        if !within_limit(dest, size) {
            fail(s, Fault::OutOfGas)
        } else {
            let cost = 3 + 3 * words(size) + growth_cost(s.memory.len(), dest, size);
            if s.gas < cost {
                fail(s, Fault::OutOfGas)
            } else {
                let mem = grow(s.memory, grown_len(s.memory.len(), dest, size));
                proceed(
                    State {
                        gas: (s.gas - cost) as nat,
                        stack: below(s, 3),
                        memory: overwrite(mem, dest, padded_read(src, offset, size)),
                        ..s
                    },
                )
            }
        }
    }
}

pub open spec fn pop_step(s: State) -> Step {
    if s.stack.len() < 1 {
        fail(s, Fault::StackUnderflow)
    } else if s.gas < 2 {
        fail(s, Fault::OutOfGas)
    } else {
        proceed(State { gas: (s.gas - 2) as nat, stack: below(s, 1), ..s })
    }
}

/// MLOAD (0x51) and MSTORE (0x52).
pub open spec fn memory_step(s: State, op: u8) -> Step {
    let n: nat = if op == 0x51 { 1 } else { 2 };
    if s.stack.len() < n {
        fail(s, Fault::StackUnderflow)
    } else {
        let offset = top(s, 0);
        if !within_limit(offset, 32) {
            fail(s, Fault::OutOfGas)
        } else {
            let cost = 3 + growth_cost(s.memory.len(), offset, 32);
            if s.gas < cost {
                fail(s, Fault::OutOfGas)
            } else {
                let mem = grow(s.memory, grown_len(s.memory.len(), offset, 32));
                if op == 0x51 {
                    let v = be_value(mem.subrange(offset as int, offset + 32int));
                    proceed(
                        State {
                            gas: (s.gas - cost) as nat,
                            stack: below(s, 1).push(v),
                            memory: mem,
                            ..s
                        },
                    )
                } else {
                    proceed(
                        State {
                            gas: (s.gas - cost) as nat,
                            stack: below(s, 2),
                            memory: overwrite(mem, offset, be_bytes(top(s, 1))),
                            ..s
                        },
                    )
                }
            }
        }
    }
}

pub open spec fn sload_step(env: ContextModel, s: State) -> Step {
    if s.stack.len() < 1 {
        fail(s, Fault::StackUnderflow)
    } else if s.gas < 200 {
        fail(s, Fault::OutOfGas)
    } else {
        let v = load(s.storage, env.supervisor, top(s, 0));
        proceed(State { gas: (s.gas - 200) as nat, stack: below(s, 1).push(v), ..s })
    }
}

/// SSTORE costs 20000 to fill an empty slot, 5000 otherwise.
pub open spec fn sstore_cost(current: nat, value: nat) -> nat {
    if current == 0 && value != 0 {
        20000
    } else {
        5000
    }
}

pub open spec fn sstore_step(env: ContextModel, s: State) -> Step {
    if s.stack.len() < 2 {
        fail(s, Fault::StackUnderflow)
    } else {
        let key = top(s, 0);
        let value = top(s, 1);
        let cost = sstore_cost(load(s.storage, env.supervisor, key), value);
        if s.gas < cost {
            fail(s, Fault::OutOfGas)
        } else {
            proceed(
                State {
                    gas: (s.gas - cost) as nat,
                    stack: below(s, 2),
                    storage: s.storage.insert((env.supervisor, key), value),
                    ..s
                },
            )
        }
    }
}

pub open spec fn jump_step(env: ContextModel, s: State) -> Step {
    if s.stack.len() < 1 {
        fail(s, Fault::StackUnderflow)
    } else if s.gas < 8 {
        fail(s, Fault::OutOfGas)
    } else if !valid_jumpdest(env.code, top(s, 0)) {
        fail(s, Fault::InvalidJumpDestination)
    } else {
        proceed(State { pc: top(s, 0), gas: (s.gas - 8) as nat, stack: below(s, 1), ..s })
    }
}

pub open spec fn jumpi_step(env: ContextModel, s: State) -> Step {
    if s.stack.len() < 2 {
        fail(s, Fault::StackUnderflow)
    } else if s.gas < 10 {
        fail(s, Fault::OutOfGas)
    } else if top(s, 1) == 0 {
        proceed(State { gas: (s.gas - 10) as nat, stack: below(s, 2), ..s })
    } else if !valid_jumpdest(env.code, top(s, 0)) {
        fail(s, Fault::InvalidJumpDestination)
    } else {
        proceed(State { pc: top(s, 0), gas: (s.gas - 10) as nat, stack: below(s, 2), ..s })
    }
}

pub open spec fn jumpdest_step(s: State) -> Step {
    if s.gas < 1 {
        fail(s, Fault::OutOfGas)
    } else {
        proceed(State { gas: (s.gas - 1) as nat, ..s })
    }
}

/// PUSHk: the `k` bytes after the opcode, zero past the end of the code.
pub open spec fn push_step(env: ContextModel, s: State, k: nat) -> Step {
    if s.gas < 3 {
        fail(s, Fault::OutOfGas)
    } else {
        let v = be_value(padded_read(env.code, s.pc, k));
        let pc = if s.pc + k <= env.code.len() { s.pc + k } else { env.code.len() };
        proceed(State { pc: pc, gas: (s.gas - 3) as nat, stack: s.stack.push(v), ..s })
    }
}

/// DUPk pushes a copy of the `k`-th word from the top.
pub open spec fn dup_step(s: State, k: nat) -> Step {
    if s.stack.len() < k {
        fail(s, Fault::StackUnderflow)
    } else if s.gas < 3 {
        fail(s, Fault::OutOfGas)
    } else {
        proceed(State { gas: (s.gas - 3) as nat, stack: s.stack.push(top(s, (k - 1) as nat)), ..s })
    }
}

/// SWAPk exchanges the top word with the one `k` places below it.
pub open spec fn swap_step(s: State, k: nat) -> Step {
    if s.stack.len() < k + 1 {
        fail(s, Fault::StackUnderflow)
    } else if s.gas < 3 {
        fail(s, Fault::OutOfGas)
    } else {
        let t = s.stack.len() - 1;
        let u = s.stack.len() - 1 - k;
        proceed(
            State {
                gas: (s.gas - 3) as nat,
                stack: s.stack.update(t, s.stack[u]).update(u, s.stack[t]),
                ..s
            },
        )
    }
}

/// RETURN (0xf3) and REVERT (0xfd): the memory range becomes the return data.
pub open spec fn return_step(s: State, op: u8) -> Step {
    if s.stack.len() < 2 {
        fail(s, Fault::StackUnderflow)
    } else {
        let offset = top(s, 0);
        let size = top(s, 1);
        if !within_limit(offset, size) {
            fail(s, Fault::OutOfGas)
        } else {
            let cost = growth_cost(s.memory.len(), offset, size);
            if s.gas < cost {
                fail(s, Fault::OutOfGas)
            } else {
                let mem = grow(s.memory, grown_len(s.memory.len(), offset, size));
                let data = if size == 0 {
                    Seq::empty()
                } else {
                    mem.subrange(offset as int, (offset + size) as int)
                };
                Step {
                    state: State {
                        gas: (s.gas - cost) as nat,
                        stack: below(s, 2),
                        memory: mem,
                        return_data: data,
                        ..s
                    },
                    halt: Some(if op == 0xf3 { Halt::Return } else { Halt::Revert }),
                }
            }
        }
    }
}

/// Instructions that need a collaborator this core does not have: the
/// account ledger, the block context, a log sink, or nested calls.
pub open spec fn needs_collaborator(op: u8) -> bool {
    op == 0x31 || op == 0x32 || op == 0x3b || op == 0x3c || op == 0x3f || (0x40 <= op <= 0x45)
        || (0xa0 <= op <= 0xa4) || op == 0xf0 || op == 0xf1 || op == 0xf2 || op == 0xf4
        || op == 0xf5 || op == 0xfa || op == 0xff
}

/// The effect of opcode `op`, in a state whose program counter already
/// points past it.
pub open spec fn execute(env: ContextModel, s: State, op: u8) -> Step {
    if op == 0x00 {
        Step { state: s, halt: Some(Halt::Stop) }
    } else if is_binary(op) {
        binary_step(s, op)
    } else if op == 0x08 || op == 0x09 {
        modular_step(s, op)
    } else if op == 0x15 || op == 0x19 {
        unary_step(s, op)
    } else if is_query(op) {
        query_step(env, s, op)
    } else if op == 0x35 {
        calldataload_step(env, s)
    } else if op == 0x37 || op == 0x39 {
        copy_step(env, s, op)
    } else if op == 0x50 {
        pop_step(s)
    } else if op == 0x51 || op == 0x52 {
        memory_step(s, op)
    } else if op == 0x54 {
        sload_step(env, s)
    } else if op == 0x55 {
        sstore_step(env, s)
    } else if op == 0x56 {
        jump_step(env, s)
    } else if op == 0x57 {
        jumpi_step(env, s)
    } else if op == 0x5b {
        jumpdest_step(s)
    } else if 0x60 <= op <= 0x7f {
        push_step(env, s, (op - 0x5f) as nat)
    } else if 0x80 <= op <= 0x8f {
        dup_step(s, (op - 0x7f) as nat)
    } else if 0x90 <= op <= 0x9f {
        swap_step(s, (op - 0x8f) as nat)
    } else if op == 0xf3 || op == 0xfd {
        return_step(s, op)
    } else if needs_collaborator(op) {
        fail(s, Fault::MissingCollaborator)
    } else {
        fail(s, Fault::UnimplementedOpcode)
    }
}

/// One step: past the end of the code the engine stops; otherwise it fetches
/// the opcode, records it in the trace, moves past it and executes it.
#[verifier::opaque]
pub open spec fn step(env: ContextModel, s: State) -> Step {
    if s.pc >= env.code.len() {
        Step { state: s, halt: Some(Halt::Stop) }
    } else {
        let op = env.code[s.pc as int];
        execute(env, State { pc: s.pc + 1, trace: s.trace.push(op), ..s }, op)
    }
}

/// Steps until the engine stops. Every step that does not stop costs gas,
/// so the gas left bounds the number of steps.
pub open spec fn run(env: ContextModel, s: State) -> Step
    decreases s.gas,
{
    let r = step(env, s);
    if r.halt is Some || r.state.gas >= s.gas {
        r
    } else {
        run(env, r.state)
    }
}

/// Every step that does not stop the engine uses gas.
pub proof fn lemma_step_uses_gas(env: ContextModel, s: State)
    ensures
        step(env, s).halt is None ==> step(env, s).state.gas < s.gas,
        step(env, s).state.gas <= s.gas,
{
    reveal(step);
}

/// Running is one step, and then the rest of the run unless it stopped.
pub proof fn lemma_run_unfold(env: ContextModel, s: State)
    ensures
        step(env, s).halt is Some ==> run(env, s) == step(env, s),
        step(env, s).halt is None ==> run(env, s) == run(env, step(env, s).state),
{
    lemma_step_uses_gas(env, s);
}

/// Running always ends in a halt.
pub proof fn lemma_run_halts(env: ContextModel, s: State)
    ensures
        run(env, s).halt is Some,
    decreases s.gas,
{
    lemma_step_uses_gas(env, s);
    let r = step(env, s);
    if r.halt is None {
        lemma_run_halts(env, r.state);
    }
}

} // verus!
