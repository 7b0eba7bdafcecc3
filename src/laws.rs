//! Properties of the machine that hold for all inputs, proved from the
//! semantics that the engine follows.

use crate::context::ContextModel;
use crate::semantics::{
    binary_value, dup_step, fail, immediate_len, jump_step, padded_read, pop_step, proceed,
    push_step, reaches, step, swap_step, top, valid_jumpdest, Fault, Halt, State, Step,
};
use crate::storage::SlotKey;
use crate::vm::{call_result, initial_state};
use crate::word::{be_value, word_modulus};
use vstd::prelude::*;

verus! {

/// Identical context and storage give an identical run: the same stack,
/// memory, return data, trace, storage and gas, and the same end.
pub proof fn determinism(
    e1: ContextModel,
    e2: ContextModel,
    m1: Map<SlotKey, nat>,
    m2: Map<SlotKey, nat>,
)
    requires
        e1 == e2,
        m1 == m2,
    ensures
        call_result(initial_state(e1), e1, m1) == call_result(initial_state(e2), e2, m2),
{
}

/// `n` POP instructions in a row, stopping at the first that fails.
pub open spec fn pop_times(s: State, n: nat) -> Step
    decreases n,
{
    if n == 0 {
        proceed(s)
    } else {
        let r = pop_times(s, (n - 1) as nat);
        if r.halt is Some {
            r
        } else {
            pop_step(r.state)
        }
    }
}

/// After words are pushed, as many POPs restore the stack as it was, at the
/// same depth, and use 2 gas each.
pub proof fn stack_balance(s: State, pushed: Seq<nat>)
    requires
        s.gas >= 2 * pushed.len(),
    ensures
        pop_times(State { stack: s.stack + pushed, ..s }, pushed.len()) == proceed(
            State { gas: (s.gas - 2 * pushed.len()) as nat, ..s },
        ),
{
    let t = State { stack: s.stack + pushed, ..s };
    lemma_pops_take_top(t, pushed.len());
    assert(t.stack.subrange(0, t.stack.len() - pushed.len()) =~= s.stack);
}

/// `n` POPs with enough stack and gas remove the top `n` words.
proof fn lemma_pops_take_top(s: State, n: nat)
    requires
        s.stack.len() >= n,
        s.gas >= 2 * n,
    ensures
        pop_times(s, n) == proceed(
            State {
                gas: (s.gas - 2 * n) as nat,
                stack: s.stack.subrange(0, s.stack.len() - n),
                ..s
            },
        ),
    decreases n,
{
    if n == 0 {
        assert(s.stack.subrange(0, s.stack.len() as int) =~= s.stack);
    } else {
        lemma_pops_take_top(s, (n - 1) as nat);
        let r = pop_times(s, (n - 1) as nat);
        assert(r.state.stack.subrange(0, r.state.stack.len() - 1) =~= s.stack.subrange(
            0,
            s.stack.len() - n,
        ));
    }
}

/// Gas never grows, and every step that does not stop uses some. A step
/// that runs out of gas, or fails in any other way, changes nothing but the
/// fetch: the program counter moves past the opcode and the trace records it.
pub proof fn gas_monotonicity(env: ContextModel, s: State)
    ensures
        step(env, s).state.gas <= s.gas,
        step(env, s).halt is None ==> step(env, s).state.gas < s.gas,
        step(env, s).halt matches Some(Halt::Failed(_)) ==> step(env, s).state == (State {
            pc: s.pc + 1,
            trace: s.trace.push(env.code[s.pc as int]),
            ..s
        }),
{
    reveal(step);
}

/// ADD, SUB and MUL wrap modulo 2^256, division by zero gives zero, and in
/// particular ADD(2^256 - 1, 1) = 0 and SUB(0, 1) = 2^256 - 1.
pub proof fn arithmetic_wraparound(a: nat, b: nat)
    requires
        a < word_modulus(),
        b < word_modulus(),
    ensures
        binary_value(0x01, a, b) == (a + b) % word_modulus(),
        binary_value(0x02, a, b) == (a * b) % word_modulus(),
        binary_value(0x03, a, b) == (a - b) % (word_modulus() as int),
        binary_value(0x04, a, 0) == 0,
        binary_value(0x01, (word_modulus() - 1) as nat, 1) == 0,
        binary_value(0x03, 0, 1) == word_modulus() - 1,
{
    let m = word_modulus() as int;
    vstd::arithmetic::div_mod::lemma_mod_add_multiples_vanish(a - b, m);
    vstd::arithmetic::div_mod::lemma_mod_self_0(m);
    vstd::arithmetic::div_mod::lemma_small_mod((m - 1) as nat, m as nat);
}

/// PUSHk pushes its `k` immediate bytes read big-endian, with the bytes past
/// the end of the code read as zero: it never faults for want of code.
pub proof fn push_semantics(env: ContextModel, s: State, k: nat)
    requires
        1 <= k <= 32,
        s.gas >= 3,
    ensures
        push_step(env, s, k).halt is None,
        push_step(env, s, k).state.stack == s.stack.push(be_value(padded_read(env.code, s.pc, k))),
        padded_read(env.code, s.pc, k).len() == k,
        forall|i: int|
            0 <= i < k ==> #[trigger] padded_read(env.code, s.pc, k)[i] == if s.pc + i
                < env.code.len() {
                env.code[s.pc + i]
            } else {
                0u8
            },
{
}

/// DUPk pushes the `k`-th word from the top and leaves the rest in place.
pub proof fn dup_semantics(s: State, k: nat)
    requires
        1 <= k <= 16,
        s.stack.len() >= k,
        s.gas >= 3,
    ensures
        dup_step(s, k).halt is None,
        dup_step(s, k).state.stack.len() == s.stack.len() + 1,
        dup_step(s, k).state.stack.last() == s.stack[s.stack.len() - k],
        dup_step(s, k).state.stack.drop_last() == s.stack,
{
    assert(dup_step(s, k).state.stack.drop_last() =~= s.stack);
}

/// SWAPk exchanges the top word and the one `k` places below it, and only those.
pub proof fn swap_semantics(s: State, k: nat)
    requires
        1 <= k <= 16,
        s.stack.len() >= k + 1,
        s.gas >= 3,
    ensures
        swap_step(s, k).halt is None,
        swap_step(s, k).state.stack.len() == s.stack.len(),
        swap_step(s, k).state.stack[s.stack.len() - 1] == s.stack[s.stack.len() - 1 - k],
        swap_step(s, k).state.stack[s.stack.len() - 1 - k] == s.stack[s.stack.len() - 1],
        forall|i: int|
            0 <= i < s.stack.len() && i != s.stack.len() - 1 && i != s.stack.len() - 1 - k
                ==> #[trigger] swap_step(s, k).state.stack[i] == s.stack[i],
{
}

/// Decoding is one chain of positions: from a start that reaches both `p`
/// and a later `d`, so does `p` reach `d`.
proof fn lemma_reaches_chain(code: Seq<u8>, i: nat, p: nat, d: nat)
    requires
        i <= p < d,
        reaches(code, i, p),
        reaches(code, i, d),
    ensures
        reaches(code, p, d),
    decreases p - i,
{
    if i < p {
        let n = i + 1 + immediate_len(code[i as int]);
        lemma_reaches_chain(code, n, p, d);
    }
}

/// A jump to anything but a JUMPDEST instruction fails with
/// `InvalidJumpDestination`; so does a jump into the immediate data of a
/// PUSH, whatever byte stands there.
pub proof fn jump_validation(env: ContextModel, s: State, p: nat)
    requires
        s.stack.len() >= 1,
        s.gas >= 8,
    ensures
        !valid_jumpdest(env.code, top(s, 0)) ==> jump_step(env, s) == fail(
            s,
            Fault::InvalidJumpDestination,
        ),
        reaches(env.code, 0, p) && p < env.code.len() && p < top(s, 0) <= p + immediate_len(
            env.code[p as int],
        ) ==> jump_step(env, s) == fail(s, Fault::InvalidJumpDestination),
{
    let d = top(s, 0);
    if reaches(env.code, 0, p) && p < env.code.len() && p < d <= p + immediate_len(
        env.code[p as int],
    ) && reaches(env.code, 0, d) {
        lemma_reaches_chain(env.code, 0, p, d);
    }
}

} // verus!
