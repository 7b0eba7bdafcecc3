//! The data of one invocation: who runs, who calls, what it pays, what runs.

use crate::word::{be_value, word_from_be, Word};
use vstd::prelude::*;

verus! {

/// A 160-bit account address, as 20 big-endian bytes.
#[derive(Clone, Copy, Debug, PartialEq, Eq, Default)]
pub struct Address {
    pub bytes: [u8; 20],
}

impl Address {
    /// The address whose bytes are all zero.
    pub fn zero() -> (r: Address)
        ensures
            r.bytes@ == Seq::new(20, |i: int| 0u8),
    {
        let r = Address { bytes: [0u8; 20] };
        assert(r.bytes@ =~= Seq::new(20, |i: int| 0u8));
        r
    }

    /// The address as a word: its bytes read big-endian.
    pub fn to_word(&self) -> (r: Word)
        ensures
            r@ == be_value(self.bytes@),
    {
        word_from_be(self.bytes.as_slice())
    }
}

/// What the engine reads of an invocation.
pub struct ContextModel {
    pub supervisor: Seq<u8>,
    pub sender: Seq<u8>,
    pub gas_cost: nat,
    pub value: nat,
    pub code: Seq<u8>,
    pub input: Seq<u8>,
}

/// The call context: the executing contract, its caller, the price of a unit
/// of gas, the value sent with the call, the bytecode and the call data.
pub struct Environment {
    gas_cost: usize,
    value: usize,
    code: Vec<u8>,
    input: Vec<u8>,
    code_supervisor: Address,
    sender: Address,
}

impl View for Environment {
    type V = ContextModel;

    closed spec fn view(&self) -> ContextModel {
        ContextModel {
            supervisor: self.code_supervisor.bytes@,
            sender: self.sender.bytes@,
            gas_cost: self.gas_cost as nat,
            value: self.value as nat,
            code: self.code@,
            input: self.input@,
        }
    }
}

impl Environment {
    /// A context with empty code and input. A zero gas price is refused: the
    /// initial gas is the value divided by it.
    pub fn new(code_supervisor: Address, sender: Address, gas_cost: usize, value: usize) -> (r: Self)
        requires
            gas_cost > 0,
        ensures
            r@ == (ContextModel {
                supervisor: code_supervisor.bytes@,
                sender: sender.bytes@,
                gas_cost: gas_cost as nat,
                value: value as nat,
                code: Seq::empty(),
                input: Seq::empty(),
            }),
    {
        Self { code_supervisor, sender, gas_cost, value, code: Vec::new(), input: Vec::new() }
    }

    /// Attaches the bytecode to run.
    pub fn set_code(&mut self, code: Vec<u8>)
        ensures
            final(self)@ == (ContextModel { code: code@, ..old(self)@ }),
    {
        self.code = code;
    }

    /// Attaches the call data.
    pub fn set_input(&mut self, input: Vec<u8>)
        ensures
            final(self)@ == (ContextModel { input: input@, ..old(self)@ }),
    {
        self.input = input;
    }

    /// The price of one unit of gas; never zero.
    pub fn gas_cost(&self) -> (r: usize)
        ensures
            r as nat == self@.gas_cost,
    {
        self.gas_cost
    }

    /// The value sent with the call.
    pub fn value(&self) -> (r: usize)
        ensures
            r as nat == self@.value,
    {
        self.value
    }

    /// The bytecode.
    pub fn code(&self) -> (r: &Vec<u8>)
        ensures
            r@ == self@.code,
    {
        &self.code
    }

    /// The call data.
    pub fn input(&self) -> (r: &Vec<u8>)
        ensures
            r@ == self@.input,
    {
        &self.input
    }

    /// The executing contract.
    pub fn code_supervisor(&self) -> (r: Address)
        ensures
            r.bytes@ == self@.supervisor,
    {
        self.code_supervisor
    }

    /// The caller.
    pub fn sender(&self) -> (r: Address)
        ensures
            r.bytes@ == self@.sender,
    {
        self.sender
    }
}

} // verus!
