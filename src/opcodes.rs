//! The names of the opcodes, for traces and disassembly listings.

use vstd::prelude::*;

verus! {

/// The mnemonic of an opcode; bytes that name no instruction are "INVALID".
pub open spec fn mnemonic_of(op: u8) -> Seq<char> {
    match op {
        0x00u8 => "STOP"@,
        0x01u8 => "ADD"@,
        0x02u8 => "MUL"@,
        0x03u8 => "SUB"@,
        0x04u8 => "DIV"@,
        0x05u8 => "SDIV"@,
        0x06u8 => "MOD"@,
        0x07u8 => "SMOD"@,
        0x08u8 => "ADDMOD"@,
        0x09u8 => "MULMOD"@,
        0x0au8 => "EXP"@,
        0x0bu8 => "SIGNEXTEND"@,
        0x10u8 => "LT"@,
        0x11u8 => "GT"@,
        0x12u8 => "SLT"@,
        0x13u8 => "SGT"@,
        0x14u8 => "EQ"@,
        0x15u8 => "ISZERO"@,
        0x16u8 => "AND"@,
        0x17u8 => "OR"@,
        0x18u8 => "XOR"@,
        0x19u8 => "NOT"@,
        0x1au8 => "BYTE"@,
        0x1bu8 => "SHL"@,
        0x1cu8 => "SHR"@,
        0x1du8 => "SAR"@,
        0x20u8 => "SHA3"@,
        0x30u8 => "ADDRESS"@,
        0x31u8 => "BALANCE"@,
        0x32u8 => "ORIGIN"@,
        0x33u8 => "CALLER"@,
        0x34u8 => "CALLVALUE"@,
        0x35u8 => "CALLDATALOAD"@,
        0x36u8 => "CALLDATASIZE"@,
        0x37u8 => "CALLDATACOPY"@,
        0x38u8 => "CODESIZE"@,
        0x39u8 => "CODECOPY"@,
        0x3au8 => "GASPRICE"@,
        0x3bu8 => "EXTCODESIZE"@,
        0x3cu8 => "EXTCODECOPY"@,
        0x3du8 => "RETURNDATASIZE"@,
        0x3eu8 => "RETURNDATACOPY"@,
        0x3fu8 => "EXTCODEHASH"@,
        0x40u8 => "BLOCKHASH"@,
        0x41u8 => "COINBASE"@,
        0x42u8 => "TIMESTAMP"@,
        0x43u8 => "NUMBER"@,
        0x44u8 => "DIFFICULTY"@,
        0x45u8 => "GASLIMIT"@,
        0x50u8 => "POP"@,
        0x51u8 => "MLOAD"@,
        0x52u8 => "MSTORE"@,
        0x53u8 => "MSTORE8"@,
        0x54u8 => "SLOAD"@,
        0x55u8 => "SSTORE"@,
        0x56u8 => "JUMP"@,
        0x57u8 => "JUMPI"@,
        0x58u8 => "PC"@,
        0x59u8 => "MSIZE"@,
        0x5au8 => "GAS"@,
        0x5bu8 => "JUMPDEST"@,
        0x60u8 => "PUSH1"@,
        0x61u8 => "PUSH2"@,
        0x62u8 => "PUSH3"@,
        0x63u8 => "PUSH4"@,
        0x64u8 => "PUSH5"@,
        0x65u8 => "PUSH6"@,
        0x66u8 => "PUSH7"@,
        0x67u8 => "PUSH8"@,
        0x68u8 => "PUSH9"@,
        0x69u8 => "PUSH10"@,
        0x6au8 => "PUSH11"@,
        0x6bu8 => "PUSH12"@,
        0x6cu8 => "PUSH13"@,
        0x6du8 => "PUSH14"@,
        0x6eu8 => "PUSH15"@,
        0x6fu8 => "PUSH16"@,
        0x70u8 => "PUSH17"@,
        0x71u8 => "PUSH18"@,
        0x72u8 => "PUSH19"@,
        0x73u8 => "PUSH20"@,
        0x74u8 => "PUSH21"@,
        0x75u8 => "PUSH22"@,
        0x76u8 => "PUSH23"@,
        0x77u8 => "PUSH24"@,
        0x78u8 => "PUSH25"@,
        0x79u8 => "PUSH26"@,
        0x7au8 => "PUSH27"@,
        0x7bu8 => "PUSH28"@,
        0x7cu8 => "PUSH29"@,
        0x7du8 => "PUSH30"@,
        0x7eu8 => "PUSH31"@,
        0x7fu8 => "PUSH32"@,
        0x80u8 => "DUP1"@,
        0x81u8 => "DUP2"@,
        0x82u8 => "DUP3"@,
        0x83u8 => "DUP4"@,
        0x84u8 => "DUP5"@,
        0x85u8 => "DUP6"@,
        0x86u8 => "DUP7"@,
        0x87u8 => "DUP8"@,
        0x88u8 => "DUP9"@,
        0x89u8 => "DUP10"@,
        0x8au8 => "DUP11"@,
        0x8bu8 => "DUP12"@,
        0x8cu8 => "DUP13"@,
        0x8du8 => "DUP14"@,
        0x8eu8 => "DUP15"@,
        0x8fu8 => "DUP16"@,
        0x90u8 => "SWAP1"@,
        0x91u8 => "SWAP2"@,
        0x92u8 => "SWAP3"@,
        0x93u8 => "SWAP4"@,
        0x94u8 => "SWAP5"@,
        0x95u8 => "SWAP6"@,
        0x96u8 => "SWAP7"@,
        0x97u8 => "SWAP8"@,
        0x98u8 => "SWAP9"@,
        0x99u8 => "SWAP10"@,
        0x9au8 => "SWAP11"@,
        0x9bu8 => "SWAP12"@,
        0x9cu8 => "SWAP13"@,
        0x9du8 => "SWAP14"@,
        0x9eu8 => "SWAP15"@,
        0x9fu8 => "SWAP16"@,
        0xa0u8 => "LOG0"@,
        0xa1u8 => "LOG1"@,
        0xa2u8 => "LOG2"@,
        0xa3u8 => "LOG3"@,
        0xa4u8 => "LOG4"@,
        0xf0u8 => "CREATE"@,
        0xf1u8 => "CALL"@,
        0xf2u8 => "CALLCODE"@,
        0xf3u8 => "RETURN"@,
        0xf4u8 => "DELEGATECALL"@,
        0xf5u8 => "CREATE2"@,
        0xfau8 => "STATICCALL"@,
        0xfdu8 => "REVERT"@,
        0xffu8 => "SELFDESTRUCT"@,
        _ => "INVALID"@,
    }
}

/// The mnemonic of an opcode.
pub fn mnemonic(op: u8) -> (r: &'static str)
    ensures
        r@ == mnemonic_of(op),
{
    match op {
        0x00u8 => "STOP",
        0x01u8 => "ADD",
        0x02u8 => "MUL",
        0x03u8 => "SUB",
        0x04u8 => "DIV",
        0x05u8 => "SDIV",
        0x06u8 => "MOD",
        0x07u8 => "SMOD",
        0x08u8 => "ADDMOD",
        0x09u8 => "MULMOD",
        0x0au8 => "EXP",
        0x0bu8 => "SIGNEXTEND",
        0x10u8 => "LT",
        0x11u8 => "GT",
        0x12u8 => "SLT",
        0x13u8 => "SGT",
        0x14u8 => "EQ",
        0x15u8 => "ISZERO",
        0x16u8 => "AND",
        0x17u8 => "OR",
        0x18u8 => "XOR",
        0x19u8 => "NOT",
        0x1au8 => "BYTE",
        0x1bu8 => "SHL",
        0x1cu8 => "SHR",
        0x1du8 => "SAR",
        0x20u8 => "SHA3",
        0x30u8 => "ADDRESS",
        0x31u8 => "BALANCE",
        0x32u8 => "ORIGIN",
        0x33u8 => "CALLER",
        0x34u8 => "CALLVALUE",
        0x35u8 => "CALLDATALOAD",
        0x36u8 => "CALLDATASIZE",
        0x37u8 => "CALLDATACOPY",
        0x38u8 => "CODESIZE",
        0x39u8 => "CODECOPY",
        0x3au8 => "GASPRICE",
        0x3bu8 => "EXTCODESIZE",
        0x3cu8 => "EXTCODECOPY",
        0x3du8 => "RETURNDATASIZE",
        0x3eu8 => "RETURNDATACOPY",
        0x3fu8 => "EXTCODEHASH",
        0x40u8 => "BLOCKHASH",
        0x41u8 => "COINBASE",
        0x42u8 => "TIMESTAMP",
        0x43u8 => "NUMBER",
        0x44u8 => "DIFFICULTY",
        0x45u8 => "GASLIMIT",
        0x50u8 => "POP",
        0x51u8 => "MLOAD",
        0x52u8 => "MSTORE",
        0x53u8 => "MSTORE8",
        0x54u8 => "SLOAD",
        0x55u8 => "SSTORE",
        0x56u8 => "JUMP",
        0x57u8 => "JUMPI",
        0x58u8 => "PC",
        0x59u8 => "MSIZE",
        0x5au8 => "GAS",
        0x5bu8 => "JUMPDEST",
        0x60u8 => "PUSH1",
        0x61u8 => "PUSH2",
        0x62u8 => "PUSH3",
        0x63u8 => "PUSH4",
        0x64u8 => "PUSH5",
        0x65u8 => "PUSH6",
        0x66u8 => "PUSH7",
        0x67u8 => "PUSH8",
        0x68u8 => "PUSH9",
        0x69u8 => "PUSH10",
        0x6au8 => "PUSH11",
        0x6bu8 => "PUSH12",
        0x6cu8 => "PUSH13",
        0x6du8 => "PUSH14",
        0x6eu8 => "PUSH15",
        0x6fu8 => "PUSH16",
        0x70u8 => "PUSH17",
        0x71u8 => "PUSH18",
        0x72u8 => "PUSH19",
        0x73u8 => "PUSH20",
        0x74u8 => "PUSH21",
        0x75u8 => "PUSH22",
        0x76u8 => "PUSH23",
        0x77u8 => "PUSH24",
        0x78u8 => "PUSH25",
        0x79u8 => "PUSH26",
        0x7au8 => "PUSH27",
        0x7bu8 => "PUSH28",
        0x7cu8 => "PUSH29",
        0x7du8 => "PUSH30",
        0x7eu8 => "PUSH31",
        0x7fu8 => "PUSH32",
        0x80u8 => "DUP1",
        0x81u8 => "DUP2",
        0x82u8 => "DUP3",
        0x83u8 => "DUP4",
        0x84u8 => "DUP5",
        0x85u8 => "DUP6",
        0x86u8 => "DUP7",
        0x87u8 => "DUP8",
        0x88u8 => "DUP9",
        0x89u8 => "DUP10",
        0x8au8 => "DUP11",
        0x8bu8 => "DUP12",
        0x8cu8 => "DUP13",
        0x8du8 => "DUP14",
        0x8eu8 => "DUP15",
        0x8fu8 => "DUP16",
        0x90u8 => "SWAP1",
        0x91u8 => "SWAP2",
        0x92u8 => "SWAP3",
        0x93u8 => "SWAP4",
        0x94u8 => "SWAP5",
        0x95u8 => "SWAP6",
        0x96u8 => "SWAP7",
        0x97u8 => "SWAP8",
        0x98u8 => "SWAP9",
        0x99u8 => "SWAP10",
        0x9au8 => "SWAP11",
        0x9bu8 => "SWAP12",
        0x9cu8 => "SWAP13",
        0x9du8 => "SWAP14",
        0x9eu8 => "SWAP15",
        0x9fu8 => "SWAP16",
        0xa0u8 => "LOG0",
        0xa1u8 => "LOG1",
        0xa2u8 => "LOG2",
        0xa3u8 => "LOG3",
        0xa4u8 => "LOG4",
        0xf0u8 => "CREATE",
        0xf1u8 => "CALL",
        0xf2u8 => "CALLCODE",
        0xf3u8 => "RETURN",
        0xf4u8 => "DELEGATECALL",
        0xf5u8 => "CREATE2",
        0xfau8 => "STATICCALL",
        0xfdu8 => "REVERT",
        0xffu8 => "SELFDESTRUCT",
        _ => "INVALID",
    }
}

} // verus!
