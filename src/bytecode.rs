//! Bytecode given as text: pairs of hexadecimal digits.

use vstd::prelude::*;
use vstd::string::StringSliceAdditionalSpecFns;

verus! {

/// The value of a hexadecimal digit, in either case; -1 for other bytes.
pub open spec fn hex_value(c: u8) -> int {
    if 0x30 <= c <= 0x39 {
        c - 0x30
    } else if 0x61 <= c <= 0x66 {
        c - 0x61 + 10
    } else if 0x41 <= c <= 0x46 {
        c - 0x41 + 10
    } else {
        -1
    }
}

/// Whether text is an even number of hexadecimal digits.
pub open spec fn is_hex(s: Seq<u8>) -> bool {
    s.len() % 2 == 0 && forall|i: int| 0 <= i < s.len() ==> hex_value(#[trigger] s[i]) >= 0
}

/// The bytes that pairs of hexadecimal digits spell, high digit first.
pub open spec fn hex_bytes(s: Seq<u8>) -> Seq<u8> {
    Seq::new(s.len() / 2, |i: int| (16 * hex_value(s[2 * i]) + hex_value(s[2 * i + 1])) as u8)
}

fn digit(c: u8) -> (r: Option<u8>)
    ensures
        r is Some <==> hex_value(c) >= 0,
        r matches Some(v) ==> v as int == hex_value(c),
{
    if 0x30 <= c && c <= 0x39 {
        Some(c - 0x30)
    } else if 0x61 <= c && c <= 0x66 {
        Some(c - 0x61 + 10)
    } else if 0x41 <= c && c <= 0x46 {
        Some(c - 0x41 + 10)
    } else {
        None
    }
}

/// Decodes hexadecimal text into bytes; `None` when it is not an even
/// number of hexadecimal digits.
pub fn decode_hex(text: &str) -> (r: Option<Vec<u8>>)
    ensures
        r is Some <==> is_hex(text.spec_bytes()),
        r matches Some(b) ==> b@ == hex_bytes(text.spec_bytes()),
{
    let s = text.as_bytes();
    if s.len() % 2 != 0 {
        return None;
    }
    let mut out: Vec<u8> = Vec::new();
    let mut i: usize = 0;
    while i < s.len() / 2
        invariant
            s@ == text.spec_bytes(),
            s@.len() % 2 == 0,
            i <= s@.len() / 2,
            forall|j: int| 0 <= j < 2 * i ==> hex_value(#[trigger] s@[j]) >= 0,
            out@ =~= hex_bytes(s@).subrange(0, i as int),
        decreases s@.len() / 2 - i,
    {
        let hi = digit(s[2 * i]);
        let lo = digit(s[2 * i + 1]);
        match (hi, lo) {
            (Some(h), Some(l)) => {
                out.push(16 * h + l);
                i = i + 1;
                assert(out@ =~= hex_bytes(s@).subrange(0, i as int));
            },
            _ => {
                return None;
            },
        }
    }
    assert(out@ =~= hex_bytes(s@));
    Some(out)
}

} // verus!
