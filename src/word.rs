//! 256-bit machine words, their value as a natural number, and the arithmetic
//! of the instruction set, computed by `ethereum_types::U256`.

use vstd::arithmetic::power::pow;
use vstd::prelude::*;

verus! {

/// 2^64, the weight of the second limb.
pub open spec fn limb_base() -> nat {
    18446744073709551616
}

/// 2^256: words are taken modulo this number.
pub open spec fn word_modulus() -> nat {
    limb_base() * limb_base() * limb_base() * limb_base()
}

/// The value of four little-endian 64-bit limbs.
pub open spec fn limbs_value(l0: u64, l1: u64, l2: u64, l3: u64) -> nat {
    l0 as nat + limb_base() * (l1 as nat + limb_base() * (l2 as nat + limb_base() * (l3 as nat)))
}

/// The `i`-th 64-bit limb (little-endian) of a natural number.
pub open spec fn limb_of(n: nat, i: nat) -> u64 {
    ((n / pow(limb_base() as int, i) as nat) % limb_base()) as u64
}

/// A 256-bit unsigned word, held as four little-endian 64-bit limbs, the
/// layout of `ethereum_types::U256`.
#[derive(Clone, Copy, Debug, PartialEq, Eq)]
pub struct Word {
    pub limbs: [u64; 4],
}

impl View for Word {
    type V = nat;

    open spec fn view(&self) -> nat {
        limbs_value(self.limbs@[0], self.limbs@[1], self.limbs@[2], self.limbs@[3])
    }
}

/// Wrapping addition.
pub open spec fn add_w(a: nat, b: nat) -> nat {
    (a + b) % word_modulus()
}

/// Wrapping subtraction.
pub open spec fn sub_w(a: nat, b: nat) -> nat {
    ((a + word_modulus() - b) % (word_modulus() as int)) as nat
}

/// Wrapping multiplication.
pub open spec fn mul_w(a: nat, b: nat) -> nat {
    (a * b) % word_modulus()
}

/// Unsigned division; division by zero gives zero.
pub open spec fn div_w(a: nat, b: nat) -> nat {
    if b == 0 { 0 } else { a / b }
}

/// Unsigned remainder; a zero modulus gives zero.
pub open spec fn mod_w(a: nat, b: nat) -> nat {
    if b == 0 { 0 } else { a % b }
}

/// `(a + b) mod n`, computed without wrapping; a zero modulus gives zero.
pub open spec fn addmod_w(a: nat, b: nat, n: nat) -> nat {
    if n == 0 { 0 } else { (a + b) % n }
}

/// `(a * b) mod n`, computed without wrapping; a zero modulus gives zero.
pub open spec fn mulmod_w(a: nat, b: nat, n: nat) -> nat {
    if n == 0 { 0 } else { (a * b) % n }
}

/// Wrapping exponentiation.
pub open spec fn exp_w(a: nat, b: nat) -> nat {
    (pow(a as int, b) % (word_modulus() as int)) as nat
}

/// A truth value as a word.
pub open spec fn bool_w(b: bool) -> nat {
    if b { 1 } else { 0 }
}

/// Bitwise complement.
pub open spec fn not_w(a: nat) -> nat {
    (word_modulus() - 1 - a) as nat
}

/// Bitwise and, limb by limb.
pub open spec fn and_w(a: nat, b: nat) -> nat {
    limbs_value(
        limb_of(a, 0) & limb_of(b, 0),
        limb_of(a, 1) & limb_of(b, 1),
        limb_of(a, 2) & limb_of(b, 2),
        limb_of(a, 3) & limb_of(b, 3),
    )
}

/// Bitwise or, limb by limb.
pub open spec fn or_w(a: nat, b: nat) -> nat {
    limbs_value(
        limb_of(a, 0) | limb_of(b, 0),
        limb_of(a, 1) | limb_of(b, 1),
        limb_of(a, 2) | limb_of(b, 2),
        limb_of(a, 3) | limb_of(b, 3),
    )
}

/// Bitwise exclusive or, limb by limb.
pub open spec fn xor_w(a: nat, b: nat) -> nat {
    limbs_value(
        limb_of(a, 0) ^ limb_of(b, 0),
        limb_of(a, 1) ^ limb_of(b, 1),
        limb_of(a, 2) ^ limb_of(b, 2),
        limb_of(a, 3) ^ limb_of(b, 3),
    )
}

/// Shift left by `shift` bits, dropping what passes bit 255.
pub open spec fn shl_w(shift: nat, v: nat) -> nat {
    if shift < 256 {
        ((v * pow(2, shift)) % (word_modulus() as int)) as nat
    } else {
        0
    }
}

/// Logical shift right by `shift` bits.
pub open spec fn shr_w(shift: nat, v: nat) -> nat {
    if shift < 256 {
        (v as int / pow(2, shift)) as nat
    } else {
        0
    }
}

/// Arithmetic shift right: the two's complement value divided by 2^shift,
/// rounded down.
pub open spec fn sar_w(shift: nat, x: nat) -> nat {
    if shift < 256 {
        ((signed(x) / pow(2, shift)) % (word_modulus() as int)) as nat
    } else if is_neg(x) {
        (word_modulus() - 1) as nat
    } else {
        0
    }
}

/// Extends the sign of the low `b + 1` bytes of `x` over the whole word.
pub open spec fn signextend_w(b: nat, x: nat) -> nat {
    if b < 31 {
        let k = 8 * (b + 1);
        let low = (x % pow(2, k) as nat) as nat;
        if low >= pow(2, (k - 1) as nat) {
            (word_modulus() - pow(2, k) + low) as nat
        } else {
            low
        }
    } else {
        x
    }
}

/// 2^256 is the word modulus, and smaller powers of two lie below it.
pub proof fn lemma_pow2_below_modulus(k: nat)
    requires
        k < 256,
    ensures
        0 < pow(2, k) < word_modulus(),
        pow(2, 256) == word_modulus(),
{
    vstd::arithmetic::power2::lemma2_to64();
    vstd::arithmetic::power2::lemma_pow2(64);
    vstd::arithmetic::power::lemma_pow_adds(2, 64, 64);
    vstd::arithmetic::power::lemma_pow_adds(2, 128, 64);
    vstd::arithmetic::power::lemma_pow_adds(2, 192, 64);
    vstd::arithmetic::power::lemma_pow_strictly_increases(2, k, 256);
    vstd::arithmetic::power::lemma_pow_positive(2, k);
}

/// Whether a word is negative read as two's complement: its top bit is set.
pub open spec fn is_neg(x: nat) -> bool {
    x >= word_modulus() / 2
}

/// A word read as a two's complement integer.
pub open spec fn signed(x: nat) -> int {
    if is_neg(x) {
        x - word_modulus()
    } else {
        x as int
    }
}

/// The absolute value of a word read as two's complement.
pub open spec fn magnitude(x: nat) -> nat {
    if is_neg(x) {
        (word_modulus() - x) as nat
    } else {
        x
    }
}

/// Signed division, rounded toward zero; division by zero gives zero.
pub open spec fn sdiv_w(a: nat, b: nat) -> nat {
    if b == 0 {
        0
    } else if is_neg(a) != is_neg(b) {
        sub_w(0, magnitude(a) / magnitude(b))
    } else {
        magnitude(a) / magnitude(b)
    }
}

/// Signed remainder, with the sign of the dividend; a zero modulus gives zero.
pub open spec fn smod_w(a: nat, b: nat) -> nat {
    if b == 0 {
        0
    } else if is_neg(a) {
        sub_w(0, magnitude(a) % magnitude(b))
    } else {
        magnitude(a) % magnitude(b)
    }
}

/// The `i`-th least significant byte of `n`.
pub open spec fn byte_of(n: nat, i: nat) -> nat {
    ((n / pow(256, i) as nat) % 256) as nat
}

/// The `i`-th most significant byte of a word, or zero when `i >= 32`.
pub open spec fn byte_w(i: nat, x: nat) -> nat {
    if i < 32 { byte_of(x, (31 - i) as nat) } else { 0 }
}

/// The value of a big-endian byte string.
pub open spec fn be_value(s: Seq<u8>) -> nat
    decreases s.len(),
{
    if s.len() == 0 {
        0
    } else {
        be_value(s.drop_last()) * 256 + s.last() as nat
    }
}

/// The 32-byte big-endian encoding of a word.
pub open spec fn be_bytes(n: nat) -> Seq<u8> {
    Seq::new(32, |i: int| byte_of(n, (31 - i) as nat) as u8)
}

/// Every word's value lies below 2^256.
pub proof fn lemma_word_bound(w: Word)
    ensures
        w@ < word_modulus(),
{
    let l0 = w.limbs@[0] as nat;
    let l1 = w.limbs@[1] as nat;
    let l2 = w.limbs@[2] as nat;
    let l3 = w.limbs@[3] as nat;
    let b = limb_base();
    assert(l2 + b * l3 <= b * b - 1) by (nonlinear_arith)
        requires l2 < b, l3 < b;
    assert(l1 + b * (l2 + b * l3) <= b * b * b - 1) by (nonlinear_arith)
        requires l1 < b, l2 + b * l3 <= b * b - 1;
    assert(l0 + b * (l1 + b * (l2 + b * l3)) <= b * b * b * b - 1) by (nonlinear_arith)
        requires l0 < b, l1 + b * (l2 + b * l3) <= b * b * b - 1;
}

/// The limbs of a word are the limbs of its value.
pub proof fn lemma_limbs_of_value(w: Word)
    ensures
        limb_of(w@, 0) == w.limbs@[0],
        limb_of(w@, 1) == w.limbs@[1],
        limb_of(w@, 2) == w.limbs@[2],
        limb_of(w@, 3) == w.limbs@[3],
{
    let l0 = w.limbs@[0] as int;
    let l1 = w.limbs@[1] as int;
    let l2 = w.limbs@[2] as int;
    let l3 = w.limbs@[3] as int;
    let b = limb_base() as int;
    let x = w@ as int;
    reveal_with_fuel(pow, 4);
    assert(pow(b, 0) == 1);
    assert(pow(b, 1) == b);
    assert(pow(b, 2) == b * b);
    assert(pow(b, 3) == b * b * b);
    assert(x == (l1 + b * (l2 + b * l3)) * b + l0) by (nonlinear_arith)
        requires x == l0 + b * (l1 + b * (l2 + b * l3));
    vstd::arithmetic::div_mod::lemma_fundamental_div_mod_converse(x, 1, x, 0);
    vstd::arithmetic::div_mod::lemma_fundamental_div_mod_converse(x, b, l1 + b * (l2 + b * l3), l0);
    assert(l0 + b * l1 < b * b) by (nonlinear_arith)
        requires 0 <= l0 < b, 0 <= l1 < b;
    assert(x == (l2 + b * l3) * (b * b) + (l0 + b * l1)) by (nonlinear_arith)
        requires x == l0 + b * (l1 + b * (l2 + b * l3));
    vstd::arithmetic::div_mod::lemma_fundamental_div_mod_converse(x, b * b, l2 + b * l3, l0 + b * l1);
    assert(l0 + b * l1 + b * b * l2 < b * b * b) by (nonlinear_arith)
        requires 0 <= l0 < b, 0 <= l1 < b, 0 <= l2 < b;
    assert(x == l3 * (b * b * b) + (l0 + b * l1 + b * b * l2)) by (nonlinear_arith)
        requires x == l0 + b * (l1 + b * (l2 + b * l3));
    vstd::arithmetic::div_mod::lemma_fundamental_div_mod_converse(x, b * b * b, l3, l0 + b * l1 + b * b * l2);
    vstd::arithmetic::div_mod::lemma_fundamental_div_mod_converse(l1 + b * (l2 + b * l3), b, l2 + b * l3, l1);
    vstd::arithmetic::div_mod::lemma_fundamental_div_mod_converse(l2 + b * l3, b, l3, l2);
    vstd::arithmetic::div_mod::lemma_fundamental_div_mod_converse(l3, b, 0, l3);
    vstd::arithmetic::div_mod::lemma_fundamental_div_mod_converse(x, 1, x, 0);
}

impl Word {
    /// The word holding a 64-bit value.
    pub fn from_u64(x: u64) -> (r: Word)
        ensures
            r@ == x as nat,
    {
        let r = Word { limbs: [x, 0, 0, 0] };
        assert(r.limbs@[1] == 0 && r.limbs@[2] == 0 && r.limbs@[3] == 0);
        r
    }

    /// Whether the word is zero.
    pub fn is_zero(&self) -> (r: bool)
        ensures
            r == (self@ == 0),
    {
        self.limbs[0] == 0 && self.limbs[1] == 0 && self.limbs[2] == 0 && self.limbs[3] == 0
    }

    /// Whether two words hold the same value.
    pub fn same_value(&self, other: &Word) -> (r: bool)
        ensures
            r == (self@ == other@),
    {
        proof {
            lemma_limbs_of_value(*self);
            lemma_limbs_of_value(*other);
        }
        self.limbs[0] == other.limbs[0] && self.limbs[1] == other.limbs[1]
            && self.limbs[2] == other.limbs[2] && self.limbs[3] == other.limbs[3]
    }

    /// Whether the word is negative read as two's complement.
    pub fn is_negative(&self) -> (r: bool)
        ensures
            r == is_neg(self@),
    {
        proof {
            let b = limb_base() as int;
            let l0 = self.limbs@[0] as int;
            let l1 = self.limbs@[1] as int;
            let l2 = self.limbs@[2] as int;
            let l3 = self.limbs@[3] as int;
            assert(0 <= l0 + b * l1 + b * b * l2 < b * b * b) by (nonlinear_arith)
                requires 0 <= l0 < b, 0 <= l1 < b, 0 <= l2 < b;
            assert(self@ == (l0 + b * l1 + b * b * l2) + b * b * b * l3) by (nonlinear_arith)
                requires self@ == l0 + b * (l1 + b * (l2 + b * l3));
            assert(word_modulus() / 2 == b * b * b * 0x8000000000000000);
            if l3 >= 0x8000000000000000 {
                assert(b * b * b * l3 >= b * b * b * 0x8000000000000000) by (nonlinear_arith)
                    requires l3 >= 0x8000000000000000, b > 0;
            } else {
                assert(b * b * b * l3 <= b * b * b * 0x7fffffffffffffff) by (nonlinear_arith)
                    requires l3 <= 0x7fffffffffffffff, b > 0;
            }
        }
        self.limbs[3] >= 0x8000000000000000
    }

    /// The value as a `usize` when it is at most `bound`.
    pub fn to_bounded(&self, bound: usize) -> (r: Option<usize>)
        ensures
            r is Some <==> self@ <= bound,
            r matches Some(v) ==> v as nat == self@,
    {
        if self.limbs[1] == 0 && self.limbs[2] == 0 && self.limbs[3] == 0 && self.limbs[0] <= bound as u64 {
            Some(self.limbs[0] as usize)
        } else {
            proof {
                let b = limb_base() as int;
                let l0 = self.limbs@[0] as int;
                let l1 = self.limbs@[1] as int;
                let l2 = self.limbs@[2] as int;
                let l3 = self.limbs@[3] as int;
                if l1 != 0 || l2 != 0 || l3 != 0 {
                    assert(l1 + b * (l2 + b * l3) >= 1) by (nonlinear_arith)
                        requires l1 >= 0, l2 >= 0, l3 >= 0, b > 0, l1 != 0 || l2 != 0 || l3 != 0;
                    assert(b * (l1 + b * (l2 + b * l3)) >= b) by (nonlinear_arith)
                        requires l1 + b * (l2 + b * l3) >= 1, b > 0;
                }
            }
            None
        }
    }
}

/// Relies on `U256::overflowing_add`: the sum modulo 2^256.
#[verifier::external_body]
pub(crate) fn word_add(a: Word, b: Word) -> (r: Word)
    ensures
        r@ == add_w(a@, b@),
{
    Word { limbs: ethereum_types::U256(a.limbs).overflowing_add(ethereum_types::U256(b.limbs)).0.0 }
}

/// Relies on `U256::overflowing_sub`: the difference modulo 2^256.
#[verifier::external_body]
pub(crate) fn word_sub(a: Word, b: Word) -> (r: Word)
    ensures
        r@ == sub_w(a@, b@),
{
    Word { limbs: ethereum_types::U256(a.limbs).overflowing_sub(ethereum_types::U256(b.limbs)).0.0 }
}

/// Relies on `U256::overflowing_mul`: the product modulo 2^256.
#[verifier::external_body]
pub(crate) fn word_mul(a: Word, b: Word) -> (r: Word)
    ensures
        r@ == mul_w(a@, b@),
{
    Word { limbs: ethereum_types::U256(a.limbs).overflowing_mul(ethereum_types::U256(b.limbs)).0.0 }
}

/// Relies on `U256`'s `/`: the floor of the quotient (it panics on a zero divisor).
#[verifier::external_body]
pub(crate) fn word_div(a: Word, b: Word) -> (r: Word)
    requires
        b@ != 0,
    ensures
        r@ == a@ / b@,
{
    Word { limbs: (ethereum_types::U256(a.limbs) / ethereum_types::U256(b.limbs)).0 }
}

/// Relies on `U256`'s `%`: the remainder (it panics on a zero divisor).
#[verifier::external_body]
pub(crate) fn word_rem(a: Word, b: Word) -> (r: Word)
    requires
        b@ != 0,
    ensures
        r@ == a@ % b@,
{
    Word { limbs: (ethereum_types::U256(a.limbs) % ethereum_types::U256(b.limbs)).0 }
}

/// Relies on `U256::overflowing_pow`: the power modulo 2^256.
#[verifier::external_body]
pub(crate) fn word_pow(a: Word, b: Word) -> (r: Word)
    ensures
        r@ == exp_w(a@, b@),
{
    Word { limbs: ethereum_types::U256(a.limbs).overflowing_pow(ethereum_types::U256(b.limbs)).0.0 }
}

/// Relies on `U256`'s `<`: the order of the values.
#[verifier::external_body]
pub(crate) fn word_lt(a: Word, b: Word) -> (r: bool)
    ensures
        r == (a@ < b@),
{
    ethereum_types::U256(a.limbs) < ethereum_types::U256(b.limbs)
}

/// Relies on `U256`'s `&`: the and of each pair of limbs.
#[verifier::external_body]
pub(crate) fn word_and(a: Word, b: Word) -> (r: Word)
    ensures
        r.limbs@[0] == a.limbs@[0] & b.limbs@[0],
        r.limbs@[1] == a.limbs@[1] & b.limbs@[1],
        r.limbs@[2] == a.limbs@[2] & b.limbs@[2],
        r.limbs@[3] == a.limbs@[3] & b.limbs@[3],
{
    Word { limbs: (ethereum_types::U256(a.limbs) & ethereum_types::U256(b.limbs)).0 }
}

/// Relies on `U256`'s `|`: the or of each pair of limbs.
#[verifier::external_body]
pub(crate) fn word_or(a: Word, b: Word) -> (r: Word)
    ensures
        r.limbs@[0] == a.limbs@[0] | b.limbs@[0],
        r.limbs@[1] == a.limbs@[1] | b.limbs@[1],
        r.limbs@[2] == a.limbs@[2] | b.limbs@[2],
        r.limbs@[3] == a.limbs@[3] | b.limbs@[3],
{
    Word { limbs: (ethereum_types::U256(a.limbs) | ethereum_types::U256(b.limbs)).0 }
}

/// Relies on `U256`'s `^`: the exclusive or of each pair of limbs.
#[verifier::external_body]
pub(crate) fn word_xor(a: Word, b: Word) -> (r: Word)
    ensures
        r.limbs@[0] == a.limbs@[0] ^ b.limbs@[0],
        r.limbs@[1] == a.limbs@[1] ^ b.limbs@[1],
        r.limbs@[2] == a.limbs@[2] ^ b.limbs@[2],
        r.limbs@[3] == a.limbs@[3] ^ b.limbs@[3],
{
    Word { limbs: (ethereum_types::U256(a.limbs) ^ ethereum_types::U256(b.limbs)).0 }
}

/// Relies on `U256`'s `!`: the complement, 2^256 - 1 - a.
#[verifier::external_body]
pub(crate) fn word_not(a: Word) -> (r: Word)
    ensures
        r@ == not_w(a@),
{
    Word { limbs: (!ethereum_types::U256(a.limbs)).0 }
}

/// Relies on `U256`'s `<<` by a `usize`: the shifted value modulo 2^256
/// (the shift must fit a `usize`).
#[verifier::external_body]
pub(crate) fn word_shl(a: Word, shift: usize) -> (r: Word)
    requires
        shift < 256,
    ensures
        r@ == shl_w(shift as nat, a@),
{
    Word { limbs: (ethereum_types::U256(a.limbs) << shift).0 }
}

/// Relies on `U256`'s `>>` by a `usize`: the floor of the value over 2^shift
/// (the shift must fit a `usize`).
#[verifier::external_body]
pub(crate) fn word_shr(a: Word, shift: usize) -> (r: Word)
    requires
        shift < 256,
    ensures
        r@ == shr_w(shift as nat, a@),
{
    Word { limbs: (ethereum_types::U256(a.limbs) >> shift).0 }
}

/// Relies on `U256::byte`: the `index`-th least significant byte (it panics
/// from index 32 on).
#[verifier::external_body]
pub(crate) fn word_byte(a: Word, index: usize) -> (r: u8)
    requires
        index < 32,
    ensures
        r as nat == byte_of(a@, index as nat),
{
    ethereum_types::U256(a.limbs).byte(index)
}

/// Relies on `U256::from_big_endian`: the big-endian value of at most 32
/// bytes (it panics on more).
#[verifier::external_body]
pub(crate) fn word_from_be(bytes: &[u8]) -> (r: Word)
    requires
        bytes@.len() <= 32,
    ensures
        r@ == be_value(bytes@),
{
    Word { limbs: ethereum_types::U256::from_big_endian(bytes).0 }
}

/// Relies on `U256::to_big_endian`: the 32-byte big-endian encoding.
#[verifier::external_body]
pub(crate) fn word_to_be(a: Word) -> (r: [u8; 32])
    ensures
        r@ == be_bytes(a@),
{
    let mut bytes = [0u8; 32];
    ethereum_types::U256(a.limbs).to_big_endian(&mut bytes);
    bytes
}

} // verus!
