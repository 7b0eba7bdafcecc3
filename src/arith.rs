//! The arithmetic, comparison and bitwise instructions on words, built on
//! the `U256` operations of `word` and proved against their definitions.

use crate::semantics::{binary_value, is_binary};
use crate::word::{
    addmod_w, and_w, lemma_limbs_of_value, lemma_pow2_below_modulus, lemma_word_bound, magnitude,
    mulmod_w, or_w, sar_w, sdiv_w, signed, signextend_w, smod_w, word_add, word_and, word_byte,
    word_div, word_lt, word_modulus, word_mul, word_not, word_or, word_pow, word_rem, word_shl,
    word_shr, word_sub, word_xor, xor_w, Word,
};
use vstd::arithmetic::power::pow;
use vstd::prelude::*;

verus! {

/// Bitwise and, proved limb by limb.
fn bit_and(a: Word, b: Word) -> (r: Word)
    ensures
        r@ == and_w(a@, b@),
{
    proof {
        lemma_limbs_of_value(a);
        lemma_limbs_of_value(b);
    }
    word_and(a, b)
}

/// Bitwise or, proved limb by limb.
fn bit_or(a: Word, b: Word) -> (r: Word)
    ensures
        r@ == or_w(a@, b@),
{
    proof {
        lemma_limbs_of_value(a);
        lemma_limbs_of_value(b);
    }
    word_or(a, b)
}

/// Bitwise exclusive or, proved limb by limb.
fn bit_xor(a: Word, b: Word) -> (r: Word)
    ensures
        r@ == xor_w(a@, b@),
{
    proof {
        lemma_limbs_of_value(a);
        lemma_limbs_of_value(b);
    }
    word_xor(a, b)
}

/// Two's complement negation.
fn negate(x: Word) -> (r: Word)
    ensures
        r@ == crate::word::sub_w(0, x@),
{
    word_sub(Word::from_u64(0), x)
}

/// The absolute value of a word read as two's complement.
fn magnitude_of(x: Word) -> (r: Word)
    ensures
        r@ == magnitude(x@),
{
    proof {
        lemma_word_bound(x);
    }
    if x.is_negative() {
        proof {
            let m = crate::word::word_modulus();
            assert(m / 2 > 0);
            vstd::arithmetic::div_mod::lemma_small_mod((m - x@) as nat, m);
        }
        negate(x)
    } else {
        x
    }
}

/// Whether `a < b` read as two's complement integers.
fn signed_less(a: Word, b: Word) -> (r: bool)
    ensures
        r == (signed(a@) < signed(b@)),
{
    proof {
        lemma_word_bound(a);
        lemma_word_bound(b);
    }
    let na = a.is_negative();
    let nb = b.is_negative();
    if na != nb {
        na
    } else {
        word_lt(a, b)
    }
}

/// Signed division, rounded toward zero; division by zero gives zero.
fn signed_div(a: Word, b: Word) -> (r: Word)
    ensures
        r@ == sdiv_w(a@, b@),
{
    if b.is_zero() {
        return Word::from_u64(0);
    }
    proof {
        lemma_word_bound(b);
    }
    let q = word_div(magnitude_of(a), magnitude_of(b));
    if a.is_negative() != b.is_negative() {
        negate(q)
    } else {
        q
    }
}

/// Signed remainder, with the sign of the dividend; a zero modulus gives zero.
fn signed_mod(a: Word, b: Word) -> (r: Word)
    ensures
        r@ == smod_w(a@, b@),
{
    if b.is_zero() {
        return Word::from_u64(0);
    }
    proof {
        lemma_word_bound(b);
    }
    let m = word_rem(magnitude_of(a), magnitude_of(b));
    if a.is_negative() {
        negate(m)
    } else {
        m
    }
}

/// `(a + b) mod n` without wrapping; a zero modulus gives zero.
pub(crate) fn add_mod(a: Word, b: Word, n: Word) -> (r: Word)
    ensures
        r@ == addmod_w(a@, b@, n@),
        n@ != 0 ==> r@ < n@,
{
    if n.is_zero() {
        return Word::from_u64(0);
    }
    proof {
        lemma_word_bound(a);
        lemma_word_bound(b);
        lemma_word_bound(n);
    }
    let x = word_rem(a, n);
    let y = word_rem(b, n);
    let s = word_add(x, y);
    let ghost m = word_modulus() as int;
    let ghost t = (x@ + y@) as int;
    proof {
        vstd::arithmetic::div_mod::lemma_add_mod_noop(a@ as int, b@ as int, n@ as int);
        if t < m {
            vstd::arithmetic::div_mod::lemma_small_mod(t as nat, m as nat);
        } else {
            vstd::arithmetic::div_mod::lemma_fundamental_div_mod_converse(t, m, 1, t - m);
        }
        if t < n@ {
            vstd::arithmetic::div_mod::lemma_small_mod(t as nat, n@);
        } else {
            vstd::arithmetic::div_mod::lemma_fundamental_div_mod_converse(t, n@ as int, 1, t - n@);
            vstd::arithmetic::div_mod::lemma_small_mod((t - n@) as nat, m as nat);
            vstd::arithmetic::div_mod::lemma_mod_add_multiples_vanish(t - n@, m);
        }
    }
    if word_lt(s, x) {
        word_sub(s, n)
    } else if word_lt(s, n) {
        s
    } else {
        word_sub(s, n)
    }
}

/// `(a * b) mod n` without wrapping, by doubling and adding modulo `n`; a
/// zero modulus gives zero.
pub(crate) fn mul_mod(a: Word, b: Word, n: Word) -> (r: Word)
    ensures
        r@ == mulmod_w(a@, b@, n@),
{
    if n.is_zero() {
        return Word::from_u64(0);
    }
    let two = Word::from_u64(2);
    let mut r = Word::from_u64(0);
    let mut x = word_rem(a, n);
    let mut y = b;
    proof {
        vstd::arithmetic::div_mod::lemma_mul_mod_noop_left(a@ as int, b@ as int, n@ as int);
    }
    while !y.is_zero()
        invariant
            n@ > 0,
            two@ == 2,
            r@ < n@,
            x@ < n@,
            ((r@ + x@ * y@) as int) % (n@ as int) == ((a@ * b@) as int) % (n@ as int),
        decreases y@,
    {
        let bit = word_rem(y, two);
        let half = word_div(y, two);
        let ghost (r0, x0, y0) = (r@ as int, x@ as int, y@ as int);
        let ghost nn = n@ as int;
        if !bit.is_zero() {
            r = add_mod(r, x, n);
        }
        x = add_mod(x, x, n);
        y = half;
        proof {
            let t = y0 % 2;
            let q = y0 / 2;
            let aa = r0 + t * x0;
            assert(r@ == aa % nn) by {
                if t == 0 {
                    assert(t * x0 == 0) by (nonlinear_arith)
                        requires t == 0;
                    vstd::arithmetic::div_mod::lemma_small_mod(r0 as nat, nn as nat);
                } else {
                    assert(t == 1);
                    assert(t * x0 == x0) by (nonlinear_arith)
                        requires t == 1;
                }
            }
            assert(x@ == (2 * x0) % nn);
            vstd::arithmetic::div_mod::lemma_mul_mod_noop_left(2 * x0, q, nn);
            vstd::arithmetic::div_mod::lemma_small_mod(r@, nn as nat);
            vstd::arithmetic::div_mod::lemma_add_mod_noop(r@ as int, x@ * q, nn);
            vstd::arithmetic::div_mod::lemma_mod_twice(2 * x0 * q, nn);
            vstd::arithmetic::div_mod::lemma_add_mod_noop_right(r@ as int, 2 * x0 * q, nn);
            vstd::arithmetic::div_mod::lemma_add_mod_noop_right(2 * x0 * q, aa, nn);
            assert(aa + 2 * x0 * q == r0 + x0 * y0) by (nonlinear_arith)
                requires aa == r0 + t * x0, y0 == 2 * q + t;
            assert((2 * x0) * q == 2 * x0 * q) by (nonlinear_arith);
        }
    }
    proof {
        let (xv, yv) = (x@, y@);
        assert(xv * yv == 0) by (nonlinear_arith)
            requires yv == 0;
        vstd::arithmetic::div_mod::lemma_small_mod(r@, n@);
    }
    r
}

/// Arithmetic shift right: ones come in from the left for a negative word.
fn shift_arithmetic(shift: Word, x: Word) -> (r: Word)
    ensures
        r@ == sar_w(shift@, x@),
{
    proof {
        lemma_word_bound(x);
    }
    let negative = x.is_negative();
    match shift.to_bounded(255) {
        Some(s) => {
            let ghost m = word_modulus() as int;
            proof {
                lemma_pow2_below_modulus(s as nat);
            }
            let ghost d = pow(2, s as nat);
            if negative {
                let ghost y = m - 1 - x@;
                let ghost q = y / d;
                proof {
                    vstd::arithmetic::div_mod::lemma_fundamental_div_mod(y, d);
                    vstd::arithmetic::div_mod::lemma_div_pos_is_pos(y, d);
                    vstd::arithmetic::div_mod::lemma_div_is_ordered_by_denominator(y, 1, d);
                    let r = y % d;
                    let xv = x@ as int;
                    assert(xv - m == (-q - 1) * d + (d - 1 - r)) by (nonlinear_arith)
                        requires y == d * q + r, y == m - 1 - xv;
                    vstd::arithmetic::div_mod::lemma_fundamental_div_mod_converse(
                        x@ - m,
                        d,
                        -q - 1,
                        d - 1 - y % d,
                    );
                    vstd::arithmetic::div_mod::lemma_fundamental_div_mod_converse(-q - 1, m, -1, m - 1 - q);
                }
                word_not(word_shr(word_not(x), s))
            } else {
                proof {
                    vstd::arithmetic::div_mod::lemma_div_is_ordered_by_denominator(x@ as int, 1, d);
                    vstd::arithmetic::div_mod::lemma_div_pos_is_pos(x@ as int, d);
                    vstd::arithmetic::div_mod::lemma_small_mod((x@ as int / d) as nat, m as nat);
                }
                word_shr(x, s)
            }
        },
        None => {
            if negative {
                word_not(Word::from_u64(0))
            } else {
                Word::from_u64(0)
            }
        },
    }
}

/// Sign extension from the low `b + 1` bytes.
fn sign_extend(b: Word, x: Word) -> (r: Word)
    ensures
        r@ == signextend_w(b@, x@),
{
    match b.to_bounded(30) {
        None => x,
        Some(i) => {
            let k = 8 * (i + 1);
            let one = Word::from_u64(1);
            proof {
                lemma_pow2_below_modulus(k as nat);
                lemma_pow2_below_modulus((k - 1) as nat);
                vstd::arithmetic::power::lemma_pow_adds(2, (k - 1) as nat, 1);
                vstd::arithmetic::power2::lemma2_to64();
                vstd::arithmetic::power2::lemma_pow2(1);
                vstd::arithmetic::div_mod::lemma_small_mod(pow(2, k as nat) as nat, word_modulus());
                vstd::arithmetic::div_mod::lemma_small_mod(pow(2, (k - 1) as nat) as nat, word_modulus());
            }
            let p = word_shl(one, k);
            let h = word_shl(one, k - 1);
            let low = word_rem(x, p);
            if word_lt(low, h) {
                low
            } else {
                proof {
                    let m = word_modulus() as int;
                    vstd::arithmetic::div_mod::lemma_small_mod((m - p@) as nat, m as nat);
                    vstd::arithmetic::div_mod::lemma_small_mod((m - p@ + low@) as nat, m as nat);
                }
                word_add(negate(p), low)
            }
        },
    }
}

pub(crate) fn truth(b: bool) -> (r: Word)
    ensures
        r@ == crate::word::bool_w(b),
{
    Word::from_u64(if b { 1 } else { 0 })
}

/// The result of a two-operand instruction on the top `a` and the next `b`.
pub fn compute_binary(op: u8, a: Word, b: Word) -> (r: Word)
    requires
        is_binary(op),
    ensures
        r@ == binary_value(op, a@, b@),
{
    if op == 0x01 {
        word_add(a, b)
    } else if op == 0x02 {
        word_mul(a, b)
    } else if op == 0x03 {
        word_sub(a, b)
    } else if op == 0x04 {
        if b.is_zero() { Word::from_u64(0) } else { word_div(a, b) }
    } else if op == 0x05 {
        signed_div(a, b)
    } else if op == 0x06 {
        if b.is_zero() { Word::from_u64(0) } else { word_rem(a, b) }
    } else if op == 0x07 {
        signed_mod(a, b)
    } else if op == 0x0a {
        word_pow(a, b)
    } else if op == 0x0b {
        sign_extend(a, b)
    } else if op == 0x10 {
        truth(word_lt(a, b))
    } else if op == 0x11 {
        truth(word_lt(b, a))
    } else if op == 0x12 {
        truth(signed_less(a, b))
    } else if op == 0x13 {
        truth(signed_less(b, a))
    } else if op == 0x14 {
        truth(a.same_value(&b))
    } else if op == 0x16 {
        bit_and(a, b)
    } else if op == 0x17 {
        bit_or(a, b)
    } else if op == 0x18 {
        bit_xor(a, b)
    } else if op == 0x1a {
        match a.to_bounded(31) {
            Some(i) => Word::from_u64(word_byte(b, 31 - i) as u64),
            None => Word::from_u64(0),
        }
    } else if op == 0x1b {
        match a.to_bounded(255) {
            Some(shift) => word_shl(b, shift),
            None => Word::from_u64(0),
        }
    } else if op == 0x1c {
        match a.to_bounded(255) {
            Some(shift) => word_shr(b, shift),
            None => Word::from_u64(0),
        }
    } else {
        shift_arithmetic(a, b)
    }
}

} // verus!
