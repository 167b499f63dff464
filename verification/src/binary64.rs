//! Amounts such as notionals are carried through the verified core as the
//! 64-bit IEEE-754 binary64 encoding of the number. The core never does
//! arithmetic on them: it only compares them and checks their sign, which is
//! decided exactly on the encoding by the functions below.
//!
//! Where an integer goes through binary64 arithmetic, the rounding to 53
//! significant bits (ties to even) is modelled exactly on integers.

use vstd::prelude::*;
use vstd::arithmetic::div_mod::{lemma_div_denominator, lemma_fundamental_div_mod};

verus! {

/// Value of the sign bit.
pub const SIGN_BIT: u64 = 0x8000_0000_0000_0000;

/// Encoding of positive infinity; magnitudes above it are NaN payloads.
pub const POSITIVE_INFINITY: u64 = 0x7FF0_0000_0000_0000;

/// True iff the sign bit is set.
pub open spec fn spec_sign_set(b: u64) -> bool {
    b >= SIGN_BIT
}

/// The encoding with the sign bit cleared.
pub open spec fn spec_magnitude(b: u64) -> u64 {
    if spec_sign_set(b) { (b - SIGN_BIT) as u64 } else { b }
}

/// The encoded number is a NaN.
pub open spec fn spec_is_nan(b: u64) -> bool {
    spec_magnitude(b) > POSITIVE_INFINITY
}

/// The encoded number is finite (neither infinite nor NaN).
pub open spec fn spec_is_finite(b: u64) -> bool {
    spec_magnitude(b) < POSITIVE_INFINITY
}

/// The encoded number is a zero of either sign.
pub open spec fn spec_is_zero(b: u64) -> bool {
    spec_magnitude(b) == 0
}

/// Numeric equality of two encoded numbers: NaN equals nothing, and the two
/// zeros are equal.
pub open spec fn spec_num_eq(a: u64, b: u64) -> bool {
    !spec_is_nan(a) && !spec_is_nan(b) && (a == b || (spec_is_zero(a) && spec_is_zero(b)))
}

/// The encoded number compares greater than or equal to zero.
pub open spec fn spec_is_nonneg(b: u64) -> bool {
    !spec_is_nan(b) && (!spec_sign_set(b) || spec_is_zero(b))
}

/// The encoded number compares strictly greater than zero.
pub open spec fn spec_is_positive(b: u64) -> bool {
    !spec_is_nan(b) && !spec_sign_set(b) && !spec_is_zero(b)
}

/// Encoding of the number zero.
pub const ZERO: u64 = 0;

pub fn magnitude(b: u64) -> (r: u64)
    ensures
        r == spec_magnitude(b),
{
    if b >= SIGN_BIT {
        b - SIGN_BIT
    } else {
        b
    }
}

/// Is the encoded number a NaN?
pub fn is_nan(b: u64) -> (r: bool)
    ensures
        r == spec_is_nan(b),
{
    magnitude(b) > POSITIVE_INFINITY
}

/// Is the encoded number finite?
pub fn is_finite(b: u64) -> (r: bool)
    ensures
        r == spec_is_finite(b),
{
    magnitude(b) < POSITIVE_INFINITY
}

/// Numeric equality of two encoded numbers.
pub fn num_eq(a: u64, b: u64) -> (r: bool)
    ensures
        r == spec_num_eq(a, b),
{
    let ma = magnitude(a);
    let mb = magnitude(b);
    if ma > POSITIVE_INFINITY || mb > POSITIVE_INFINITY {
        false
    } else {
        a == b || (ma == 0 && mb == 0)
    }
}

/// Does the encoded number compare greater than or equal to zero?
pub fn is_nonneg(b: u64) -> (r: bool)
    ensures
        r == spec_is_nonneg(b),
{
    let m = magnitude(b);
    m <= POSITIVE_INFINITY && (b < SIGN_BIT || m == 0)
}

/// Does the encoded number compare strictly greater than zero?
pub fn is_positive(b: u64) -> (r: bool)
    ensures
        r == spec_is_positive(b),
{
    0 < b && b <= POSITIVE_INFINITY
}

/// Encoding of negative infinity.
pub const NEGATIVE_INFINITY: u64 = 0xFFF0_0000_0000_0000;

/// Place of a non-NaN encoded number on the number line: its magnitude,
/// negated when the sign bit is set (both zeros sit at 0). A larger
/// magnitude encodes a larger number, so this orders encodings as the
/// numbers they encode.
pub open spec fn spec_order_key(b: u64) -> int {
    if spec_sign_set(b) {
        -(spec_magnitude(b) as int)
    } else {
        spec_magnitude(b) as int
    }
}

/// `a < b` as IEEE-754 compares the encoded numbers (false when either is
/// NaN).
pub open spec fn spec_lt(a: u64, b: u64) -> bool {
    !spec_is_nan(a) && !spec_is_nan(b) && spec_order_key(a) < spec_order_key(b)
}

/// `a <= b` as IEEE-754 compares the encoded numbers (false when either is
/// NaN).
pub open spec fn spec_le(a: u64, b: u64) -> bool {
    !spec_is_nan(a) && !spec_is_nan(b) && spec_order_key(a) <= spec_order_key(b)
}

fn order_key(b: u64) -> (r: i128)
    ensures
        r == spec_order_key(b),
{
    let m = magnitude(b) as i128;
    if b >= SIGN_BIT {
        -m
    } else {
        m
    }
}

/// Is `a < b` (IEEE-754 comparison of the encoded numbers)?
pub fn lt(a: u64, b: u64) -> (r: bool)
    ensures
        r == spec_lt(a, b),
{
    !is_nan(a) && !is_nan(b) && order_key(a) < order_key(b)
}

/// Is `a <= b` (IEEE-754 comparison of the encoded numbers)?
pub fn le(a: u64, b: u64) -> (r: bool)
    ensures
        r == spec_le(a, b),
{
    !is_nan(a) && !is_nan(b) && order_key(a) <= order_key(b)
}

/// The comparisons agree with the sign and equality tests: non-negative is
/// "at least zero", positive is "above zero", and numeric equality is
/// "at most and at least".
pub proof fn lemma_order_agrees_with_tests(a: u64, b: u64)
    ensures
        spec_is_nonneg(b) == spec_le(ZERO, b),
        spec_is_positive(b) == spec_lt(ZERO, b),
        spec_num_eq(a, b) == (spec_le(a, b) && spec_le(b, a)),
        spec_lt(a, b) == (spec_le(a, b) && !spec_le(b, a)),
{
    if !spec_is_nan(a) && !spec_is_nan(b) && spec_order_key(a) == spec_order_key(b) {
        if spec_sign_set(a) != spec_sign_set(b) {
            assert(spec_is_zero(a) && spec_is_zero(b));
        } else {
            assert(a == b);
        }
    }
}

/// 2^53: integers below it have at most 53 significant bits.
pub const SIGNIFICAND_LIMIT: u128 = 0x20_0000_0000_0000;

/// 2 to the power `n`.
pub open spec fn two_pow(n: nat) -> nat
    decreases n,
{
    if n == 0 {
        1
    } else {
        2 * two_pow((n - 1) as nat)
    }
}

/// Number of low-order bits dropped when `m` is cut to 53 significant bits.
pub open spec fn excess_bits(m: nat) -> nat
    decreases m,
{
    if m < 0x20_0000_0000_0000 {
        0
    } else {
        1 + excess_bits(m / 2)
    }
}

/// The integer `m` rounded to the nearest value with at most 53
/// significant bits, ties to an even significand: the value that `m` takes
/// when converted to binary64, and the value of an exact product of
/// binary64 numbers after the multiplication rounds.
pub open spec fn round_to_binary64(m: nat) -> nat {
    let s = excess_bits(m);
    let p = two_pow(s);
    let q = m / p;
    let r = m % p;
    if s == 0 {
        m
    } else if r > p / 2 || (r == p / 2 && q % 2 == 1) {
        (q + 1) * p
    } else {
        q * p
    }
}

proof fn lemma_two_pow_pos(n: nat)
    ensures
        two_pow(n) >= 1,
    decreases n,
{
    if n > 0 {
        lemma_two_pow_pos((n - 1) as nat);
    }
}

/// `m` rounded to 53 significant bits, ties to even (see
/// [`round_to_binary64`]).
pub fn round_u128_to_binary64(m: u128) -> (r: u128)
    requires
        m < 0x4000_0000_0000_0000_0000_0000_0000_0000,
    ensures
        r as nat == round_to_binary64(m as nat),
{
    let mut q: u128 = m;
    let mut p: u128 = 1;
    let ghost mut s: nat = 0;
    while q >= SIGNIFICAND_LIMIT
        invariant
            p as nat == two_pow(s),
            p >= 1,
            q as nat == m as nat / p as nat,
            excess_bits(m as nat) == s + excess_bits(q as nat),
            q * p <= m,
            s > 0 ==> q >= 0x10_0000_0000_0000,
            m < 0x4000_0000_0000_0000_0000_0000_0000_0000,
        decreases q,
    {
        proof {
            lemma_div_denominator(m as int, p as int, 2);
            lemma_fundamental_div_mod(m as int, p as int);
            lemma_fundamental_div_mod(q as int, 2);
            assert(p * 2 <= m) by (nonlinear_arith)
                requires
                    q * p <= m,
                    q >= 2,
                    p >= 1,
            ;
            assert((q / 2) * (p * 2) <= q * p) by (nonlinear_arith)
                requires
                    q >= 0,
                    p >= 1,
            ;
        }
        q = q / 2;
        p = p * 2;
        proof {
            s = s + 1;
            assert(two_pow(s) == 2 * two_pow((s - 1) as nat));
        }
    }
    if p == 1 {
        proof {
            assert(s == 0) by {
                if s > 0 {
                    lemma_two_pow_ge2(s);
                }
            }
        }
        return m;
    }
    proof {
        if s == 0 {
            assert(two_pow(0) == 1);
        }
        assert(s > 0);
        lemma_fundamental_div_mod(m as int, p as int);
        assert(q * p <= m);
        assert((q + 1) * p <= 2 * m) by (nonlinear_arith)
            requires
                q * p <= m,
                q >= 1,
                p >= 1,
        ;
    }
    let r = m % p;
    let half = p / 2;
    if r > half || (r == half && q % 2 == 1) {
        (q + 1) * p
    } else {
        q * p
    }
}

proof fn lemma_two_pow_ge2(n: nat)
    requires
        n > 0,
    ensures
        two_pow(n) >= 2,
{
    lemma_two_pow_pos((n - 1) as nat);
}

/// After dropping the excess bits, 53 significant bits remain: the
/// quotient is below 2^53, and at least 2^52 when bits were dropped.
pub proof fn lemma_excess_bits_quotient(m: nat)
    ensures
        two_pow(excess_bits(m)) >= 1,
        m / two_pow(excess_bits(m)) < 0x20_0000_0000_0000,
        excess_bits(m) > 0 ==> m / two_pow(excess_bits(m)) >= 0x10_0000_0000_0000,
    decreases m,
{
    lemma_two_pow_pos(excess_bits(m));
    if m >= 0x20_0000_0000_0000 {
        let s1 = excess_bits(m / 2);
        lemma_excess_bits_quotient(m / 2);
        lemma_two_pow_pos(s1);
        lemma_div_denominator(m as int, 2, two_pow(s1) as int);
        assert(two_pow(excess_bits(m)) == 2 * two_pow(s1));
    }
}

/// Rounding to 53 significant bits at most doubles a number.
pub proof fn lemma_round_at_most_double(m: nat)
    ensures
        round_to_binary64(m) <= 2 * m,
{
    let s = excess_bits(m);
    lemma_excess_bits_quotient(m);
    if s > 0 {
        let p = two_pow(s);
        let q = m / p;
        lemma_fundamental_div_mod(m as int, p as int);
        assert(q * p <= m);
        assert((q + 1) * p <= 2 * m) by (nonlinear_arith)
            requires
                q * p <= m,
                q >= 1,
                p >= 1,
        ;
        assert(q * p <= 2 * m);
    }
}

/// The powers of two at the significand and sign boundaries.
pub proof fn lemma_two_pow_53_63()
    ensures
        two_pow(53) == 0x20_0000_0000_0000,
        two_pow(63) == 0x8000_0000_0000_0000,
{
    reveal_with_fuel(two_pow, 64);
}

proof fn lemma_two_pow_adds(a: nat, b: nat)
    ensures
        two_pow(a + b) == two_pow(a) * two_pow(b),
    decreases a,
{
    if a > 0 {
        let a1 = (a - 1) as nat;
        lemma_two_pow_adds(a1, b);
        assert(a + b == (a1 + b) + 1);
        assert(two_pow(a + b) == 2 * two_pow(a1 + b));
        assert(two_pow(a) == 2 * two_pow(a1));
        let x = two_pow(a1);
        let y = two_pow(b);
        assert((2 * x) * y == 2 * (x * y)) by (nonlinear_arith);
        assert(two_pow(a) * two_pow(b) == (2 * x) * y);
    } else {
        assert(a + b == b);
        assert(two_pow(a) == 1);
        let y = two_pow(b);
        assert(1 * y == y) by (nonlinear_arith);
    }
}

proof fn lemma_excess_bits_le(m: nat, k: nat)
    requires
        m < two_pow(53 + k),
    ensures
        excess_bits(m) <= k,
    decreases k,
{
    lemma_two_pow_53_63();
    if m >= 0x20_0000_0000_0000 {
        if k == 0 {
            assert(false);
        } else {
            assert(two_pow(53 + k) == 2 * two_pow((53 + k - 1) as nat));
            lemma_excess_bits_le(m / 2, (k - 1) as nat);
        }
    }
}

/// Rounding to 53 significant bits never crosses a multiple of 2^53 from
/// below: a product below `2^53 * n`, with `n` below 2^53, rounds to at most
/// `2^53 * n`.
pub proof fn lemma_round_below_scaled(m: nat, n: nat)
    requires
        m < two_pow(53) * n,
        n < two_pow(53),
    ensures
        round_to_binary64(m) <= two_pow(53) * n,
{
    lemma_two_pow_53_63();
    lemma_two_pow_adds(53, 53);
    assert(two_pow(53) * n <= two_pow(53) * two_pow(53)) by (nonlinear_arith)
        requires
            n < two_pow(53),
    ;
    lemma_excess_bits_le(m, 53);
    let s = excess_bits(m);
    if s > 0 {
        let p = two_pow(s);
        let q = m / p;
        lemma_two_pow_pos(s);
        lemma_two_pow_adds((53 - s) as nat, s);
        let c = two_pow((53 - s) as nat) * n;
        assert(two_pow(53) * n == c * p) by (nonlinear_arith)
            requires
                two_pow(53) == two_pow((53 - s) as nat) * p,
                c == two_pow((53 - s) as nat) * n,
        ;
        lemma_fundamental_div_mod(m as int, p as int);
        assert(q * p <= m);
        assert((q + 1) * p <= c * p) by (nonlinear_arith)
            requires
                q * p <= m,
                m < c * p,
                p >= 1,
        ;
        assert(q * p <= c * p) by (nonlinear_arith)
            requires
                (q + 1) * p <= c * p,
                p >= 1,
        ;
    }
}

/// An integer below 2^53 converts to binary64 exactly.
pub proof fn lemma_round_exact_below_limit(m: nat)
    requires
        m < 0x20_0000_0000_0000,
    ensures
        round_to_binary64(m) == m,
{
}

} // verus!
