//! The IEEE-754 single-precision bit pattern of a whole number, so that a
//! counter can be published on a float lane without float arithmetic.

use vstd::prelude::*;

verus! {

pub open spec fn two_pow(e: nat) -> nat
    decreases e,
{
    if e == 0 { 1 } else { 2 * two_pow((e - 1) as nat) }
}

/// The position of the highest set bit of `n` (0 for `n <= 1`).
pub open spec fn top_bit(n: nat) -> nat
    decreases n,
{
    if n <= 1 { 0 } else { 1 + top_bit(n / 2) }
}

/// The 24-bit significand of `n` with its leading one: `n` scaled into
/// `[2^23, 2^24)`, rounded to nearest with ties to even when low bits are
/// dropped (a round-up may carry to exactly `2^24`).
pub open spec fn significand(n: nat) -> nat {
    let e = top_bit(n);
    if e <= 23 {
        n * two_pow((23 - e) as nat)
    } else {
        let p = two_pow((e - 23) as nat);
        let q = n / p;
        let r = n % p;
        if r * 2 > p || (r * 2 == p && q % 2 == 1) { q + 1 } else { q }
    }
}

/// The `f32` bit pattern of the float nearest to `n`: biased exponent
/// `127 + top_bit(n)` over the 23 stored significand bits (a carry of the
/// significand into `2^24` moves into the exponent).
pub open spec fn f32_bits_of_nat(n: nat) -> nat {
    if n == 0 { 0 } else { (126 + top_bit(n)) * two_pow(23) + significand(n) }
}

proof fn lemma_two_pow_values()
    ensures
        two_pow(23) == 8388608,
        two_pow(24) == 16777216,
        two_pow(32) == 4294967296,
{
    reveal_with_fuel(two_pow, 33);
}

proof fn lemma_two_pow_adds(a: nat, b: nat)
    ensures
        two_pow(a + b) == two_pow(a) * two_pow(b),
    decreases a,
{
    if a > 0 {
        let a1 = (a - 1) as nat;
        lemma_two_pow_adds(a1, b);
        assert(a + b == (a1 + b) + 1);
        assert(two_pow(a + b) == 2 * two_pow(a1 + b));
        let x = two_pow(a1);
        let y = two_pow(b);
        assert(two_pow(a) == 2 * x);
        assert((2 * x) * y == 2 * (x * y)) by (nonlinear_arith);
        assert(two_pow(a + b) == two_pow(a) * two_pow(b));
    } else {
        assert(two_pow(a) == 1);
        assert(1 * two_pow(b) == two_pow(b));
        assert(a + b == b);
    }
}

proof fn lemma_two_pow_grows(a: nat, b: nat)
    requires
        a <= b,
    ensures
        1 <= two_pow(a) <= two_pow(b),
    decreases b,
{
    if b > a {
        lemma_two_pow_grows(a, (b - 1) as nat);
    } else if a > 0 {
        lemma_two_pow_grows(0, (a - 1) as nat);
    }
}

/// `n` lies between two to its top bit and the next power.
proof fn lemma_top_bit_bounds(n: nat)
    requires
        n >= 1,
    ensures
        two_pow(top_bit(n)) <= n < two_pow(top_bit(n) + 1),
    decreases n,
{
    if n > 1 {
        lemma_top_bit_bounds(n / 2);
    }
}

/// The `f32` bit pattern of the float nearest to `n`.
pub fn f32_bits_from_u32(n: u32) -> (r: u32)
    ensures
        r == f32_bits_of_nat(n as nat),
{
    if n == 0 {
        return 0;
    }
    proof {
        lemma_top_bit_bounds(n as nat);
        lemma_two_pow_values();
        if top_bit(n as nat) >= 32 {
            lemma_two_pow_grows(32, top_bit(n as nat));
        }
    }
    let mut e: u32 = 0;
    let mut t: u32 = n;
    while t > 1
        invariant
            1 <= t <= n,
            top_bit(n as nat) == e + top_bit(t as nat),
            top_bit(n as nat) < 32,
        decreases t,
    {
        t = t / 2;
        e = e + 1;
    }
    let ghost top = top_bit(n as nat);
    assert(e == top);
    let m: u32;
    if e <= 23 {
        let mut k: u32 = e;
        let mut x: u32 = n;
        proof { lemma_two_pow_grows(top + 1, 24); }
        assert(two_pow(0) == 1);
        assert(n * two_pow(0) == n);
        while k < 23
            invariant
                e <= k <= 23,
                e == top,
                x == n * two_pow((k - e) as nat),
                x < two_pow((k + 1) as nat),
                two_pow(24) == 16777216,
            decreases 23 - k,
        {
            proof { lemma_two_pow_grows((k + 1) as nat, 24); }
            assert(two_pow((k + 1 - e) as nat) == 2 * two_pow((k - e) as nat));
            assert(n * two_pow((k + 1 - e) as nat) == 2 * (n * two_pow((k - e) as nat))) by (nonlinear_arith)
                requires two_pow((k + 1 - e) as nat) == 2 * two_pow((k - e) as nat);
            x = x * 2;
            k = k + 1;
        }
        m = x;
        assert(m <= 16777216);
    } else {
        let sh: u32 = e - 23;
        let mut p: u32 = 1;
        let mut j: u32 = 0;
        while j < sh
            invariant
                j <= sh,
                sh == e - 23,
                e <= 31,
                p == two_pow(j as nat),
                p >= 1,
            decreases sh - j,
        {
            proof { lemma_two_pow_grows((j + 1) as nat, 8); }
            assert(two_pow(8) == 256) by { reveal_with_fuel(two_pow, 9); }
            p = p * 2;
            j = j + 1;
        }
        let q = n / p;
        let rem = n % p;
        proof {
            lemma_two_pow_adds(sh as nat, 24);
            assert((sh + 24) as nat == top + 1);
            assert(p as nat * 16777216 == two_pow(top + 1));
            assert(n < p * 16777216);
            assert(q < 16777216) by (nonlinear_arith)
                requires n < p * 16777216, p > 0, q == n / p;
            assert(rem < p);
            lemma_two_pow_grows(sh as nat, 8);
            assert(two_pow(8) == 256) by { reveal_with_fuel(two_pow, 9); }
        }
        if rem * 2 > p || (rem * 2 == p && q % 2 == 1) {
            m = q + 1;
        } else {
            m = q;
        }
        assert(m <= 16777216);
    }
    (126 + e) * 8388608 + m
}

} // verus!
