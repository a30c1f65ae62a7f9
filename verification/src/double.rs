//! Double-precision arithmetic, worked out in integers.
//!
//! The backoff curve is defined by a handful of IEEE 754 double-precision
//! operations, each of which rounds its exact result to the nearest value with
//! a 53-bit significand, ties going to the even one. This module states that
//! rounding and computes it.
//!
//! A value is counted here in units of 2^-64. Every double that is at least
//! 2^-12 is a whole number of units.

use vstd::arithmetic::power2::pow2;
use vstd::prelude::*;

verus! {

/// One, in units.
pub open spec fn one() -> nat {
    0x1_0000_0000_0000_0000
}

/// The whole number nearest to `num / den`, a tie going to the even one.
pub open spec fn half_even(num: nat, den: nat) -> nat
    recommends
        den > 0,
{
    let q = num / den;
    let r = num % den;
    if 2 * r > den || (2 * r == den && q % 2 == 1) {
        q + 1
    } else {
        q
    }
}

/// The spacing of doubles around `q`: the power of two that leaves `q` with a
/// significand of 53 bits.
pub open spec fn ulp(q: nat) -> nat
    decreases q,
{
    if q < 0x20_0000_0000_0000 {
        1
    } else {
        2 * ulp(q / 2)
    }
}

/// The double nearest to `num / den`, a tie going to the even significand.
pub open spec fn nearest(num: nat, den: nat) -> nat
    recommends
        den > 0,
{
    let u = ulp(num / den);
    u * half_even(num, den * u)
}

/// The seconds that `(poll / 100) * (t * (t / 3))` comes to in double
/// precision, the fraction dropped.
pub open spec fn curve(poll: nat, t: nat) -> nat {
    let percent = nearest(nearest(poll * one(), 1), 100);
    let third = nearest(t * one(), 3);
    let square = nearest(t * third, 1);
    nearest(percent * square, one()) / one()
}

/// A double: `mant * 2^exp` units.
struct Double {
    mant: u64,
    exp: u32,
}

impl Double {
    spec fn value(self) -> nat {
        (self.mant * pow2(self.exp as nat)) as nat
    }

    /// The significand has exactly 53 bits, or is the one that carried over.
    spec fn wf(self) -> bool {
        0x10_0000_0000_0000 <= self.mant <= 0x20_0000_0000_0000
    }
}

/// A quotient and a remainder are known by their defining equation.
proof fn lemma_div_mod_is(x: nat, d: nat, q: nat, r: nat)
    requires
        x == q * d + r,
        r < d,
    ensures
        x / d == q,
        x % d == r,
{
    vstd::arithmetic::div_mod::lemma_fundamental_div_mod_converse(
        x as int,
        d as int,
        q as int,
        r as int,
    );
}

proof fn lemma_div_mod(x: nat, d: nat)
    requires
        d > 0,
    ensures
        x == (x / d) * d + x % d,
        x % d < d,
{
    vstd::arithmetic::div_mod::lemma_fundamental_div_mod(x as int, d as int);
    vstd::arithmetic::mul::lemma_mul_is_commutative(d as int, (x / d) as int);
}

/// The spacing is known from the power of two that brackets the value.
proof fn lemma_ulp_at(q: nat, k: nat)
    requires
        k == 0 ==> q < 0x20_0000_0000_0000,
        k > 0 ==> 0x10_0000_0000_0000 * pow2(k) <= q < 0x20_0000_0000_0000 * pow2(k),
    ensures
        ulp(q) == pow2(k),
    decreases k,
{
    vstd::arithmetic::power2::lemma2_to64();
    if k > 0 {
        let h = (k - 1) as nat;
        vstd::arithmetic::power2::lemma_pow2_unfold(k);
        vstd::arithmetic::power2::lemma_pow2_pos(h);
        lemma_ulp_at(q / 2, h);
    }
}

proof fn lemma_ulp_pos(q: nat)
    ensures
        ulp(q) > 0,
    decreases q,
{
    if q >= 0x20_0000_0000_0000 {
        lemma_ulp_pos(q / 2);
    }
}

proof fn lemma_half_even_reduce(num: nat, den: nat, c: nat)
    requires
        den > 0,
        c > 0,
    ensures
        half_even(num * c, den * c) == half_even(num, den),
{
    let q = num / den;
    let r = num % den;
    lemma_div_mod(num, den);
    assert(num * c == q * (den * c) + r * c && r * c < den * c) by (nonlinear_arith)
        requires
            num == q * den + r,
            r < den,
            c > 0,
    ;
    lemma_div_mod_is(num * c, den * c, q, r * c);
    assert((2 * (r * c) > den * c) == (2 * r > den)) by (nonlinear_arith)
        requires
            c > 0,
    ;
    assert((2 * (r * c) == den * c) == (2 * r == den)) by (nonlinear_arith)
        requires
            c > 0,
    ;
}

/// A common factor of numerator and denominator does not matter.
proof fn lemma_nearest_reduce(num: nat, den: nat, c: nat)
    requires
        den > 0,
        c > 0,
    ensures
        nearest(num * c, den * c) == nearest(num, den),
{
    let q = num / den;
    let r = num % den;
    let u = ulp(q);
    lemma_div_mod(num, den);
    lemma_ulp_pos(q);
    assert(num * c == q * (den * c) + r * c && r * c < den * c) by (nonlinear_arith)
        requires
            num == q * den + r,
            r < den,
            c > 0,
    ;
    lemma_div_mod_is(num * c, den * c, q, r * c);
    assert(den * u > 0) by (nonlinear_arith)
        requires
            den > 0,
            u > 0,
    ;
    lemma_half_even_reduce(num, den * u, c);
    assert((den * u) * c == (den * c) * u) by (nonlinear_arith);
}

/// Doubling a value doubles the double nearest to it.
proof fn lemma_nearest_twice(num: nat, den: nat)
    requires
        den > 0,
        num / den >= 0x10_0000_0000_0000,
    ensures
        nearest(2 * num, den) == 2 * nearest(num, den),
        (2 * num) / den >= 0x20_0000_0000_0000,
{
    let q = num / den;
    let r = num % den;
    let u = ulp(q);
    lemma_div_mod(num, den);
    lemma_ulp_pos(q);
    if 2 * r >= den {
        assert(2 * num == (2 * q + 1) * den + (2 * r - den)) by (nonlinear_arith)
            requires
                num == q * den + r,
        ;
        lemma_div_mod_is(2 * num, den, 2 * q + 1, (2 * r - den) as nat);
    } else {
        assert(2 * num == (2 * q) * den + 2 * r) by (nonlinear_arith)
            requires
                num == q * den + r,
        ;
        lemma_div_mod_is(2 * num, den, 2 * q, 2 * r);
    }
    let q2 = (2 * num) / den;
    assert(q2 / 2 == q);
    assert(ulp(q2) == 2 * u);
    assert(den * u > 0) by (nonlinear_arith)
        requires
            den > 0,
            u > 0,
    ;
    lemma_half_even_reduce(num, den * u, 2);
    assert((den * u) * 2 == den * (2 * u)) by (nonlinear_arith);
    let h = half_even(num, den * u);
    assert((2 * u) * h == 2 * (u * h)) by (nonlinear_arith);
}

/// Scaling a value by a power of two scales the double nearest to it.
proof fn lemma_nearest_shift(num: nat, den: nat, k: nat)
    requires
        den > 0,
        num / den >= 0x10_0000_0000_0000,
    ensures
        nearest(num * pow2(k), den) == nearest(num, den) * pow2(k),
        (num * pow2(k)) / den >= 0x10_0000_0000_0000,
    decreases k,
{
    vstd::arithmetic::power2::lemma2_to64();
    if k > 0 {
        let h = (k - 1) as nat;
        lemma_nearest_shift(num, den, h);
        lemma_nearest_twice(num * pow2(h), den);
        vstd::arithmetic::power2::lemma_pow2_unfold(k);
        assert(num * pow2(k) == 2 * (num * pow2(h))) by (nonlinear_arith)
            requires
                pow2(k) == 2 * pow2(h),
        ;
        let n = nearest(num, den);
        assert(n * pow2(k) == 2 * (n * pow2(h))) by (nonlinear_arith)
            requires
                pow2(k) == 2 * pow2(h),
        ;
    }
}

/// The double nearest to `num / den * 2^scale`, where `num / den` needs all 53
/// bits.
fn round(num: u128, den: u128, scale: u32) -> (d: Double)
    requires
        0 < den <= 0x10_0000_0000_0000,
        num < 0x100_0000_0000_0000_0000_0000_0000_0000,
        num / den >= 0x10_0000_0000_0000,
        scale < 1000,
    ensures
        d.wf(),
        scale <= d.exp < scale + 72,
        d.value() == nearest(num as nat * pow2(scale as nat), den as nat),
{
    let q: u128 = num / den;
    let mut top: u128 = q;
    let mut unit: u128 = 1;
    let mut exp: u32 = 0;
    proof {
        vstd::arithmetic::power2::lemma2_to64();
        lemma_div_mod(num as nat, den as nat);
        assert(q <= num) by (nonlinear_arith)
            requires
                num == q * den + num % den,
                den >= 1,
        ;
    }
    while top >= 0x20_0000_0000_0000
        invariant
            top >= 0x10_0000_0000_0000,
            unit == pow2(exp as nat),
            unit >= 1,
            top * unit <= q < (top + 1) * unit,
            q < 0x100_0000_0000_0000_0000_0000_0000_0000,
            unit < 0x100_0000_0000_0000_0000,
            exp < 72,
        decreases top,
    {
        let half: u128 = top / 2;
        proof {
            assert(half * (2 * unit) <= q < (half + 1) * (2 * unit)) by (nonlinear_arith)
                requires
                    top * unit <= q < (top + 1) * unit,
                    half == top / 2,
            ;
            assert(unit * 2 < 0x100_0000_0000_0000_0000) by (nonlinear_arith)
                requires
                    half * (2 * unit) <= q,
                    half >= 0x10_0000_0000_0000,
                    q < 0x100_0000_0000_0000_0000_0000_0000_0000,
            ;
            vstd::arithmetic::power2::lemma_pow2_unfold((exp + 1) as nat);
            if exp == 71 {
                vstd::arithmetic::power2::lemma2_to64();
                vstd::arithmetic::power2::lemma_pow2_adds(64, 8);
            }
        }
        top = half;
        unit = unit * 2;
        exp = exp + 1;
    }
    proof {
        assert(0x10_0000_0000_0000 * unit <= q < 0x20_0000_0000_0000 * unit) by (nonlinear_arith)
            requires
                top * unit <= q < (top + 1) * unit,
                0x10_0000_0000_0000 <= top < 0x20_0000_0000_0000,
                unit >= 1,
        ;
        lemma_ulp_at(q as nat, exp as nat);
        assert(0 < den * unit <= 0x1000_0000_0000_0000_0000_0000_0000_0000) by (nonlinear_arith)
            requires
                0 < den <= 0x10_0000_0000_0000,
                1 <= unit < 0x100_0000_0000_0000_0000,
        ;
    }
    let step: u128 = den * unit;
    let m: u128 = num / step;
    let r: u128 = num % step;
    proof {
        lemma_div_mod(num as nat, step as nat);
        assert(0x10_0000_0000_0000 <= m < 0x20_0000_0000_0000) by (nonlinear_arith)
            requires
                num == m * step + r,
                0 <= r < step,
                step == den * unit,
                num == q * den + num % den,
                0 <= num % den < den,
                0x10_0000_0000_0000 * unit <= q,
                q + 1 <= 0x20_0000_0000_0000 * unit,
                0 < den,
                1 <= unit,
        ;
    }
    let up: bool = 2 * r > step || (2 * r == step && m % 2 == 1);
    let mant: u64 = if up { m as u64 + 1 } else { m as u64 };
    proof {
        let h = half_even(num as nat, step as nat);
        assert(h == mant);
        assert(mant * unit == unit * h) by (nonlinear_arith)
            requires
                mant == h,
        ;
    }
    proof {
        lemma_nearest_shift(num as nat, den as nat, scale as nat);
        vstd::arithmetic::power2::lemma_pow2_adds(exp as nat, scale as nat);
        let stretch = pow2(scale as nat);
        assert((mant * unit) * stretch == mant * (unit * stretch)) by (nonlinear_arith);
    }
    Double { mant, exp: exp + scale }
}

/// `2^k`.
fn power(k: u32) -> (p: u128)
    requires
        k <= 64,
    ensures
        p == pow2(k as nat),
        1 <= p <= one(),
{
    let mut p: u128 = 1;
    let mut i: u32 = 0;
    proof {
        vstd::arithmetic::power2::lemma2_to64();
    }
    while i < k
        invariant
            i <= k <= 64,
            p == pow2(i as nat),
            1 <= p <= one(),
        decreases k - i,
    {
        proof {
            vstd::arithmetic::power2::lemma2_to64();
            vstd::arithmetic::power2::lemma_pow2_unfold((i + 1) as nat);
            if i + 1 < 64 {
                vstd::arithmetic::power2::lemma_pow2_strictly_increases((i + 1) as nat, 64);
            }
        }
        p = p * 2;
        i = i + 1;
    }
    p
}

/// A product of a double and a power of two, regrouped.
proof fn lemma_regroup(m: nat, c: nat, k: nat, j: nat)
    requires
        j <= k,
        c == pow2(j),
    ensures
        m * pow2(k) == (m * c) * pow2((k - j) as nat),
{
    vstd::arithmetic::power2::lemma_pow2_adds(j, (k - j) as nat);
    let rest = pow2((k - j) as nat);
    assert(m * (c * rest) == (m * c) * rest) by (nonlinear_arith);
}

/// `(poll / 100) * (t * (t / 3))` in double precision, the fraction dropped and
/// the result capped at `poll`.
pub fn capped_curve(poll: u64, t: u32) -> (n: u64)
    requires
        t > 0,
    ensures
        n == if curve(poll as nat, t as nat) < poll { curve(poll as nat, t as nat) } else {
            poll as nat
        },
{
    if poll == 0 {
        return 0;
    }
    proof {
        vstd::arithmetic::power2::lemma2_to64();
    }

    let whole = round(poll as u128 * 0x10_0000_0000_0000, 1, 12);
    assert(whole.value() == nearest(poll as nat * one(), 1));

    let percent = round(whole.mant as u128 * 128, 100, whole.exp - 7);
    assert(percent.value() == nearest(whole.value(), 100)) by {
        lemma_regroup(whole.mant as nat, 128, whole.exp as nat, 7);
    }

    let third = round(t as u128 * 0x40_0000_0000_0000, 3, 10);
    assert(third.value() == nearest(t as nat * one(), 3));

    assert(0x10_0000_0000_0000 <= t * third.mant <= 0x20_0000_0000_0000 * 0xffff_ffff)
        by (nonlinear_arith)
        requires
            0x10_0000_0000_0000 <= third.mant <= 0x20_0000_0000_0000,
            1 <= t <= 0xffff_ffff,
    ;
    let square = round(t as u128 * third.mant as u128, 1, third.exp);
    assert(square.value() == nearest(t as nat * third.value(), 1)) by {
        let p = pow2(third.exp as nat);
        assert((t * third.mant) * p == t * (third.mant * p)) by (nonlinear_arith);
    }

    assert(0x10_0000_0000_0000 * 0x10_0000_0000_0000 <= percent.mant * square.mant
        <= 0x20_0000_0000_0000 * 0x20_0000_0000_0000) by (nonlinear_arith)
        requires
            0x10_0000_0000_0000 <= percent.mant <= 0x20_0000_0000_0000,
            0x10_0000_0000_0000 <= square.mant <= 0x20_0000_0000_0000,
    ;
    let product = round(
        percent.mant as u128 * square.mant as u128,
        0x10_0000_0000_0000,
        percent.exp + square.exp - 12,
    );
    assert(product.value() == nearest(percent.value() * square.value(), one())) by {
        let m: nat = (percent.mant * square.mant) as nat;
        let e: nat = (percent.exp + square.exp) as nat;
        let p = pow2(percent.exp as nat);
        let q = pow2(square.exp as nat);
        vstd::arithmetic::power2::lemma_pow2_adds(percent.exp as nat, square.exp as nat);
        assert((percent.mant * p) * (square.mant * q) == m * (p * q)) by (nonlinear_arith)
            requires
                m == percent.mant * square.mant,
        ;
        lemma_regroup(m, 4096, e, 12);
        let low = pow2((e - 12) as nat);
        assert((m * 4096) * low == (m * low) * 4096) by (nonlinear_arith);
        lemma_nearest_reduce(m * low, 0x10_0000_0000_0000, 4096);
    }
    assert(curve(poll as nat, t as nat) == product.value() / one());

    if product.exp >= 64 {
        let up: u32 = product.exp - 64;
        proof {
            lemma_regroup(product.mant as nat, one(), product.exp as nat, 64);
            let rest = pow2(up as nat);
            assert((product.mant * one()) * rest == (product.mant * rest) * one() + 0)
                by (nonlinear_arith);
            lemma_div_mod_is(product.value(), one(), (product.mant * rest) as nat, 0);
            vstd::arithmetic::power2::lemma_pow2_pos(up as nat);
            if up >= 12 {
                vstd::arithmetic::power2::lemma_pow2_adds(12, (up - 12) as nat);
                vstd::arithmetic::power2::lemma_pow2_pos((up - 12) as nat);
            }
        }
        if up >= 12 {
            proof {
                let rest = pow2(up as nat);
                let more = pow2((up - 12) as nat);
                assert(product.mant * rest >= one()) by (nonlinear_arith)
                    requires
                        product.mant >= 0x10_0000_0000_0000,
                        rest == 4096 * more,
                        more >= 1,
                        one() == 0x1_0000_0000_0000_0000,
                ;
            }
            return poll;
        }
        let scale = power(up);
        proof {
            if up < 12 {
                vstd::arithmetic::power2::lemma_pow2_strictly_increases(up as nat, 12);
            }
            assert(product.mant * scale <= 0x20_0000_0000_0000 * 4096) by (nonlinear_arith)
                requires
                    product.mant <= 0x20_0000_0000_0000,
                    0 <= scale <= 4096,
            ;
        }
        let n: u128 = product.mant as u128 * scale;
        if n < poll as u128 {
            n as u64
        } else {
            poll
        }
    } else {
        let down: u32 = 64 - product.exp;
        let scale = power(down);
        proof {
            vstd::arithmetic::power2::lemma_pow2_adds(product.exp as nat, down as nat);
            let p = pow2(product.exp as nat);
            vstd::arithmetic::power2::lemma_pow2_pos(product.exp as nat);
            let m = product.mant as nat;
            let q = m / (scale as nat);
            let r = m % (scale as nat);
            lemma_div_mod(m, scale as nat);
            assert(m * p == q * (p * scale) + r * p && r * p < p * scale) by (nonlinear_arith)
                requires
                    m == q * scale + r,
                    r < scale,
                    p > 0,
            ;
            lemma_div_mod_is(product.value(), one(), q, r * p);
        }
        let n: u128 = product.mant as u128 / scale;
        if n < poll as u128 {
            n as u64
        } else {
            poll
        }
    }
}

/// The bounds that the spacing keeps.
proof fn lemma_ulp_bracket(q: nat)
    ensures
        q < 0x20_0000_0000_0000 * ulp(q),
        q >= 0x20_0000_0000_0000 ==> 0x10_0000_0000_0000 * ulp(q) <= q,
        q < 0x20_0000_0000_0000 ==> ulp(q) == 1,
    decreases q,
{
    if q >= 0x20_0000_0000_0000 {
        lemma_ulp_bracket(q / 2);
    }
}

/// A larger value has the same spacing, or at least twice as much.
proof fn lemma_ulp_grows(q1: nat, q2: nat)
    requires
        q1 <= q2,
    ensures
        ulp(q1) == ulp(q2) || 2 * ulp(q1) <= ulp(q2),
    decreases q2,
{
    if q2 >= 0x20_0000_0000_0000 {
        lemma_ulp_pos(q2 / 2);
        if q1 >= 0x20_0000_0000_0000 {
            lemma_ulp_grows(q1 / 2, q2 / 2);
        }
    }
}

proof fn lemma_half_even_ordered(n1: nat, n2: nat, den: nat)
    requires
        den > 0,
        n1 <= n2,
    ensures
        half_even(n1, den) <= half_even(n2, den),
{
    lemma_div_mod(n1, den);
    lemma_div_mod(n2, den);
    vstd::arithmetic::div_mod::lemma_div_is_ordered(n1 as int, n2 as int, den as int);
}

/// Where the double nearest to a value lies.
proof fn lemma_nearest_bounds(num: nat, den: nat)
    requires
        den > 0,
    ensures
        nearest(num, den) <= 0x20_0000_0000_0000 * ulp(num / den),
        num / den >= 0x20_0000_0000_0000 ==> nearest(num, den) >= 0x10_0000_0000_0000 * ulp(
            num / den,
        ),
        nearest(num, den) * 0x10_0000_0000_0000 >= (num / den) * 0xf_ffff_ffff_ffff,
{
    let q = num / den;
    let r = num % den;
    let u = ulp(q);
    lemma_div_mod(num, den);
    lemma_ulp_bracket(q);
    lemma_ulp_pos(q);
    assert(den * u > 0) by (nonlinear_arith)
        requires
            den > 0,
            u > 0,
    ;
    lemma_div_mod(num, den * u);
    let m = num / (den * u);
    let rest = num % (den * u);
    let h = half_even(num, den * u);
    assert(m < 0x20_0000_0000_0000) by (nonlinear_arith)
        requires
            num == m * (den * u) + rest,
            num == q * den + r,
            r < den,
            q + 1 <= 0x20_0000_0000_0000 * u,
            den > 0,
            u > 0,
            rest >= 0,
    ;
    assert(u * h <= 0x20_0000_0000_0000 * u) by (nonlinear_arith)
        requires
            h <= 0x20_0000_0000_0000,
    ;
    if q >= 0x20_0000_0000_0000 {
        assert(m >= 0x10_0000_0000_0000) by (nonlinear_arith)
            requires
                num == m * (den * u) + rest,
                rest < den * u,
                num >= q * den,
                q >= 0x10_0000_0000_0000 * u,
                den > 0,
                u > 0,
        ;
        assert(u * h >= 0x10_0000_0000_0000 * u) by (nonlinear_arith)
            requires
                h >= 0x10_0000_0000_0000,
        ;
    }
    assert((m + 1) * u >= q + 1) by (nonlinear_arith)
        requires
            num == m * (den * u) + rest,
            rest < den * u,
            num >= q * den,
            den > 0,
            u > 0,
    ;
    assert(u * h >= m * u) by (nonlinear_arith)
        requires
            h >= m,
    ;
    assert((m + 1) * u == m * u + u) by (nonlinear_arith);
}

/// Rounding keeps order.
pub proof fn lemma_nearest_ordered(n1: nat, n2: nat, den: nat)
    requires
        den > 0,
        n1 <= n2,
    ensures
        nearest(n1, den) <= nearest(n2, den),
{
    let q1 = n1 / den;
    let q2 = n2 / den;
    vstd::arithmetic::div_mod::lemma_div_is_ordered(n1 as int, n2 as int, den as int);
    lemma_ulp_pos(q1);
    lemma_ulp_grows(q1, q2);
    if ulp(q1) == ulp(q2) {
        let u = ulp(q1);
        assert(den * u > 0) by (nonlinear_arith)
            requires
                den > 0,
                u > 0,
        ;
        lemma_half_even_ordered(n1, n2, den * u);
        let h1 = half_even(n1, den * u);
        let h2 = half_even(n2, den * u);
        assert(u * h1 <= u * h2) by (nonlinear_arith)
            requires
                h1 <= h2,
        ;
    } else {
        lemma_nearest_bounds(n1, den);
        lemma_nearest_bounds(n2, den);
        lemma_ulp_bracket(q2);
    }
}

/// The curve never falls as `t` grows.
pub proof fn lemma_curve_ordered(poll: nat, t1: nat, t2: nat)
    requires
        t1 <= t2,
    ensures
        curve(poll, t1) <= curve(poll, t2),
{
    let percent = nearest(nearest(poll * one(), 1), 100);
    let third1 = nearest(t1 * one(), 3);
    let third2 = nearest(t2 * one(), 3);
    lemma_nearest_ordered(t1 * one(), t2 * one(), 3);
    assert(t1 * third1 <= t2 * third2) by (nonlinear_arith)
        requires
            t1 <= t2,
            third1 <= third2,
    ;
    lemma_nearest_ordered(t1 * third1, t2 * third2, 1);
    let square1 = nearest(t1 * third1, 1);
    let square2 = nearest(t2 * third2, 1);
    assert(percent * square1 <= percent * square2) by (nonlinear_arith)
        requires
            square1 <= square2,
    ;
    lemma_nearest_ordered(percent * square1, percent * square2, one());
}

/// The double nearest to a value, from its exponent and significand.
proof fn lemma_nearest_is(num: nat, den: nat, k: nat, u: nat, h: nat)
    requires
        den > 0,
        u == pow2(k),
        k == 0 ==> num / den < 0x20_0000_0000_0000,
        k > 0 ==> 0x10_0000_0000_0000 * u <= num / den < 0x20_0000_0000_0000 * u,
        half_even(num, den * u) == h,
    ensures
        nearest(num, den) == u * h,
{
    lemma_ulp_at(num / den, k);
}

/// From 18 on the curve has reached `poll`.
pub proof fn lemma_curve_reaches(poll: nat, t: nat)
    requires
        t >= 18,
    ensures
        curve(poll, t) >= poll,
{
    lemma_curve_ordered(poll, 18, t);
    if poll > 0 {
        vstd::arithmetic::power2::lemma2_to64();
        let whole = nearest(poll * one(), 1);
        let percent = nearest(whole, 100);
        lemma_nearest_bounds(poll * one(), 1);
        lemma_nearest_bounds(whole, 100);
        assert(101 * percent >= poll * one());
        lemma_nearest_is(18 * one(), 3, 14, 16384, 6 * 0x4_0000_0000_0000);
        assert(nearest(18 * one(), 3) == 6 * one());
        lemma_nearest_is(108 * one(), 1, 18, 262144, 108 * 0x4000_0000_0000);
        assert(nearest(18 * (6 * one()), 1) == 108 * one());
        let scaled = percent * (108 * one());
        assert(scaled == (percent * 108) * one()) by (nonlinear_arith)
            requires
                scaled == percent * (108 * one()),
        ;
        lemma_div_mod_is(scaled, one(), percent * 108, 0);
        lemma_nearest_bounds(scaled, one());
        let product = nearest(scaled, one());
        assert(product >= poll * one());
        vstd::arithmetic::div_mod::lemma_div_is_ordered(
            (poll * one()) as int,
            product as int,
            one() as int,
        );
        lemma_div_mod_is(poll * one(), one(), poll, 0);
    }
}

/// One point of the curve for a poll time of 600 seconds, from the exponents
/// and significands of the three doubles that depend on `t`.
proof fn lemma_default_step(
    t: nat,
    k3: nat,
    u3: nat,
    m3: nat,
    k4: nat,
    u4: nat,
    m4: nat,
    k5: nat,
    u5: nat,
    m5: nat,
)
    requires
        u3 == pow2(k3) && u4 == pow2(k4) && u5 == pow2(k5),
        k3 > 0 && k4 > 0 && k5 > 0,
        0x10_0000_0000_0000 * u3 <= (t * one()) / 3 < 0x20_0000_0000_0000 * u3,
        half_even(t * one(), 3 * u3) == m3,
        0x10_0000_0000_0000 * u4 <= t * (u3 * m3) < 0x20_0000_0000_0000 * u4,
        half_even(t * (u3 * m3), u4) == m4,
        0x10_0000_0000_0000 * u5 <= 6 * (u4 * m4) < 0x20_0000_0000_0000 * u5,
        half_even(6 * (u4 * m4), u5) == m5,
    ensures
        curve(600, t) == (u5 * m5) / one(),
{
    vstd::arithmetic::power2::lemma2_to64();
    lemma_nearest_is(600 * one(), 1, 21, 0x20_0000, 600 * 0x800_0000_0000);
    lemma_nearest_is(600 * one(), 100, 14, 0x4000, 6 * 0x4_0000_0000_0000);
    lemma_nearest_is(t * one(), 3, k3, u3, m3);
    let third = u3 * m3;
    lemma_nearest_is(t * third, 1, k4, u4, m4);
    let square = u4 * m4;
    lemma_nearest_is(6 * square, 1, k5, u5, m5);
    lemma_nearest_reduce(6 * square, 1, one());
    assert((6 * one()) * square == (6 * square) * one()) by (nonlinear_arith);
}

/// The curve for a poll time of 600 seconds is `2 * t * t` until it reaches
/// 600, but for `t == 11`, where rounding leaves it one second short.
pub proof fn lemma_default_curve(t: nat)
    requires
        t > 0,
    ensures
        t < 18 && t != 11 ==> curve(600, t) == 2 * t * t,
        t == 11 ==> curve(600, t) == 241,
        t >= 18 ==> curve(600, t) >= 600,
{
    vstd::arithmetic::power2::lemma2_to64();
    if t == 1 {
        lemma_default_step(1, 10, 1024, 0x15_5555_5555_5555, 10, 1024, 0x15_5555_5555_5555, 12, 4096, 0x20_0000_0000_0000);
        assert(2 * t * t == 2) by (nonlinear_arith)
            requires
                t == 1,
        ;
    } else if t == 2 {
        lemma_default_step(2, 11, 2048, 0x15_5555_5555_5555, 12, 4096, 0x15_5555_5555_5555, 14, 16384, 0x20_0000_0000_0000);
        assert(2 * t * t == 8) by (nonlinear_arith)
            requires
                t == 2,
        ;
    } else if t == 3 {
        lemma_default_step(3, 12, 4096, 0x10_0000_0000_0000, 13, 8192, 0x18_0000_0000_0000, 16, 65536, 0x12_0000_0000_0000);
        assert(2 * t * t == 18) by (nonlinear_arith)
            requires
                t == 3,
        ;
    } else if t == 4 {
        lemma_default_step(4, 12, 4096, 0x15_5555_5555_5555, 14, 16384, 0x15_5555_5555_5555, 16, 65536, 0x20_0000_0000_0000);
        assert(2 * t * t == 32) by (nonlinear_arith)
            requires
                t == 4,
        ;
    } else if t == 5 {
        lemma_default_step(5, 12, 4096, 0x1a_aaaa_aaaa_aaab, 15, 32768, 0x10_aaaa_aaaa_aaab, 17, 131072, 0x19_0000_0000_0000);
        assert(2 * t * t == 50) by (nonlinear_arith)
            requires
                t == 5,
        ;
    } else if t == 6 {
        lemma_default_step(6, 13, 8192, 0x10_0000_0000_0000, 15, 32768, 0x18_0000_0000_0000, 18, 262144, 0x12_0000_0000_0000);
        assert(2 * t * t == 72) by (nonlinear_arith)
            requires
                t == 6,
        ;
    } else if t == 7 {
        lemma_default_step(7, 13, 8192, 0x12_aaaa_aaaa_aaab, 16, 65536, 0x10_5555_5555_5556, 18, 262144, 0x18_8000_0000_0001);
        assert(2 * t * t == 98) by (nonlinear_arith)
            requires
                t == 7,
        ;
    } else if t == 8 {
        lemma_default_step(8, 13, 8192, 0x15_5555_5555_5555, 16, 65536, 0x15_5555_5555_5555, 18, 262144, 0x20_0000_0000_0000);
        assert(2 * t * t == 128) by (nonlinear_arith)
            requires
                t == 8,
        ;
    } else if t == 9 {
        lemma_default_step(9, 13, 8192, 0x18_0000_0000_0000, 16, 65536, 0x1b_0000_0000_0000, 19, 524288, 0x14_4000_0000_0000);
        assert(2 * t * t == 162) by (nonlinear_arith)
            requires
                t == 9,
        ;
    } else if t == 10 {
        lemma_default_step(10, 13, 8192, 0x1a_aaaa_aaaa_aaab, 17, 131072, 0x10_aaaa_aaaa_aaab, 19, 524288, 0x19_0000_0000_0000);
        assert(2 * t * t == 200) by (nonlinear_arith)
            requires
                t == 10,
        ;
    } else if t == 11 {
        lemma_default_step(11, 13, 8192, 0x1d_5555_5555_5555, 17, 131072, 0x14_2aaa_aaaa_aaaa, 19, 524288, 0x1e_3fff_ffff_ffff);
        assert(2 * t * t == 242) by (nonlinear_arith)
            requires
                t == 11,
        ;
    } else if t == 12 {
        lemma_default_step(12, 14, 16384, 0x10_0000_0000_0000, 17, 131072, 0x18_0000_0000_0000, 20, 1048576, 0x12_0000_0000_0000);
        assert(2 * t * t == 288) by (nonlinear_arith)
            requires
                t == 12,
        ;
    } else if t == 13 {
        lemma_default_step(13, 14, 16384, 0x11_5555_5555_5555, 17, 131072, 0x1c_2aaa_aaaa_aaaa, 20, 1048576, 0x15_2000_0000_0000);
        assert(2 * t * t == 338) by (nonlinear_arith)
            requires
                t == 13,
        ;
    } else if t == 14 {
        lemma_default_step(14, 14, 16384, 0x12_aaaa_aaaa_aaab, 18, 262144, 0x10_5555_5555_5556, 20, 1048576, 0x18_8000_0000_0001);
        assert(2 * t * t == 392) by (nonlinear_arith)
            requires
                t == 14,
        ;
    } else if t == 15 {
        lemma_default_step(15, 14, 16384, 0x14_0000_0000_0000, 18, 262144, 0x12_c000_0000_0000, 20, 1048576, 0x1c_2000_0000_0000);
        assert(2 * t * t == 450) by (nonlinear_arith)
            requires
                t == 15,
        ;
    } else if t == 16 {
        lemma_default_step(16, 14, 16384, 0x15_5555_5555_5555, 18, 262144, 0x15_5555_5555_5555, 20, 1048576, 0x20_0000_0000_0000);
        assert(2 * t * t == 512) by (nonlinear_arith)
            requires
                t == 16,
        ;
    } else if t == 17 {
        lemma_default_step(17, 14, 16384, 0x16_aaaa_aaaa_aaab, 18, 262144, 0x18_1555_5555_5556, 21, 2097152, 0x12_1000_0000_0000);
        assert(2 * t * t == 578) by (nonlinear_arith)
            requires
                t == 17,
        ;
    } else {
        lemma_curve_reaches(600, t);
    }
}

/// How close the double nearest to a value is to it.
proof fn lemma_nearest_close(num: nat, den: nat)
    requires
        den > 0,
        num >= 0x20_0000_0000_0000 * den,
    ensures
        0x1f_ffff_ffff_ffff * num <= 0x20_0000_0000_0000 * (den * nearest(num, den)),
        0x20_0000_0000_0000 * (den * nearest(num, den)) <= 0x20_0000_0000_0001 * num,
{
    let q = num / den;
    let u = ulp(q);
    lemma_div_mod(num, den);
    lemma_ulp_pos(q);
    lemma_ulp_bracket(q);
    assert(q >= 0x20_0000_0000_0000) by (nonlinear_arith)
        requires
            num >= 0x20_0000_0000_0000 * den,
            num == q * den + num % den,
            num % den < den,
            den > 0,
    ;
    let step = den * u;
    assert(step > 0) by (nonlinear_arith)
        requires
            den > 0,
            u > 0,
            step == den * u,
    ;
    lemma_div_mod(num, step);
    let h = half_even(num, step);
    let below = num / step;
    let rest = num % step;
    if h != below {
        assert(h * step == below * step + step) by (nonlinear_arith)
            requires
                h == below + 1,
        ;
    }
    assert(2 * (h * step) <= 2 * num + step && 2 * num <= 2 * (h * step) + step);
    assert(0x10_0000_0000_0000 * step <= num) by (nonlinear_arith)
        requires
            0x10_0000_0000_0000 * u <= q,
            q * den <= num,
            step == den * u,
            den > 0,
    ;
    assert(den * nearest(num, den) == h * step) by (nonlinear_arith)
        requires
            nearest(num, den) == u * h,
            step == den * u,
    ;
}

/// Five roundings in a row move a product by less than six parts in 2^53.
proof fn lemma_five_roundings(x: nat, y: nat)
    requires
        0x1f_ffff_ffff_ffff * (0x1f_ffff_ffff_ffff * (0x1f_ffff_ffff_ffff * (0x1f_ffff_ffff_ffff
            * (0x1f_ffff_ffff_ffff * x)))) <= 0x20_0000_0000_0000 * (0x20_0000_0000_0000 * (
        0x20_0000_0000_0000 * (0x20_0000_0000_0000 * (0x20_0000_0000_0000 * y)))),
        0x20_0000_0000_0000 * (0x20_0000_0000_0000 * (0x20_0000_0000_0000 * (0x20_0000_0000_0000
            * (0x20_0000_0000_0000 * y)))) <= 0x20_0000_0000_0001 * (0x20_0000_0000_0001 * (
        0x20_0000_0000_0001 * (0x20_0000_0000_0001 * (0x20_0000_0000_0001 * x)))),
    ensures
        0x20_0000_0000_0000 * y <= 0x20_0000_0000_0006 * x,
        0x1f_ffff_ffff_fffa * x <= 0x20_0000_0000_0000 * y,
{
}

/// Two bounds, multiplied.
proof fn lemma_product(a: nat, p: nat, q: nat, b: nat, r: nat, s: nat)
    requires
        a * (a * p) <= b * (b * r),
        a * (a * q) <= b * (b * s),
    ensures
        a * (a * (a * (a * (p * q)))) <= b * (b * (b * (b * (r * s)))),
{
    let (w, x, y, z) = (a * (a * p), a * (a * q), b * (b * r), b * (b * s));
    assert(w * x <= y * z) by (nonlinear_arith)
        requires
            w <= y,
            x <= z,
    ;
    assert(w * x == a * (a * (a * (a * (p * q))))) by (nonlinear_arith)
        requires
            w == a * (a * p),
            x == a * (a * q),
    ;
    assert(y * z == b * (b * (b * (b * (r * s))))) by (nonlinear_arith)
        requires
            y == b * (b * r),
            z == b * (b * s),
    ;
}

/// The curve is `poll * t * t / 300` with the fraction dropped, or at most one less.
pub proof fn lemma_curve_close(poll: nat, t: nat)
    requires
        poll > 0,
        t > 0,
        6 * (poll * (t * t)) < 0x20_0000_0000_0000,
    ensures
        300 * curve(poll, t) <= poll * (t * t),
        poll * (t * t) <= 300 * (curve(poll, t) + 1),
{
    lemma_curve_near(poll, t);
}

/// The curve is `poll * t * t / 300` but for the roundings and the fraction.
pub proof fn lemma_curve_near(poll: nat, t: nat)
    requires
        poll > 0,
        t > 0,
    ensures
        0x20_0000_0000_0000 * (300 * curve(poll, t)) <= 0x20_0000_0000_0006 * (poll * (t * t)),
        0x1f_ffff_ffff_fffa * (poll * (t * t)) < 0x20_0000_0000_0000 * (300 * (curve(poll, t)
            + 1)),
{
    let e = 0x20_0000_0000_0000nat;
    let a = 0x1f_ffff_ffff_ffffnat;
    let b = 0x20_0000_0000_0001nat;
    let whole = nearest(poll * one(), 1);
    let percent = nearest(whole, 100);
    let third = nearest(t * one(), 3);
    let square = nearest(t * third, 1);
    let last = nearest(percent * square, one());
    lemma_nearest_close(poll * one(), 1);
    lemma_nearest_close(whole, 100);
    lemma_nearest_close(t * one(), 3);
    assert(t * third >= third) by (nonlinear_arith)
        requires
            t > 0,
    ;
    lemma_nearest_close(t * third, 1);
    assert(percent >= 0x200_0000_0000_0000 && square >= 0x4000_0000_0000_0000);
    assert(percent * square >= e * one()) by (nonlinear_arith)
        requires
            percent >= 0x200_0000_0000_0000,
            square >= 0x4000_0000_0000_0000,
            e == 0x20_0000_0000_0000,
            one() == 0x1_0000_0000_0000_0000,
    ;
    lemma_nearest_close(percent * square, one());
    let p = poll * one();
    // The percent of the interval.
    assert(a * (a * p) <= e * (e * (100 * percent)));
    assert(e * (e * (100 * percent)) <= b * (b * p));
    // The square of the count.
    let tt = t * (t * one());
    assert(a * (a * tt) <= e * (e * (3 * square)) && e * (e * (3 * square)) <= b * (b * tt)) by {
        assert(t * (3 * third) == 3 * (t * third)) by (nonlinear_arith);
        assert(a * tt <= e * (3 * (t * third)) && e * (3 * (t * third)) <= b * tt)
            by (nonlinear_arith)
            requires
                tt == t * (t * one()),
                a * (t * one()) <= e * (3 * third),
                e * (3 * third) <= b * (t * one()),
                t * (3 * third) == 3 * (t * third),
        ;
    }
    // Their product.
    let ps = percent * square;
    let x = p * tt;
    assert(a * (a * (a * (a * x))) <= e * (e * (e * (e * (300 * ps))))) by {
        lemma_product(a, p, tt, e, 100 * percent, 3 * square);
        assert((100 * percent) * (3 * square) == 300 * ps) by (nonlinear_arith)
            requires
                ps == percent * square,
        ;
    }
    assert(e * (e * (e * (e * (300 * ps)))) <= b * (b * (b * (b * x)))) by {
        lemma_product(e, 100 * percent, 3 * square, b, p, tt);
        assert((100 * percent) * (3 * square) == 300 * ps) by (nonlinear_arith)
            requires
                ps == percent * square,
        ;
    }
    let y = 300 * (one() * last);
    assert(a * (a * (a * (a * (a * x)))) <= e * (e * (e * (e * (e * y)))));
    assert(e * (e * (e * (e * (e * y)))) <= b * (b * (b * (b * (b * x)))));
    lemma_five_roundings(x, y);
    // Both sides are multiples of one unit squared.
    let n = poll * (t * t);
    assert(x == n * one() * one()) by (nonlinear_arith)
        requires
            x == p * tt,
            p == poll * one(),
            tt == t * (t * one()),
            n == poll * (t * t),
    ;
    lemma_div_mod(last, one());
}

} // verus!
