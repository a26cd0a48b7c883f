//! Single-precision rounding of positive ratios, in integers.
//!
//! Fitting a picture to a terminal is defined by single-precision division and
//! multiplication. Both are modelled here exactly: the ratio is scaled by a
//! power of two until its integer part has 24 bits, and rounded to the nearest
//! integer with ties going to the even one.
use vstd::prelude::*;

verus! {

/// Significant values below this one are exact in single precision: `2^24`.
pub const SINGLE_EXACT: u128 = 0x100_0000;

/// The least 24-bit significand: `2^23`.
pub const SINGLE_LEAST: u128 = 0x80_0000;

/// `n / d` rounded to the nearest integer, ties to the even one.
pub open spec fn round_ties_even(n: nat, d: nat) -> nat {
    let q = n / d;
    let r = n % d;
    if 2 * r < d || (2 * r == d && q % 2 == 0) {
        q
    } else {
        q + 1
    }
}

/// The least power of two by which `n / d` has to be multiplied to have a
/// 24-bit integer part.
pub open spec fn single_scale(n: nat, d: nat) -> nat
    decreases SINGLE_EXACT * d - n,
{
    if n == 0 || n >= SINGLE_LEAST * d {
        1
    } else {
        2 * single_scale(2 * n, d)
    }
}

/// The significand of the single-precision number nearest to `n / d`: the
/// number itself is `single_significand(n, d) / single_scale(n, d)`.
pub open spec fn single_significand(n: nat, d: nat) -> nat {
    round_ties_even(n * single_scale(n, d), d)
}

/// The power of two that divides every single-precision number near `n`.
pub open spec fn single_step(n: nat) -> nat
    decreases n,
{
    if n < SINGLE_EXACT {
        1
    } else {
        2 * single_step(n / 2)
    }
}

/// The single-precision number nearest to the integer `n`.
pub open spec fn single_of_integer(n: nat) -> nat {
    round_ties_even(n, single_step(n)) * single_step(n)
}

/// A positive single-precision number, `significand / scale`.
#[derive(Clone, Copy)]
pub(crate) struct Single {
    pub(crate) significand: u128,
    pub(crate) scale: u128,
}

/// Rounds `n / d` to the nearest integer, ties to the even one.
fn nearest(n: u128, d: u128) -> (r: u128)
    requires
        0 < d <= u128::MAX / 2,
        n < u128::MAX,
    ensures
        r == round_ties_even(n as nat, d as nat),
{
    let q: u128 = n / d;
    let rest: u128 = n % d;
    proof {
        assert(q <= n) by (nonlinear_arith)
            requires
                q == n / d,
                d > 0,
        ;
        assert(rest < d);
    }
    if 2 * rest < d || (2 * rest == d && q % 2 == 0) {
        q
    } else {
        q + 1
    }
}

/// The scale keeps the numerator within one binade of `d`.
proof fn lemma_single_scale(n: nat, d: nat)
    requires
        0 < n < SINGLE_EXACT * d,
    ensures
        single_scale(n, d) >= 1,
        SINGLE_LEAST * d <= n * single_scale(n, d) < SINGLE_EXACT * d,
    decreases SINGLE_EXACT * d - n,
{
    if n < SINGLE_LEAST * d {
        lemma_single_scale(2 * n, d);
        let s = single_scale(2 * n, d);
        assert((2 * n) * s == n * (2 * s)) by (nonlinear_arith);
    }
}

/// The scale is no larger than it has to be.
pub(crate) proof fn lemma_scale_bound(n: nat, d: nat)
    requires
        0 < n < SINGLE_EXACT * d,
    ensures
        single_scale(n, d) < SINGLE_EXACT * d,
{
    lemma_single_scale(n, d);
    let s = single_scale(n, d);
    assert(s <= n * s) by (nonlinear_arith)
        requires
            n >= 1,
            s >= 0,
    ;
}

/// Rounding moves a positive ratio up by at most one part in `2^24`.
pub(crate) proof fn lemma_single_bound(n: nat, d: nat)
    requires
        0 < n < SINGLE_EXACT * d,
    ensures
        single_scale(n, d) >= 1,
        SINGLE_LEAST <= single_significand(n, d) <= SINGLE_EXACT,
        SINGLE_EXACT * (single_significand(n, d) * d) <= (SINGLE_EXACT + 1) * (n * single_scale(
            n,
            d,
        )),
{
    lemma_single_scale(n, d);
    let c = single_scale(n, d);
    let x = n * c;
    let q = x / d;
    let r = x % d;
    let m = single_significand(n, d);
    assert(d > 0);
    vstd::arithmetic::div_mod::lemma_fundamental_div_mod(x as int, d as int);
    assert(x == d * q + r);
    assert(SINGLE_LEAST <= q < SINGLE_EXACT) by (nonlinear_arith)
        requires
            x == d * q + r,
            0 <= r < d,
            SINGLE_LEAST * d <= x < SINGLE_EXACT * d,
    ;
    assert(m == q || m == q + 1);
    assert(2 * (m * d) <= 2 * x + d) by {
        if m == q {
            assert(m * d == d * q) by (nonlinear_arith)
                requires
                    m == q,
            ;
        } else {
            assert(m * d == d * q + d) by (nonlinear_arith)
                requires
                    m == q + 1,
            ;
            assert(2 * r >= d);
        }
    }
}

/// The single-precision number nearest to `n / d`.
pub(crate) fn single(n: u128, d: u128) -> (s: Single)
    requires
        0 < d <= 0x1_0000_0000_0000_0000,
        0 < n < SINGLE_EXACT * d,
    ensures
        s.scale == single_scale(n as nat, d as nat),
        s.significand == single_significand(n as nat, d as nat),
{
    let mut top: u128 = n;
    let mut scale: u128 = 1;
    proof {
        lemma_single_scale(n as nat, d as nat);
    }
    while top < SINGLE_LEAST * d
        invariant
            0 < d <= 0x1_0000_0000_0000_0000,
            0 < n,
            0 < top < SINGLE_EXACT * d,
            scale >= 1,
            top == n * scale,
            scale <= top,
            single_scale(n as nat, d as nat) == scale * single_scale(top as nat, d as nat),
        decreases SINGLE_EXACT * d - top,
    {
        proof {
            let rest = single_scale((2 * top) as nat, d as nat);
            assert(scale * (2 * rest) == (2 * scale) * rest) by (nonlinear_arith);
            assert(n * (2 * scale) == 2 * (n * scale)) by (nonlinear_arith);
        }
        top = 2 * top;
        scale = 2 * scale;
    }
    proof {
        assert(scale * 1 == scale);
        assert(single_scale(top as nat, d as nat) == 1);
    }
    Single { significand: nearest(top, d), scale }
}

/// The single-precision number nearest to a 32-bit integer.
pub(crate) fn single_from_u32(n: u32) -> (s: u128)
    ensures
        s == single_of_integer(n as nat),
        n > 0 ==> 0 < s,
        s <= 0x2_0000_0000,
{
    let mut step: u128 = 1;
    let mut rest: u128 = n as u128;
    let whole: u128 = n as u128;
    while rest >= SINGLE_EXACT
        invariant
            whole == n,
            1 <= step,
            step == 1 || rest >= SINGLE_LEAST,
            step * rest <= whole,
            whole < step * (rest + 1),
            step * single_step(rest as nat) == single_step(n as nat),
        decreases rest,
    {
        proof {
            let half = rest / 2;
            let inner = single_step(half as nat);
            assert(step * (2 * inner) == (2 * step) * inner) by (nonlinear_arith);
            assert((2 * step) * half <= step * rest) by (nonlinear_arith)
                requires
                    2 * half <= rest,
                    step >= 1,
            ;
            assert(step * (rest + 1) <= (2 * step) * (half + 1)) by (nonlinear_arith)
                requires
                    rest + 1 <= 2 * (half + 1),
                    step >= 1,
            ;
            assert(2 * step <= u32::MAX) by (nonlinear_arith)
                requires
                    (2 * step) * half <= n,
                    half >= 1,
                    step >= 1,
                    n <= u32::MAX,
            ;
        }
        rest = rest / 2;
        step = 2 * step;
    }
    proof {
        assert(single_step(rest as nat) == 1);
        assert(step * 1 == step);
        assert(step < 512) by (nonlinear_arith)
            requires
                step * rest <= n,
                step == 1 || rest >= SINGLE_LEAST,
                step >= 1,
                n <= u32::MAX,
        ;
    }
    let m: u128 = nearest(whole, step);
    proof {
        let q = whole / step;
        assert(q == rest) by (nonlinear_arith)
            requires
                step >= 1,
                step * rest <= whole,
                whole < step * (rest + 1),
                q == whole / step,
        ;
        assert(m * step <= 0x100_0000 * 512) by (nonlinear_arith)
            requires
                m <= 0x100_0000,
                0 <= step < 512,
        ;
        assert(n > 0 ==> m * step > 0) by {
            if n > 0 {
                assert(m >= 1);
                assert(m * step > 0) by (nonlinear_arith)
                    requires
                        m >= 1,
                        step >= 1,
                ;
            }
        }
    }
    m * step
}

/// Integer part of the single-precision product of the integer `f` and the
/// number `significand / scale`.
pub open spec fn scaled(f: nat, significand: nat, scale: nat) -> nat {
    single_significand(f * significand, scale) / single_scale(f * significand, scale)
}

/// Bounds a product by `a`, given that its second factor is at most the rounded
/// quotient `m / c` of `a` by `f`.
proof fn lemma_product_bound(e: int, f: int, a: int, m: int, c: int, significand: int, scale: int)
    requires
        e > 0,
        f > 0,
        c > 0,
        scale > 0,
        e * (m * f) <= (e + 1) * (a * c),
        significand * c <= m * scale,
    ensures
        e * (f * significand) <= (e + 1) * (a * scale),
{
    let left = e * (f * significand);
    let right = (e + 1) * (a * scale);
    assert(left * c == (e * f) * (significand * c)) by (nonlinear_arith)
        requires
            left == e * (f * significand),
    ;
    assert((e * f) * (significand * c) <= (e * f) * (m * scale)) by (nonlinear_arith)
        requires
            significand * c <= m * scale,
            e > 0,
            f > 0,
    ;
    assert((e * f) * (m * scale) == (e * (m * f)) * scale) by (nonlinear_arith);
    assert((e * (m * f)) * scale <= ((e + 1) * (a * c)) * scale) by (nonlinear_arith)
        requires
            e * (m * f) <= (e + 1) * (a * c),
            scale > 0,
    ;
    assert(((e + 1) * (a * c)) * scale == right * c) by (nonlinear_arith)
        requires
            right == (e + 1) * (a * scale),
    ;
    assert(left <= right) by (nonlinear_arith)
        requires
            left * c <= right * c,
            c > 0,
    ;
}

/// Rounding a product that exceeds `a` by at most one part in `2^24` leaves it
/// below `a + 1`.
proof fn lemma_rounded_product(e: int, a: int, n: int, scale: int, pm: int, pc: int)
    requires
        e == SINGLE_EXACT,
        0 < a < 0x2_0000,
        scale > 0,
        pc > 0,
        e * (pm * scale) <= (e + 1) * (n * pc),
        e * n <= (e + 1) * (a * scale),
    ensures
        pm < (a + 1) * pc,
{
    let g = e + 1;
    let big = e * e;
    let wide = g * g;
    assert((big * pm) * scale == e * (e * (pm * scale))) by (nonlinear_arith)
        requires
            big == e * e,
    ;
    assert(e * (e * (pm * scale)) <= e * (g * (n * pc))) by (nonlinear_arith)
        requires
            e * (pm * scale) <= g * (n * pc),
            e > 0,
    ;
    assert(e * (g * (n * pc)) == (g * pc) * (e * n)) by (nonlinear_arith);
    assert((g * pc) * (e * n) <= (g * pc) * (g * (a * scale))) by (nonlinear_arith)
        requires
            e * n <= g * (a * scale),
            g > 0,
            pc > 0,
    ;
    assert((g * pc) * (g * (a * scale)) == (wide * (a * pc)) * scale) by (nonlinear_arith)
        requires
            wide == g * g,
    ;
    assert(big * pm <= wide * (a * pc)) by (nonlinear_arith)
        requires
            (big * pm) * scale <= (wide * (a * pc)) * scale,
            scale > 0,
    ;
    let p = a * pc;
    assert(wide == big + 2 * e + 1) by (nonlinear_arith)
        requires
            wide == g * g,
            g == e + 1,
            big == e * e,
    ;
    assert(wide * p == big * p + (2 * e + 1) * p) by (nonlinear_arith)
        requires
            wide == big + 2 * e + 1,
    ;
    assert(big == 0x1_0000_0000_0000) by (nonlinear_arith)
        requires
            big == e * e,
            e == 0x100_0000,
    ;
    assert(p < 0x2_0000 * pc) by (nonlinear_arith)
        requires
            p == a * pc,
            a < 0x2_0000,
            pc > 0,
    ;
    assert(pm < p + pc) by (nonlinear_arith)
        requires
            big * pm <= big * p + (2 * e + 1) * p,
            big == 0x1_0000_0000_0000,
            e == 0x100_0000,
            p < 0x2_0000 * pc,
            pc > 0,
    ;
    assert((a + 1) * pc == p + pc) by (nonlinear_arith)
        requires
            p == a * pc,
    ;
}

/// Multiplying `f` by a number that is at most the rounded quotient `a / f`
/// gives at most `a`, rounding errors included.
pub(crate) proof fn lemma_scaled_bound(f: nat, a: nat, significand: nat, scale: nat)
    requires
        0 < f,
        0 < a < 0x2_0000,
        0 < significand,
        0 < scale,
        significand * single_scale(a, f) <= single_significand(a, f) * scale,
    ensures
        0 < f * significand < SINGLE_EXACT * scale,
        scaled(f, significand, scale) <= a,
{
    let e = SINGLE_EXACT as int;
    let n = f * significand;
    lemma_single_bound(a, f);
    lemma_product_bound(
        e,
        f as int,
        a as int,
        single_significand(a, f) as int,
        single_scale(a, f) as int,
        significand as int,
        scale as int,
    );
    assert(0 < n) by (nonlinear_arith)
        requires
            n == f * significand,
            f > 0,
            significand > 0,
    ;
    let t = a * scale;
    assert(t < 0x2_0000 * scale) by (nonlinear_arith)
        requires
            t == a * scale,
            a < 0x2_0000,
            scale > 0,
    ;
    lemma_single_bound(n, scale);
    let pm = single_significand(n, scale) as int;
    let pc = single_scale(n, scale) as int;
    lemma_rounded_product(e, a as int, n as int, scale as int, pm, pc);
    assert(pm / pc <= a) by (nonlinear_arith)
        requires
            pm < (a + 1) * pc,
            pc >= 1,
            pm >= 0,
    ;
}

/// The step of an integer is no larger than the integer.
proof fn lemma_step_bound(n: nat)
    requires
        n > 0,
    ensures
        0 < single_step(n) <= n,
    decreases n,
{
    if n >= SINGLE_EXACT {
        lemma_step_bound(n / 2);
    }
}

/// A positive integer stays positive when it is rounded.
pub(crate) proof fn lemma_single_of_integer_positive(n: nat)
    requires
        n > 0,
    ensures
        single_of_integer(n) > 0,
{
    lemma_step_bound(n);
    let d = single_step(n);
    assert(n / d >= 1) by (nonlinear_arith)
        requires
            0 < d <= n,
    ;
    let q = round_ties_even(n, d);
    assert(q * d > 0) by (nonlinear_arith)
        requires
            q >= 1,
            d > 0,
    ;
}

/// Rounding moves a positive ratio down by at most one part in `2^24`.
pub(crate) proof fn lemma_single_lower_bound(n: nat, d: nat)
    requires
        0 < n < SINGLE_EXACT * d,
    ensures
        (SINGLE_EXACT - 1) * (n * single_scale(n, d)) <= SINGLE_EXACT * (single_significand(n, d)
            * d),
{
    lemma_single_scale(n, d);
    let x = n * single_scale(n, d);
    let q = x / d;
    let r = x % d;
    let m = single_significand(n, d);
    vstd::arithmetic::div_mod::lemma_fundamental_div_mod(x as int, d as int);
    assert(2 * (m * d) >= 2 * x - d) by {
        if m == q {
            assert(m * d == d * q) by (nonlinear_arith)
                requires
                    m == q,
            ;
        } else {
            assert(m * d == d * q + d) by (nonlinear_arith)
                requires
                    m == q + 1,
            ;
        }
    }
}

/// The integer part of a single-precision product is off by less than one, but for
/// one part in `2^24`.
pub(crate) proof fn lemma_scaled_is_close(f: nat, significand: nat, scale: nat)
    requires
        0 < f * significand < SINGLE_EXACT * scale,
    ensures
        SINGLE_EXACT * (scaled(f, significand, scale) * scale) <= (SINGLE_EXACT + 1) * (f
            * significand),
        (SINGLE_EXACT - 1) * (f * significand) < SINGLE_EXACT * ((scaled(f, significand, scale)
            + 1) * scale),
{
    let p = (f * significand) as int;
    let s = scale as int;
    lemma_single_bound(p as nat, scale);
    lemma_single_lower_bound(p as nat, scale);
    let m = single_significand(p as nat, scale) as int;
    let c = single_scale(p as nat, scale) as int;
    let r = scaled(f, significand, scale) as int;
    vstd::arithmetic::div_mod::lemma_fundamental_div_mod(m, c);
    assert(r * c <= m < (r + 1) * c) by (nonlinear_arith)
        requires
            m == c * r + m % c,
            0 <= m % c < c,
    ;
    assert((r * s) * c <= m * s) by (nonlinear_arith)
        requires
            r * c <= m,
            s >= 0,
    ;
    assert(m * s < ((r + 1) * s) * c) by (nonlinear_arith)
        requires
            m < (r + 1) * c,
            s > 0,
    ;
    let (low, high) = (r * s, (r + 1) * s);
    let e = SINGLE_EXACT as int;
    assert(e * low <= (e + 1) * p) by (nonlinear_arith)
        requires
            e * (low * c) <= (e + 1) * (p * c),
            c > 0,
            e > 0,
    ;
    assert((e - 1) * p < e * high) by (nonlinear_arith)
        requires
            (e - 1) * (p * c) < e * (high * c),
            c > 0,
            e > 0,
    ;
}

/// Two lengths that are the integer parts of products with one factor stand in the
/// ratio of what was multiplied: `a` is at most its share of `b`, and one more.
pub(crate) proof fn lemma_ratio_is_kept(a: int, b: int, fa: int, fb: int, m: int, scale: int)
    requires
        a >= 0,
        0 <= b < 0x4_0000,
        fa > 0,
        fb > 0,
        m > 0,
        scale > 0,
        SINGLE_EXACT * (a * scale) <= (SINGLE_EXACT + 1) * (fa * m),
        (SINGLE_EXACT - 1) * (fb * m) < SINGLE_EXACT * (b * scale),
    ensures
        a * fb <= (b + 1) * fa,
{
    let x = (a * scale) * fb;
    let y = (b * scale) * fa;
    let z = scale * fa;
    let k = (fa * m) * fb;
    assert(SINGLE_EXACT * x <= (SINGLE_EXACT + 1) * k) by (nonlinear_arith)
        requires
            SINGLE_EXACT * (a * scale) <= (SINGLE_EXACT + 1) * (fa * m),
            x == (a * scale) * fb,
            k == (fa * m) * fb,
            fb > 0,
    ;
    assert((SINGLE_EXACT - 1) * k < SINGLE_EXACT * y) by (nonlinear_arith)
        requires
            (SINGLE_EXACT - 1) * (fb * m) < SINGLE_EXACT * (b * scale),
            y == (b * scale) * fa,
            k == (fa * m) * fb,
            fa > 0,
    ;
    assert(y == b * z) by (nonlinear_arith)
        requires
            y == (b * scale) * fa,
            z == scale * fa,
    ;
    assert(z > 0) by (nonlinear_arith)
        requires
            z == scale * fa,
            scale > 0,
            fa > 0,
    ;
    assert(y <= 0x4_0000 * z) by (nonlinear_arith)
        requires
            y == b * z,
            b < 0x4_0000,
            z > 0,
    ;
    assert(0x100_0000 * x <= 0x100_0001 * k && 0xff_ffff * k < 0x100_0000 * y)
        by (nonlinear_arith)
        requires
            SINGLE_EXACT == 0x100_0000,
            SINGLE_EXACT * x <= (SINGLE_EXACT + 1) * k,
            (SINGLE_EXACT - 1) * k < SINGLE_EXACT * y,
    ;
    assert(x < y + z);
    assert(a * fb <= (b + 1) * fa) by (nonlinear_arith)
        requires
            (a * scale) * fb < (b * scale) * fa + scale * fa,
            scale > 0,
    ;
}

/// A length that is the integer part of a product with its own quotient falls short
/// of it by at most one.
pub(crate) proof fn lemma_nearly_full(r: int, a: int, f: int, m: int, c: int)
    requires
        r >= 0,
        0 < a < 0x2_0000,
        c > 0,
        (SINGLE_EXACT - 1) * (f * m) < SINGLE_EXACT * ((r + 1) * c),
        (SINGLE_EXACT - 1) * (a * c) <= SINGLE_EXACT * (m * f),
    ensures
        r + 1 >= a,
{
    assert(f * m == m * f) by (nonlinear_arith);
    let x = (r + 1) * c;
    let y = a * c;
    let k = f * m;
    assert(0xff_ffff * k < 0x100_0000 * x && 0xff_ffff * y <= 0x100_0000 * k) by (nonlinear_arith)
        requires
            SINGLE_EXACT == 0x100_0000,
            (SINGLE_EXACT - 1) * k < SINGLE_EXACT * x,
            (SINGLE_EXACT - 1) * y <= SINGLE_EXACT * k,
    ;
    assert(y <= 0x2_0000 * c) by (nonlinear_arith)
        requires
            y == a * c,
            a < 0x2_0000,
            c > 0,
    ;
    if r + 1 < a {
        assert(x <= y - c) by (nonlinear_arith)
            requires
                x == (r + 1) * c,
                y == a * c,
                r + 1 <= a - 1,
                c > 0,
        ;
    }
}

/// Integers below `2^24` are exact in single precision.
pub proof fn small_integers_are_exact(n: nat)
    requires
        n < SINGLE_EXACT,
    ensures
        single_of_integer(n) == n,
{
    assert(n / 1 == n && n % 1 == 0);
    assert(single_step(n) == 1);
    assert(round_ties_even(n, 1) == n);
}

/// An integer that is not exact has at least 24 bits in units of its step.
proof fn lemma_step_is_small(n: nat)
    requires
        n > 0,
    ensures
        single_step(n) == 1 || SINGLE_LEAST * single_step(n) <= n,
    decreases n,
{
    if n >= SINGLE_EXACT {
        lemma_step_is_small(n / 2);
    }
}

/// Rounding an integer moves it by at most one part in `2^24`.
pub proof fn integers_are_nearly_exact(n: nat)
    requires
        n > 0,
    ensures
        0xff_ffff * n <= 0x100_0000 * single_of_integer(n) <= 0x100_0001 * n,
{
    if n < SINGLE_EXACT {
        small_integers_are_exact(n);
    } else {
        lemma_step_is_small(n);
        lemma_step_bound(n);
        let d = single_step(n) as int;
        let (q, r) = (n as int / d, n as int % d);
        let m = round_ties_even(n, d as nat) as int;
        vstd::arithmetic::div_mod::lemma_fundamental_div_mod(n as int, d);
        assert(d * q == q * d) by (nonlinear_arith);
        assert(2 * (m * d) <= 2 * n + d && 2 * n <= 2 * (m * d) + d) by {
            if m == q {
                assert(m * d == q * d);
            } else {
                assert(m * d == q * d + d) by (nonlinear_arith)
                    requires
                        m == q + 1,
                ;
            }
        }
        assert(d >= 2);
        assert(0x80_0000 * d <= n);
    }
}

/// What two roundings leave of an exact product: a length that is the integer part of
/// `f` times a rounded ratio `p / q` is that of the exact product, but for one part in
/// `2^24` for each rounding.
pub(crate) proof fn lemma_twice_rounded(e: int, f: int, m: int, c: int, p: int, q: int, r: int)
    requires
        e > 1,
        f > 0,
        c > 0,
        q > 0,
        e * (m * q) <= (e + 1) * (p * c),
        (e - 1) * (p * c) <= e * (m * q),
        e * (r * c) <= (e + 1) * (f * m),
        (e - 1) * (f * m) < e * ((r + 1) * c),
    ensures
        (e * e) * (r * q) <= ((e + 1) * (e + 1)) * (f * p),
        ((e - 1) * (e - 1)) * (f * p) < (e * e) * ((r + 1) * q),
{
    let (mq, pc, fm) = (m * q, p * c, f * m);
    lemma_twice_rounded_up(e, f, m, c, p, q, r);
    let x = (r + 1) * c;
    // (e - 1) * fm < e * x, times e * q
    assert(((e - 1) * fm) * (e * q) < (e * x) * (e * q)) by (nonlinear_arith)
        requires
            (e - 1) * fm < e * x,
            e > 0,
            q > 0,
    ;
    assert(((e - 1) * fm) * (e * q) == ((e - 1) * f) * (e * mq)) by (nonlinear_arith)
        requires
            fm == f * m,
            mq == m * q,
    ;
    assert(((e - 1) * f) * ((e - 1) * pc) <= ((e - 1) * f) * (e * mq)) by (nonlinear_arith)
        requires
            (e - 1) * pc <= e * mq,
            e > 1,
            f > 0,
    ;
    assert(((e - 1) * f) * ((e - 1) * pc) == (((e - 1) * (e - 1)) * (f * p)) * c)
        by (nonlinear_arith)
        requires
            pc == p * c,
    ;
    assert((e * x) * (e * q) == ((e * e) * ((r + 1) * q)) * c) by (nonlinear_arith)
        requires
            x == (r + 1) * c,
    ;
    let (left, right) = (((e - 1) * (e - 1)) * (f * p), (e * e) * ((r + 1) * q));
    assert(left < right) by (nonlinear_arith)
        requires
            left * c < right * c,
            c > 0,
    ;
}

/// The upper half of [`lemma_twice_rounded`].
proof fn lemma_twice_rounded_up(e: int, f: int, m: int, c: int, p: int, q: int, r: int)
    requires
        e > 1,
        f > 0,
        c > 0,
        q > 0,
        e * (m * q) <= (e + 1) * (p * c),
        e * (r * c) <= (e + 1) * (f * m),
    ensures
        (e * e) * (r * q) <= ((e + 1) * (e + 1)) * (f * p),
{
    let (mq, pc, fm, rc) = (m * q, p * c, f * m, r * c);
    assert((e * rc) * (e * q) <= ((e + 1) * fm) * (e * q)) by (nonlinear_arith)
        requires
            e * rc <= (e + 1) * fm,
            e > 0,
            q > 0,
    ;
    assert(((e + 1) * fm) * (e * q) == ((e + 1) * f) * (e * mq)) by (nonlinear_arith)
        requires
            fm == f * m,
            mq == m * q,
    ;
    assert(((e + 1) * f) * (e * mq) <= ((e + 1) * f) * ((e + 1) * pc)) by (nonlinear_arith)
        requires
            e * mq <= (e + 1) * pc,
            e > 1,
            f > 0,
    ;
    assert(((e + 1) * f) * ((e + 1) * pc) == (((e + 1) * (e + 1)) * (f * p)) * c)
        by (nonlinear_arith)
        requires
            pc == p * c,
    ;
    assert((e * rc) * (e * q) == ((e * e) * (r * q)) * c) by (nonlinear_arith)
        requires
            rc == r * c,
    ;
    let (left, right) = ((e * e) * (r * q), ((e + 1) * (e + 1)) * (f * p));
    assert(left <= right) by (nonlinear_arith)
        requires
            left * c <= right * c,
            c > 0,
    ;
}

/// The lesser of two rounded ratios is at most either ratio, but for one part in
/// `2^24`.
pub(crate) proof fn lemma_lesser_ratio(e: int, m: int, c: int, mo: int, co: int, a: int, f: int)
    requires
        e > 0,
        c > 0,
        co > 0,
        f > 0,
        m * co <= mo * c,
        e * (mo * f) <= (e + 1) * (a * co),
    ensures
        e * (m * f) <= (e + 1) * (a * c),
{
    assert((m * co) * (e * f) <= (mo * c) * (e * f)) by (nonlinear_arith)
        requires
            m * co <= mo * c,
            e > 0,
            f > 0,
    ;
    assert((mo * c) * (e * f) == (e * (mo * f)) * c) by (nonlinear_arith);
    assert((e * (mo * f)) * c <= ((e + 1) * (a * co)) * c) by (nonlinear_arith)
        requires
            e * (mo * f) <= (e + 1) * (a * co),
            c > 0,
    ;
    assert(((e + 1) * (a * co)) * c == ((e + 1) * (a * c)) * co) by (nonlinear_arith);
    assert((m * co) * (e * f) == (e * (m * f)) * co) by (nonlinear_arith);
    let (left, right) = (e * (m * f), (e + 1) * (a * c));
    assert(left <= right) by (nonlinear_arith)
        requires
            left * co <= right * co,
            co > 0,
    ;
}

/// A rounded ratio is at least a lesser one, but for one part in `2^24`.
pub(crate) proof fn lemma_greater_ratio(e: int, m: int, c: int, a: int, f: int, p: int, q: int)
    requires
        e > 1,
        c > 0,
        f > 0,
        q > 0,
        p * f <= a * q,
        (e - 1) * (a * c) <= e * (m * f),
    ensures
        (e - 1) * (p * c) <= e * (m * q),
{
    let k = (e - 1) * c;
    assert(k * (p * f) <= k * (a * q)) by (nonlinear_arith)
        requires
            p * f <= a * q,
            k == (e - 1) * c,
            e > 1,
            c > 0,
    ;
    assert(k * (a * q) == ((e - 1) * (a * c)) * q) by (nonlinear_arith)
        requires
            k == (e - 1) * c,
    ;
    assert(((e - 1) * (a * c)) * q <= (e * (m * f)) * q) by (nonlinear_arith)
        requires
            (e - 1) * (a * c) <= e * (m * f),
            q > 0,
    ;
    assert((e * (m * f)) * q == (e * (m * q)) * f) by (nonlinear_arith);
    assert(k * (p * f) == ((e - 1) * (p * c)) * f) by (nonlinear_arith)
        requires
            k == (e - 1) * c,
    ;
    let (left, right) = ((e - 1) * (p * c), e * (m * q));
    assert(left <= right) by (nonlinear_arith)
        requires
            left * f <= right * f,
            f > 0,
    ;
}

/// Rounding gives the nearest integer, and the even one of two that are equally near.
pub proof fn rounding_is_to_the_nearest(n: nat, d: nat)
    requires
        d > 0,
    ensures
        2 * (round_ties_even(n, d) * d) <= 2 * n + d,
        2 * n <= 2 * (round_ties_even(n, d) * d) + d,
        2 * (round_ties_even(n, d) * d) == 2 * n + d || 2 * n == 2 * (round_ties_even(n, d) * d)
            + d ==> round_ties_even(n, d) % 2 == 0,
{
    let (ni, di) = (n as int, d as int);
    let q = ni / di;
    vstd::arithmetic::div_mod::lemma_fundamental_div_mod(ni, di);
    assert(di * q == q * di) by (nonlinear_arith);
    assert((q + 1) * di == q * di + di) by (nonlinear_arith);
}

/// The significand of a rounded ratio has 24 bits, and no fewer.
pub proof fn significands_have_24_bits(n: nat, d: nat)
    requires
        0 < n < SINGLE_EXACT * d,
    ensures
        single_scale(n, d) >= 1,
        0x80_0000 <= single_significand(n, d) <= 0x100_0000,
        2 * (single_significand(n, d) * d) <= 2 * (n * single_scale(n, d)) + d,
        2 * (n * single_scale(n, d)) <= 2 * (single_significand(n, d) * d) + d,
{
    lemma_single_bound(n, d);
    rounding_is_to_the_nearest(n * single_scale(n, d), d);
}

} // verus!
