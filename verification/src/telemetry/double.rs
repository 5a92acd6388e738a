//! The double-precision value nearest a non-negative fraction `a / b`:
//! 53 significant bits, ties to even. The exponent range is not bounded
//! here; the sizes read with it either saturate when they would overflow
//! or round to zero when they would be subnormal, with or without a bound.

use vstd::arithmetic::power2::{lemma_pow2_adds, lemma_pow2_pos, lemma_pow2_strictly_increases, pow2};
use vstd::prelude::*;

use crate::size::round_half_even;

verus! {

/// Whether `a / b` is at least `2^e`.
pub open spec fn at_least_pow2(a: nat, b: nat, e: int) -> bool {
    if e >= 0 {
        a >= pow2(e as nat) * b
    } else {
        a * pow2((-e) as nat) >= b
    }
}

/// Whether `a / b` lies in `[2^(52+g), 2^(53+g))`, where the doubles are
/// `2^g` apart.
pub open spec fn in_binade(a: nat, b: nat, g: int) -> bool {
    at_least_pow2(a, b, 52 + g) && !at_least_pow2(a, b, 53 + g)
}

/// The spacing exponent of the doubles around `a / b` (for `a, b > 0`).
pub open spec fn binade(a: nat, b: nat) -> int {
    choose|g: int| in_binade(a, b, g)
}

/// The numerator of `a / b` scaled by `2^-g`.
pub open spec fn scaled_num(a: nat, g: int) -> nat {
    if g >= 0 { a } else { a * pow2((-g) as nat) }
}

/// The denominator of `a / b` scaled by `2^-g`.
pub open spec fn scaled_den(b: nat, g: int) -> nat {
    if g >= 0 { pow2(g as nat) * b } else { b }
}

/// The significand of the double nearest `a / b`: `a / b` scaled into
/// `[2^52, 2^53)` and rounded to an integer, ties to even (it reaches
/// `2^53` when rounding carries into the next binade).
pub open spec fn significand(a: nat, b: nat) -> nat {
    let g = binade(a, b);
    round_half_even(scaled_num(a, g), scaled_den(b, g))
}

/// `q * 2^h` rounded to the nearest integer, halves up.
pub open spec fn round_scaled(q: nat, h: int) -> nat {
    if h >= 0 {
        q * pow2(h as nat)
    } else {
        (2 * q + pow2((-h) as nat)) / (2 * pow2((-h) as nat))
    }
}

/// The double nearest `a / b`, multiplied by `2^j` (exactly: a power of
/// two only moves the exponent), then rounded to the nearest integer with
/// halves away from zero.
pub open spec fn double_times_pow2_rounded(a: nat, b: nat, j: nat) -> nat {
    if a == 0 {
        0
    } else {
        round_scaled(significand(a, b), binade(a, b) + j)
    }
}

/// Multiplying both sides by a positive factor keeps their order.
proof fn lemma_scale_le(x: nat, y: nat, c: nat)
    requires
        c > 0,
    ensures
        (x * c <= y * c) == (x <= y),
        (x * c < y * c) == (x < y),
{
    if x <= y {
        assert(x * c <= y * c) by (nonlinear_arith)
            requires
                x <= y,
                c > 0,
        ;
    } else {
        assert(x * c > y * c) by (nonlinear_arith)
            requires
                x > y,
                c > 0,
        ;
    }
    if x < y {
        assert(x * c < y * c) by (nonlinear_arith)
            requires
                x < y,
                c > 0,
        ;
    } else {
        assert(x * c >= y * c) by (nonlinear_arith)
            requires
                x >= y,
                c > 0,
        ;
    }
}

/// `in_binade` compares the scaled fraction with `2^52` and `2^53`.
pub proof fn lemma_binade_bounds(a: nat, b: nat, g: int)
    ensures
        in_binade(a, b, g) == (pow2(52) * scaled_den(b, g) <= scaled_num(a, g) && scaled_num(a, g) < pow2(53)
            * scaled_den(b, g)),
{
    lemma_at_least_scaled(a, b, g, 52);
    lemma_at_least_scaled(a, b, g, 53);
}

/// `a / b >= 2^(k+g)` compares the scaled fraction with `2^k`.
proof fn lemma_at_least_scaled(a: nat, b: nat, g: int, k: nat)
    ensures
        at_least_pow2(a, b, k + g) == (scaled_num(a, g) >= pow2(k) * scaled_den(b, g)),
{
    if g >= 0 {
        lemma_pow2_adds(k, g as nat);
        assert(pow2(k + g as nat) * b == pow2(k) * (pow2(g as nat) * b)) by (nonlinear_arith)
            requires
                pow2(k + g as nat) == pow2(k) * pow2(g as nat),
        ;
    } else {
        let ng = (-g) as nat;
        lemma_pow2_pos(ng);
        if k + g >= 0 {
            let e = (k + g) as nat;
            lemma_pow2_adds(e, ng);
            assert(e + ng == k);
            lemma_scale_le(pow2(e) * b, a, pow2(ng));
            assert(pow2(e) * b * pow2(ng) == pow2(k) * b) by (nonlinear_arith)
                requires
                    pow2(k) == pow2(e) * pow2(ng),
            ;
        } else {
            let e = (-(k + g)) as nat;
            lemma_pow2_adds(e, k);
            assert(e + k == ng);
            lemma_pow2_pos(k);
            lemma_scale_le(b, a * pow2(e), pow2(k));
            assert(a * pow2(e) * pow2(k) == a * pow2(ng)) by (nonlinear_arith)
                requires
                    pow2(ng) == pow2(e) * pow2(k),
            ;
            assert(b * pow2(k) == pow2(k) * b) by (nonlinear_arith);
        }
    }
}

/// A larger power of two is harder to reach.
pub proof fn lemma_at_least_mono(a: nat, b: nat, e1: int, e2: int)
    requires
        e1 <= e2,
        at_least_pow2(a, b, e2),
    ensures
        at_least_pow2(a, b, e1),
{
    if e1 >= 0 {
        if e1 < e2 {
            lemma_pow2_strictly_increases(e1 as nat, e2 as nat);
        }
        assert(pow2(e1 as nat) * b <= pow2(e2 as nat) * b) by (nonlinear_arith)
            requires
                pow2(e1 as nat) <= pow2(e2 as nat),
        ;
    } else if e2 >= 0 {
        lemma_pow2_pos(e2 as nat);
        lemma_pow2_pos((-e1) as nat);
        assert(a * pow2((-e1) as nat) >= b) by (nonlinear_arith)
            requires
                a >= pow2(e2 as nat) * b,
                pow2(e2 as nat) >= 1,
                pow2((-e1) as nat) >= 1,
        ;
    } else {
        if e1 < e2 {
            lemma_pow2_strictly_increases((-e2) as nat, (-e1) as nat);
        }
        assert(a * pow2((-e1) as nat) >= a * pow2((-e2) as nat)) by (nonlinear_arith)
            requires
                pow2((-e1) as nat) >= pow2((-e2) as nat),
        ;
    }
}

/// At most one spacing exponent fits.
pub proof fn lemma_binade_unique(a: nat, b: nat, g1: int, g2: int)
    requires
        in_binade(a, b, g1),
        in_binade(a, b, g2),
    ensures
        g1 == g2,
{
    if g1 < g2 {
        lemma_at_least_mono(a, b, 53 + g1, 52 + g2);
    } else if g2 < g1 {
        lemma_at_least_mono(a, b, 53 + g2, 52 + g1);
    }
}

/// Where exactly one exponent fits, `binade` is it.
pub proof fn lemma_binade_is(a: nat, b: nat, g: int)
    requires
        in_binade(a, b, g),
    ensures
        binade(a, b) == g,
{
    let c = binade(a, b);
    assert(in_binade(a, b, c));
    lemma_binade_unique(a, b, c, g);
}

/// `2^n` exceeds `n`.
proof fn lemma_pow2_exceeds(n: nat)
    ensures
        pow2(n) > n,
    decreases n,
{
    if n == 0 {
        assert(pow2(0) == 1) by {
            vstd::arithmetic::power2::lemma2_to64();
        }
    } else {
        lemma_pow2_exceeds((n - 1) as nat);
        vstd::arithmetic::power2::lemma_pow2_unfold(n);
        lemma_pow2_pos((n - 1) as nat);
    }
}

/// Between a power reached and one not reached lies a last one reached.
proof fn lemma_boundary(a: nat, b: nat, lo: int, hi: int) -> (e: int)
    requires
        lo < hi,
        at_least_pow2(a, b, lo),
        !at_least_pow2(a, b, hi),
    ensures
        at_least_pow2(a, b, e),
        !at_least_pow2(a, b, e + 1),
    decreases hi - lo,
{
    if at_least_pow2(a, b, lo + 1) {
        lemma_boundary(a, b, lo + 1, hi)
    } else {
        lo
    }
}

/// Every positive fraction has a spacing exponent.
pub proof fn lemma_binade_exists(a: nat, b: nat)
    requires
        a > 0,
        b > 0,
    ensures
        in_binade(a, b, binade(a, b)),
{
    lemma_pow2_exceeds(a);
    lemma_pow2_exceeds(b);
    assert(a * pow2(b) >= b) by (nonlinear_arith)
        requires
            a >= 1,
            pow2(b) > b,
    ;
    assert(!(a >= pow2(a) * b)) by (nonlinear_arith)
        requires
            b >= 1,
            pow2(a) > a,
    ;
    assert(at_least_pow2(a, b, -(b as int)));
    assert(!at_least_pow2(a, b, a as int));
    let e = lemma_boundary(a, b, -(b as int), a as int);
    assert(in_binade(a, b, e - 52));
}

/// Scaling a fraction by a common factor keeps its rounding.
pub proof fn lemma_round_common_factor(n: nat, d: nat, c: nat)
    requires
        d > 0,
        c > 0,
    ensures
        round_half_even(n * c, d * c) == round_half_even(n, d),
{
    let q = n / d;
    let r = n % d;
    vstd::arithmetic::div_mod::lemma_fundamental_div_mod(n as int, d as int);
    vstd::arithmetic::div_mod::lemma_mod_pos_bound(n as int, d as int);
    assert(n * c == q * (d * c) + r * c) by (nonlinear_arith)
        requires
            n == d * q + r,
    ;
    assert(r * c < d * c) by (nonlinear_arith)
        requires
            r < d,
            c > 0,
    ;
    assert(d * c > 0) by (nonlinear_arith)
        requires
            d > 0,
            c > 0,
    ;
    vstd::arithmetic::div_mod::lemma_fundamental_div_mod_converse(
        (n * c) as int,
        (d * c) as int,
        q as int,
        (r * c) as int,
    );
    lemma_scale_le(2 * r, d, c);
    lemma_scale_le(d, 2 * r, c);
    assert(2 * r * c == 2 * (r * c)) by (nonlinear_arith);
}

/// Multiplying `a` by `2^t` moves the spacing exponent by `t` and keeps
/// the significand.
pub proof fn lemma_binade_shift(a: nat, b: nat, t: nat, g: int)
    requires
        b > 0,
        in_binade(a * pow2(t), b, g),
    ensures
        in_binade(a, b, g - t),
        binade(a, b) == g - t,
        binade(a * pow2(t), b) == g,
        significand(a * pow2(t), b) == significand(a, b),
{
    let at = a * pow2(t);
    lemma_pow2_pos(t);
    lemma_binade_is(at, b, g);
    let h = g - t;
    // The scaled fractions of (a * 2^t, g) and (a, g - t) are equal up to a common factor.
    if h >= 0 {
        lemma_pow2_adds(h as nat, t);
        assert(scaled_num(at, g) == a * pow2(t));
        assert(scaled_den(b, g) == pow2(h as nat) * b * pow2(t)) by (nonlinear_arith)
            requires
                pow2(g as nat) == pow2(h as nat) * pow2(t),
                g >= 0,
                scaled_den(b, g) == pow2(g as nat) * b,
        ;
        assert(scaled_num(a, h) == a);
        assert(scaled_den(b, h) == pow2(h as nat) * b);
        lemma_pow2_pos(h as nat);
        assert(pow2(h as nat) * b > 0) by (nonlinear_arith)
            requires
                pow2(h as nat) > 0,
                b > 0,
        ;
        lemma_round_common_factor(a, pow2(h as nat) * b, pow2(t));
        lemma_binade_bounds(at, b, g);
        lemma_binade_bounds(a, b, h);
        lemma_pow2_pos(h as nat);
        lemma_scale_le(pow2(52) * (pow2(h as nat) * b), a, pow2(t));
        lemma_scale_le(a, pow2(53) * (pow2(h as nat) * b), pow2(t));
        assert(pow2(52) * (pow2(h as nat) * b) * pow2(t) == pow2(52) * scaled_den(b, g)) by (nonlinear_arith)
            requires
                scaled_den(b, g) == pow2(h as nat) * b * pow2(t),
        ;
        assert(pow2(53) * (pow2(h as nat) * b) * pow2(t) == pow2(53) * scaled_den(b, g)) by (nonlinear_arith)
            requires
                scaled_den(b, g) == pow2(h as nat) * b * pow2(t),
        ;
    } else if g >= 0 {
        let nh = (-h) as nat;
        lemma_pow2_adds(nh, g as nat);
        assert(nh + g == t);
        assert(scaled_num(at, g) == a * pow2(nh) * pow2(g as nat)) by (nonlinear_arith)
            requires
                pow2(t) == pow2(nh) * pow2(g as nat),
                at == a * pow2(t),
                g >= 0,
        ;
        assert(scaled_den(b, g) == b * pow2(g as nat)) by (nonlinear_arith)
            requires
                g >= 0,
        ;
        assert(scaled_num(a, h) == a * pow2(nh));
        assert(scaled_den(b, h) == b);
        lemma_pow2_pos(g as nat);
        lemma_round_common_factor(a * pow2(nh), b, pow2(g as nat));
        lemma_binade_bounds(at, b, g);
        lemma_binade_bounds(a, b, h);
        lemma_scale_le(pow2(52) * b, a * pow2(nh), pow2(g as nat));
        lemma_scale_le(a * pow2(nh), pow2(53) * b, pow2(g as nat));
        assert(pow2(52) * b * pow2(g as nat) == pow2(52) * scaled_den(b, g)) by (nonlinear_arith)
            requires
                scaled_den(b, g) == b * pow2(g as nat),
        ;
        assert(pow2(53) * b * pow2(g as nat) == pow2(53) * scaled_den(b, g)) by (nonlinear_arith)
            requires
                scaled_den(b, g) == b * pow2(g as nat),
        ;
    } else {
        let ng = (-g) as nat;
        let nh = (-h) as nat;
        lemma_pow2_adds(t, ng);
        assert(nh == t + ng);
        assert(scaled_num(at, g) == a * pow2(nh)) by (nonlinear_arith)
            requires
                pow2(nh) == pow2(t) * pow2(ng),
                at == a * pow2(t),
                g < 0,
                scaled_num(at, g) == at * pow2(ng),
        ;
        assert(scaled_num(a, h) == a * pow2(nh));
        assert(scaled_den(b, g) == b);
        assert(scaled_den(b, h) == b);
        lemma_binade_bounds(at, b, g);
        lemma_binade_bounds(a, b, h);
    }
    assert(in_binade(a, b, h));
    lemma_binade_is(a, b, h);
}

/// A whole number below `2^53`, as a fraction `x * b / b`, is its own
/// double, and times `2^s` rounds to exactly `x * 2^s`.
pub proof fn lemma_whole_exact(x: nat, b: nat, s: nat)
    requires
        1 <= x < pow2(53),
        b > 0,
    ensures
        double_times_pow2_rounded(x * b, b, s) == x * pow2(s),
{
    let a = x * b;
    assert(a > 0) by (nonlinear_arith)
        requires
            a == x * b,
            x >= 1,
            b > 0,
    ;
    lemma_binade_exists(a, b);
    let g = binade(a, b);
    lemma_binade_bounds(a, b, g);
    vstd::arithmetic::power2::lemma2_to64();
    if g > 0 {
        lemma_pow2_strictly_increases(0, g as nat);
        vstd::arithmetic::power2::lemma_pow2_unfold(53);
        assert(scaled_den(b, g) == pow2(g as nat) * b);
        assert(pow2(52) * (pow2(g as nat) * b) >= pow2(53) * b) by (nonlinear_arith)
            requires
                pow2(g as nat) >= 2,
                pow2(53) == 2 * pow2(52),
        ;
        assert(x * b < pow2(53) * b) by (nonlinear_arith)
            requires
                x < pow2(53),
                b > 0,
        ;
        assert(false);
    }
    let ng = (-g) as nat;
    let xs = x * pow2(ng);
    if g == 0 {
        assert(pow2(ng) == 1);
        assert(x * b * pow2(ng) == x * b) by (nonlinear_arith)
            requires
                pow2(ng) == 1,
        ;
        assert(pow2(0) * b == b) by (nonlinear_arith)
            requires
                pow2(0) == 1,
        ;
    }
    assert(scaled_num(a, g) == x * b * pow2(ng));
    assert(scaled_num(a, g) == xs * b) by (nonlinear_arith)
        requires
            scaled_num(a, g) == x * b * pow2(ng),
            xs == x * pow2(ng),
    ;
    assert(scaled_den(b, g) == b);
    // An exact multiple rounds to itself.
    assert(xs * b == b * xs) by (nonlinear_arith);
    vstd::arithmetic::div_mod::lemma_div_multiples_vanish(xs as int, b as int);
    vstd::arithmetic::div_mod::lemma_mod_multiples_basic(xs as int, b as int);
    assert(significand(a, b) == xs);
    let h = g + s;
    if h >= 0 {
        lemma_pow2_adds(ng, h as nat);
        assert(ng + h as nat == s);
        assert(xs * pow2(h as nat) == x * pow2(s)) by (nonlinear_arith)
            requires
                xs == x * pow2(ng),
                pow2(s) == pow2(ng) * pow2(h as nat),
        ;
    } else {
        let nh = (-h) as nat;
        lemma_pow2_adds(s, nh);
        assert(s + nh == ng);
        lemma_pow2_pos(nh);
        let y = x * pow2(s);
        assert(2 * xs + pow2(nh) == y * (2 * pow2(nh)) + pow2(nh)) by (nonlinear_arith)
            requires
                xs == x * pow2(ng),
                pow2(ng) == pow2(s) * pow2(nh),
                y == x * pow2(s),
        ;
        vstd::arithmetic::div_mod::lemma_fundamental_div_mod_converse(
            (2 * xs + pow2(nh)) as int,
            (2 * pow2(nh)) as int,
            y as int,
            pow2(nh) as int,
        );
    }
}

/// Dividing both sides by a common factor keeps the quotient.
pub proof fn lemma_div_common_factor(x: nat, y: nat, c: nat)
    requires
        y > 0,
        c > 0,
    ensures
        (x * c) / (y * c) == x / y,
{
    let q = x / y;
    let r = x % y;
    vstd::arithmetic::div_mod::lemma_fundamental_div_mod(x as int, y as int);
    vstd::arithmetic::div_mod::lemma_mod_pos_bound(x as int, y as int);
    assert(x * c == q * (y * c) + r * c) by (nonlinear_arith)
        requires
            x == y * q + r,
    ;
    assert(r * c < y * c) by (nonlinear_arith)
        requires
            r < y,
            c > 0,
    ;
    vstd::arithmetic::div_mod::lemma_fundamental_div_mod_converse(
        (x * c) as int,
        (y * c) as int,
        q as int,
        (r * c) as int,
    );
}

/// Rounding `a / (d * b)` for `d = 2^k`, `k >= 1`, knowing only
/// `z = a / b` and whether `a / b` is a whole number: the quotient of `z`
/// by `d`, one up when the rest of `z` is past half of `d`, or exactly
/// half with a further fraction or an odd quotient.
pub proof fn lemma_round_sticky(a: nat, b: nat, k: nat)
    requires
        b > 0,
        k >= 1,
    ensures
        ({
            let d = pow2(k);
            let z = a / b;
            let t = z / d;
            let r = z % d;
            round_half_even(a, d * b) == if r > d / 2 || (r == d / 2 && (a % b > 0 || t % 2 == 1)) {
                t + 1
            } else {
                t
            }
        }),
{
    let d = pow2(k);
    vstd::arithmetic::power2::lemma_pow2_unfold(k);
    lemma_pow2_pos((k - 1) as nat);
    let h = pow2((k - 1) as nat);
    assert(d == 2 * h);
    let z = a / b;
    let e = a % b;
    vstd::arithmetic::div_mod::lemma_fundamental_div_mod(a as int, b as int);
    vstd::arithmetic::div_mod::lemma_mod_pos_bound(a as int, b as int);
    let t = z / d;
    let r = z % d;
    vstd::arithmetic::div_mod::lemma_fundamental_div_mod(z as int, d as int);
    vstd::arithmetic::div_mod::lemma_mod_pos_bound(z as int, d as int);
    let rr = r * b + e;
    assert(a == t * (d * b) + rr) by (nonlinear_arith)
        requires
            a == b * z + e,
            z == d * t + r,
            rr == r * b + e,
    ;
    assert(rr < d * b) by (nonlinear_arith)
        requires
            rr == r * b + e,
            r + 1 <= d,
            e < b,
    ;
    assert(d * b > 0) by (nonlinear_arith)
        requires
            d > 0,
            b > 0,
    ;
    vstd::arithmetic::div_mod::lemma_fundamental_div_mod_converse(a as int, (d * b) as int, t as int, rr as int);
    assert(d / 2 == h);
    if r > h {
        assert(2 * rr > d * b) by (nonlinear_arith)
            requires
                rr == r * b + e,
                r >= h + 1,
                d == 2 * h,
                b > 0,
        ;
    } else if r < h {
        assert(2 * rr < d * b) by (nonlinear_arith)
            requires
                rr == r * b + e,
                r + 1 <= h,
                d == 2 * h,
                e < b,
        ;
    } else {
        assert(2 * rr == d * b + 2 * e) by (nonlinear_arith)
            requires
                rr == r * b + e,
                r == h,
                d == 2 * h,
        ;
    }
}

/// With `a = n * 2^(j+55)`, the rounded product of the model is the
/// double nearest `a / b` rounded half up after dividing by `2^55`.
pub proof fn lemma_rounded_via_scaled(n: nat, b: nat, j: nat)
    requires
        n > 0,
        b > 0,
    ensures
        ({
            let a = n * pow2(j + 55);
            &&& a > 0
            &&& in_binade(a, b, binade(a, b))
            &&& double_times_pow2_rounded(n, b, j) == round_scaled(significand(a, b), binade(a, b) - 55)
        }),
{
    let t = j + 55;
    let a = n * pow2(t);
    lemma_pow2_pos(t);
    assert(a > 0) by (nonlinear_arith)
        requires
            a == n * pow2(t),
            n > 0,
            pow2(t) > 0,
    ;
    lemma_binade_exists(a, b);
    let g = binade(a, b);
    lemma_binade_shift(n, b, t, g);
}

/// At or past `2^119` the rounded value divided by `2^55` is at least `2^64`.
pub proof fn lemma_rounded_large(a: nat, b: nat)
    requires
        a > 0,
        b > 0,
        in_binade(a, b, binade(a, b)),
        at_least_pow2(a, b, 119),
    ensures
        round_scaled(significand(a, b), binade(a, b) - 55) >= pow2(64),
{
    let g = binade(a, b);
    if 53 + g <= 119 {
        lemma_at_least_mono(a, b, 53 + g, 119);
    }
    assert(g >= 67);
    lemma_binade_bounds(a, b, g);
    let d = scaled_den(b, g);
    let num = scaled_num(a, g);
    lemma_pow2_pos(g as nat);
    assert(d > 0) by (nonlinear_arith)
        requires
            d == pow2(g as nat) * b,
            pow2(g as nat) > 0,
            b > 0,
    ;
    // The rounded quotient is at least the floored one, which is at least 2^52.
    vstd::arithmetic::div_mod::lemma_div_is_ordered((pow2(52) * d) as int, num as int, d as int);
    vstd::arithmetic::div_mod::lemma_div_multiples_vanish(pow2(52) as int, d as int);
    assert(pow2(52) * d == d * pow2(52)) by (nonlinear_arith);
    let q = significand(a, b);
    assert(q >= pow2(52));
    let h = (g - 55) as nat;
    lemma_pow2_adds(52, 12);
    if h > 12 {
        lemma_pow2_strictly_increases(12, h);
    }
    assert(q * pow2(h) >= pow2(52) * pow2(12)) by (nonlinear_arith)
        requires
            q >= pow2(52),
            pow2(h) >= pow2(12),
    ;
}

/// Below `2^53` the rounded value divided by `2^55` is zero.
pub proof fn lemma_rounded_small(a: nat, b: nat)
    requires
        a > 0,
        b > 0,
        in_binade(a, b, binade(a, b)),
        !at_least_pow2(a, b, 53),
    ensures
        round_scaled(significand(a, b), binade(a, b) - 55) == 0,
{
    let g = binade(a, b);
    if 52 + g >= 53 {
        lemma_at_least_mono(a, b, 53, 52 + g);
    }
    assert(g <= 0);
    lemma_binade_bounds(a, b, g);
    let d = scaled_den(b, g);
    let num = scaled_num(a, g);
    vstd::arithmetic::power2::lemma2_to64();
    if g == 0 {
        assert(pow2(0) * b == b) by (nonlinear_arith)
            requires
                pow2(0) == 1,
        ;
    }
    assert(d == b);
    // The floored quotient is below 2^53, so the rounded one is at most 2^53.
    vstd::arithmetic::div_mod::lemma_fundamental_div_mod(num as int, d as int);
    vstd::arithmetic::div_mod::lemma_mod_pos_bound(num as int, d as int);
    let fq = num / d;
    assert(fq < pow2(53)) by (nonlinear_arith)
        requires
            num == d * fq + num % d,
            num % d >= 0,
            num < pow2(53) * d,
            d > 0,
    ;
    let q = significand(a, b);
    assert(q <= pow2(53));
    let nh = (55 - g) as nat;
    if nh > 55 {
        lemma_pow2_strictly_increases(55, nh);
    }
    vstd::arithmetic::power2::lemma2_to64_rest();
    assert(pow2(nh) >= pow2(55));
    assert(2 * q + pow2(nh) < 2 * pow2(nh));
    vstd::arithmetic::div_mod::lemma_basic_div((2 * q + pow2(nh)) as int, (2 * pow2(nh)) as int);
}

/// Between `2^53` and `2^119`: the rounded value divided by `2^55` is
/// `(q * 2^g + 2^54) / 2^55`.
pub proof fn lemma_rounded_middle(q: nat, g: nat)
    requires
        g >= 1,
    ensures
        round_scaled(q, g - 55) == (q * pow2(g) + pow2(54)) / pow2(55),
{
    vstd::arithmetic::power2::lemma_pow2_unfold(55);
    lemma_pow2_pos(54);
    if g >= 55 {
        let h = (g - 55) as nat;
        lemma_pow2_adds(h, 55);
        assert(q * pow2(g) + pow2(54) == (q * pow2(h)) * pow2(55) + pow2(54)) by (nonlinear_arith)
            requires
                pow2(g) == pow2(h) * pow2(55),
        ;
        vstd::arithmetic::div_mod::lemma_fundamental_div_mod_converse(
            (q * pow2(g) + pow2(54)) as int,
            pow2(55) as int,
            (q * pow2(h)) as int,
            pow2(54) as int,
        );
    } else {
        let nh = (55 - g) as nat;
        let c = (g - 1) as nat;
        lemma_pow2_adds(nh, c);
        assert(nh + c == 54);
        lemma_pow2_adds(c, 1);
        vstd::arithmetic::power2::lemma_pow2_unfold(g);
        lemma_pow2_pos(nh);
        lemma_pow2_pos(c);
        assert((2 * q + pow2(nh)) * pow2(c) == q * pow2(g) + pow2(54)) by (nonlinear_arith)
            requires
                pow2(54) == pow2(nh) * pow2(c),
                pow2(g) == 2 * pow2(c),
        ;
        assert((2 * pow2(nh)) * pow2(c) == pow2(55)) by (nonlinear_arith)
            requires
                pow2(54) == pow2(nh) * pow2(c),
                pow2(55) == 2 * pow2(54),
        ;
        lemma_div_common_factor(2 * q + pow2(nh), 2 * pow2(nh), pow2(c));
    }
}

} // verus!
