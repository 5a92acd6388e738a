//! Byte counts written in binary units ("512 B", "1.50 KiB", "16.00 GiB").
//!
//! A count is shown the way the conversion to a double-precision float and
//! two-decimal formatting show it: the count is first rounded to the nearest
//! value a double can hold (53 significant bits, ties to even), divided by
//! the largest power of 1024 up to TiB that it reaches, and the quotient is
//! rounded to hundredths with ties to even. Everything here is exact integer
//! arithmetic.

use vstd::prelude::*;

use crate::text::{decimal, decimal_string, digit, push_char};

verus! {

/// 2^53: the first count above which doubles no longer hold every integer.
pub open spec fn exact_limit() -> nat {
    0x20_0000_0000_0000
}

/// The spacing of the doubles around `b`: 1 below 2^53, doubled at each
/// further power of two.
pub open spec fn double_step(b: nat) -> nat
    decreases b,
{
    if b < exact_limit() {
        1
    } else {
        2 * double_step(b / 2)
    }
}

/// `n / d` rounded to the nearest integer, ties to the even one.
pub open spec fn round_half_even(n: nat, d: nat) -> nat
    recommends
        d > 0,
{
    let q = n / d;
    let r = n % d;
    if 2 * r > d || (2 * r == d && q % 2 == 1) {
        q + 1
    } else {
        q
    }
}

/// The value a double takes for the count `b`.
pub open spec fn double_value(b: nat) -> nat {
    round_half_even(b, double_step(b)) * double_step(b)
}

/// 1024 to the power `k`.
pub open spec fn kib_power(k: nat) -> nat
    decreases k,
{
    if k == 0 {
        1
    } else {
        1024 * kib_power((k - 1) as nat)
    }
}

/// The unit a value is shown in: the largest power of 1024 it reaches, up to TiB.
pub open spec fn unit_index(v: nat) -> nat {
    if v < kib_power(1) {
        0
    } else if v < kib_power(2) {
        1
    } else if v < kib_power(3) {
        2
    } else if v < kib_power(4) {
        3
    } else {
        4
    }
}

/// The name of unit `k`.
pub open spec fn unit_name(k: nat) -> Seq<char> {
    if k == 0 {
        "B"@
    } else if k == 1 {
        "KiB"@
    } else if k == 2 {
        "MiB"@
    } else if k == 3 {
        "GiB"@
    } else {
        "TiB"@
    }
}

/// A number of hundredths written with two decimals.
pub open spec fn fixed2(h: nat) -> Seq<char> {
    decimal(h / 100) + seq!['.', digit((h / 10) % 10), digit(h % 10)]
}

/// How `bytes` is shown: the plain count with "B" below 1024, otherwise the
/// value in the largest unit it reaches, with two decimals.
pub open spec fn bytes_text(bytes: nat) -> Seq<char> {
    let v = double_value(bytes);
    let k = unit_index(v);
    if k == 0 {
        decimal(bytes) + " B"@
    } else {
        fixed2(round_half_even(v * 100, kib_power(k))) + " "@ + unit_name(k)
    }
}

/// The double nearest `bytes`, as an integer.
fn nearest_double(bytes: u64) -> (v: u128)
    ensures
        v == double_value(bytes as nat),
        v <= 0x1_0000_0000_0000_1000,
{
    let mut t: u64 = bytes;
    let mut step: u64 = 1;
    while t >= 0x20_0000_0000_0000
        invariant
            1 <= step <= 4096,
            t == bytes / step,
            t * step <= bytes,
            double_step(bytes as nat) == step * double_step(t as nat),
        decreases t,
    {
        proof {
            assert(step < 2048) by (nonlinear_arith)
                requires
                    t >= 0x20_0000_0000_0000,
                    t * step <= bytes,
                    bytes <= u64::MAX,
                    step >= 1,
            ;
            vstd::arithmetic::div_mod::lemma_div_denominator(bytes as int, step as int, 2);
            assert(double_step(t as nat) == 2 * double_step((t / 2) as nat));
            assert(step * double_step(t as nat) == (step * 2) * double_step((t / 2) as nat)) by (nonlinear_arith)
                requires
                    double_step(t as nat) == 2 * double_step((t / 2) as nat),
            ;
            assert((t / 2) * (step * 2) <= t * step) by (nonlinear_arith)
                requires
                    step >= 1,
            ;
        }
        t = t / 2;
        step = step * 2;
    }
    proof {
        vstd::arithmetic::div_mod::lemma_fundamental_div_mod(bytes as int, step as int);
        vstd::arithmetic::div_mod::lemma_mod_pos_bound(bytes as int, step as int);
        assert(t * step == step * t) by (nonlinear_arith);
        assert(double_step(t as nat) == 1);
        assert(step * double_step(t as nat) == step) by (nonlinear_arith)
            requires
                double_step(t as nat) == 1,
        ;
        assert(double_step(bytes as nat) == step);
    }
    let r: u64 = bytes - t * step;
    assert(r == bytes % step);
    let m: u64 = if 2 * (r as u128) > step as u128 || (2 * (r as u128) == step as u128 && t % 2 == 1) {
        t + 1
    } else {
        t
    };
    assert(round_half_even(bytes as nat, step as nat) == m);
    proof {
        assert(m * step <= 0x1_0000_0000_0000_1000) by (nonlinear_arith)
            requires
                t <= m <= t + 1,
                t * step <= bytes,
                bytes <= u64::MAX,
                1 <= step <= 4096,
        ;
    }
    (m as u128) * (step as u128)
}

/// `bytes` in binary units: the count with "B" below 1024, otherwise two
/// decimals and the unit ("1.50 KiB").
pub fn format_bytes(bytes: u64) -> (r: String)
    ensures
        r@ == bytes_text(bytes as nat),
{
    let v = nearest_double(bytes);
    reveal_with_fuel(kib_power, 5);
    let (k, d, name): (u32, u128, &str) = if v < 1024 {
        (0, 1, "B")
    } else if v < 1024 * 1024 {
        (1, 1024, "KiB")
    } else if v < 1024 * 1024 * 1024 {
        (2, 1024 * 1024, "MiB")
    } else if v < 1024 * 1024 * 1024 * 1024 {
        (3, 1024 * 1024 * 1024, "GiB")
    } else {
        (4, 1024 * 1024 * 1024 * 1024, "TiB")
    };
    assert(k == unit_index(v as nat));
    assert(d == kib_power(k as nat));
    assert(name@ == unit_name(k as nat));
    if k == 0 {
        let mut r = decimal_string(bytes as u128);
        r.append(" B");
        return r;
    }
    let n: u128 = v * 100;
    let q: u128 = n / d;
    let rem: u128 = n % d;
    let h: u128 = if 2 * rem > d || (2 * rem == d && q % 2 == 1) {
        q + 1
    } else {
        q
    };
    assert(h == round_half_even((v * 100) as nat, kib_power(k as nat)));
    let mut r = decimal_string(h / 100);
    let tens: u8 = ((h / 10) % 10) as u8;
    let ones: u8 = (h % 10) as u8;
    push_char(&mut r, '.');
    push_char(&mut r, (48u8 + tens) as char);
    push_char(&mut r, (48u8 + ones) as char);
    assert(r@ =~= fixed2(h as nat));
    r.append(" ");
    r.append(name);
    r
}

} // verus!
