//! Reading back a size that the inventory wrote ("1.50 KiB", "2 B").
//!
//! The amount is read the way `str::parse::<f64>` reads it: the double
//! nearest the decimal it writes (ties to even). That double is multiplied
//! by its unit, a power of 1024 (exactly), rounded to the nearest byte with
//! halves away from zero, and capped at `u64::MAX` as `as u64` caps it.

use vstd::arithmetic::power2::{lemma_pow2_adds, lemma_pow2_pos, pow2};
use vstd::prelude::*;

use super::double::{
    double_times_pow2_rounded, lemma_binade_bounds, lemma_binade_is, lemma_round_sticky, lemma_rounded_large,
    lemma_rounded_middle, lemma_rounded_small, lemma_rounded_via_scaled, lemma_whole_exact, significand,
};

use crate::hardware::{is_unknown, unknown_text};
use crate::text::{
    all_digits, chars_of, digits_value, lemma_split_on_chars, lemma_split_on_len, lower, lower_of, split_of, split_on,
    starts_with, string_of_range, trim, trim_bounds, views,
};

verus! {

/// Whether `c` may appear in the amount: an ASCII digit or a dot.
pub open spec fn is_amount_char(c: char) -> bool {
    ('0' <= c && c <= '9') || c == '.'
}

/// How many characters at the start of `s` belong to the amount.
pub open spec fn amount_len(s: Seq<char>) -> nat
    decreases s.len(),
{
    if s.len() > 0 && is_amount_char(s[0]) {
        1 + amount_len(s.drop_first())
    } else {
        0
    }
}

/// 10 to the power `k`.
pub open spec fn pow10(k: nat) -> nat
    decreases k,
{
    if k == 0 {
        1
    } else {
        10 * pow10((k - 1) as nat)
    }
}

/// The power of two one unit stands for: TiB, GiB, MiB, KiB by the
/// unit's start, and otherwise one byte.
pub open spec fn unit_shift(unit: Seq<char>) -> nat {
    if starts_with(unit, "tib"@) {
        40
    } else if starts_with(unit, "gib"@) {
        30
    } else if starts_with(unit, "mib"@) {
        20
    } else if starts_with(unit, "kib"@) {
        10
    } else {
        0
    }
}

/// The amount of a size text split at its dots.
pub open spec fn amount_pieces(t: Seq<char>) -> Seq<Seq<char>> {
    split_on(t.take(amount_len(t) as int), '.')
}

/// The digits after the dot, if any.
pub open spec fn fraction_of(pieces: Seq<Seq<char>>) -> Seq<char> {
    if pieces.len() > 1 { pieces[1] } else { Seq::empty() }
}

/// The bytes a size text stands for: absent for a blank or unknown text or
/// an amount that `f64` parsing refuses (more than one dot, or no digit);
/// otherwise the double nearest the amount, times its unit, rounded to the
/// nearest byte (halves up), and at most `u64::MAX`.
pub open spec fn storage_bytes(value: Seq<char>) -> Option<u64> {
    let t = trim(value);
    let pieces = amount_pieces(t);
    let ip = pieces[0];
    let fp = fraction_of(pieces);
    if t.len() == 0 || t == unknown_text() || pieces.len() > 2 || ip.len() + fp.len() == 0 {
        None
    } else {
        let j = unit_shift(lower(trim(t.skip(amount_len(t) as int))));
        let x = double_times_pow2_rounded(digits_value(ip + fp), pow10(fp.len()), j);
        Some(if x > u64::MAX { u64::MAX } else { x as u64 })
    }
}

/// Digits written one after the other make one number.
pub proof fn lemma_digits_concat(a: Seq<char>, b: Seq<char>)
    ensures
        digits_value(a + b) == digits_value(a) * pow10(b.len()) + digits_value(b),
    decreases b.len(),
{
    if b.len() == 0 {
        assert(a + b =~= a);
        assert(pow10(0) == 1);
        assert(digits_value(b) == 0);
        assert(digits_value(a) * 1 == digits_value(a)) by (nonlinear_arith);
    } else {
        lemma_digits_concat(a, b.drop_last());
        assert((a + b).drop_last() =~= a + b.drop_last());
        assert((a + b).last() == b.last());
        let x = digits_value(a);
        let y = pow10((b.len() - 1) as nat);
        let z = digits_value(b.drop_last());
        let dl: nat = (#[verifier::truncate] (b.last() as u32) - 48) as nat;
        assert(digits_value(a + b) == digits_value(a + b.drop_last()) * 10 + dl);
        assert(digits_value(b) == z * 10 + dl);
        assert(pow10(b.len()) == 10 * y);
        assert(digits_value(a + b.drop_last()) == x * y + z);
        assert((x * y + z) * 10 == x * (10 * y) + z * 10) by (nonlinear_arith);
    }
}

/// Powers of ten are positive.
pub proof fn lemma_pow10_positive(k: nat)
    ensures
        pow10(k) >= 1,
    decreases k,
{
    if k > 0 {
        lemma_pow10_positive((k - 1) as nat);
    }
}

/// Every character that `amount_len` counts is an amount character.
proof fn lemma_amount_chars(s: Seq<char>)
    ensures
        amount_len(s) <= s.len(),
        forall|i: int| 0 <= i < amount_len(s) ==> is_amount_char(#[trigger] s[i]),
    decreases s.len(),
{
    if s.len() > 0 && is_amount_char(s[0]) {
        lemma_amount_chars(s.drop_first());
        assert forall|i: int| 0 <= i < amount_len(s) implies is_amount_char(#[trigger] s[i]) by {
            if i > 0 {
                assert(s[i] == s.drop_first()[i - 1]);
            }
        }
    }
}

/// Where the amount characters at the start of `t` end.
fn amount_end(t: &Vec<char>) -> (n: usize)
    ensures
        n == amount_len(t@),
        n <= t.len(),
{
    let mut n: usize = 0;
    assert(t@.skip(0) =~= t@);
    while n < t.len() && (('0' <= t[n] && t[n] <= '9') || t[n] == '.')
        invariant
            n <= t.len(),
            amount_len(t@) == n + amount_len(t@.skip(n as int)),
        decreases t.len() - n,
    {
        assert(t@.skip(n as int).drop_first() =~= t@.skip(n + 1));
        n += 1;
    }
    n
}

/// The power of two one unit stands for, with `2^j` and `2^(j+55)`.
fn unit_of(unit: &Vec<char>) -> (r: (u32, u128, u128))
    ensures
        r.0 == unit_shift(unit@),
        r.0 <= 40,
        r.1 == pow2(r.0 as nat),
        r.2 == pow2(r.0 as nat + 55),
        1 <= r.1 <= 0x100_0000_0000,
{
    let tib = chars_of("tib");
    let gib = chars_of("gib");
    let mib = chars_of("mib");
    let kib = chars_of("kib");
    let st = crate::text::occurs_at(unit, &tib, 0);
    let sg = crate::text::occurs_at(unit, &gib, 0);
    let sm = crate::text::occurs_at(unit, &mib, 0);
    let sk = crate::text::occurs_at(unit, &kib, 0);
    assert(unit@.subrange(0, (0 + tib@.len()) as int) =~= unit@.subrange(0, tib@.len() as int));
    assert(unit@.subrange(0, (0 + gib@.len()) as int) =~= unit@.subrange(0, gib@.len() as int));
    assert(unit@.subrange(0, (0 + mib@.len()) as int) =~= unit@.subrange(0, mib@.len() as int));
    assert(unit@.subrange(0, (0 + kib@.len()) as int) =~= unit@.subrange(0, kib@.len() as int));
    let j: u32 = if st {
        40
    } else if sg {
        30
    } else if sm {
        20
    } else if sk {
        10
    } else {
        0
    };
    proof {
        vstd::arithmetic::power2::lemma2_to64();
        lemma_pow2_adds(j as nat, 55);
        vstd::arithmetic::power2::lemma2_to64_rest();
    }
    let p: u128 = if j == 40 {
        0x100_0000_0000
    } else if j == 30 {
        0x4000_0000
    } else if j == 20 {
        0x10_0000
    } else if j == 10 {
        0x400
    } else {
        1
    };
    assert(p == pow2(j as nat));
    let m: u128 = p * 0x80_0000_0000_0000;
    assert(m == pow2(j as nat + 55));
    (j, p, m)
}

/// The largest value the integer part is tracked up to.
pub open spec fn cap() -> nat {
    0x1_0000_0000_0000_0000
}

/// The integer the digits `ip` write, capped at 2^64.
fn capped_value(ip: &Vec<char>) -> (r: u128)
    requires
        all_digits(ip@),
    ensures
        r == if digits_value(ip@) > cap() { cap() } else { digits_value(ip@) },
{
    let c: u128 = 0x1_0000_0000_0000_0000;
    let mut whole: u128 = 0;
    let mut j: usize = 0;
    while j < ip.len()
        invariant
            j <= ip.len(),
            all_digits(ip@),
            c == cap(),
            whole == if digits_value(ip@.take(j as int)) > cap() { cap() } else { digits_value(ip@.take(j as int)) },
        decreases ip.len() - j,
    {
        assert(ip@.take(j + 1).drop_last() =~= ip@.take(j as int));
        assert(ip@.take(j + 1).last() == ip@[j as int]);
        assert('0' <= ip@[j as int] && ip@[j as int] <= '9');
        let d: u128 = (ip[j] as u32 - 48) as u128;
        whole = if whole * 10 + d > c { c } else { whole * 10 + d };
        j += 1;
    }
    assert(ip@.take(j as int) =~= ip@);
    whole
}

/// The fraction `fp` times `m`, as its integer part and whether anything
/// remains (`rem`, ghost, is the exact remainder over `10^len`).
fn scaled_fraction(fp: &Vec<char>, m: u128) -> (r: (u128, bool, Ghost<nat>))
    requires
        all_digits(fp@),
        1 <= m <= 0x8000_0000_0000_0000_0000_0000,
    ensures
        r.0 < m,
        r.0 * pow10(fp@.len()) + r.2@ == m * digits_value(fp@),
        r.2@ < pow10(fp@.len()),
        r.1 == (r.2@ > 0),
{
    let k = fp.len();
    let mut carry: u128 = 0;
    let mut nonzero: bool = false;
    let ghost mut rem: nat = 0;
    let mut p: usize = k;
    assert(fp@.skip(k as int) =~= Seq::<char>::empty());
    assert(pow10(0) == 1);
    assert(digits_value(fp@.skip(k as int)) == 0);
    assert(carry * pow10(0) + rem == m * digits_value(fp@.skip(k as int))) by (nonlinear_arith)
        requires
            carry == 0,
            rem == 0,
            digits_value(fp@.skip(k as int)) == 0,
    ;
    while p > 0
        invariant
            p <= k == fp@.len(),
            all_digits(fp@),
            1 <= m <= 0x8000_0000_0000_0000_0000_0000,
            carry < m,
            carry * pow10((k - p) as nat) + rem == m * digits_value(fp@.skip(p as int)),
            rem < pow10((k - p) as nat),
            nonzero == (rem > 0),
        decreases p,
    {
        let ghost len: nat = (k - p) as nat;
        let ghost s = fp@.skip(p as int);
        assert(fp@.skip(p - 1) =~= seq![fp@[p - 1]] + s);
        assert('0' <= fp@[p - 1] && fp@[p - 1] <= '9');
        let dj: u128 = (fp[p - 1] as u32 - 48) as u128;
        assert(dj <= 9);
        proof {
            let one = seq![fp@[p - 1]];
            lemma_digits_concat(one, s);
            assert(one.drop_last() =~= Seq::<char>::empty());
            assert(one.last() == fp@[p - 1]);
            assert(digits_value(one) == digits_value(one.drop_last()) * 10 + ((fp@[p - 1] as u32) - 48) as nat);
            assert(digits_value(one) == dj);
            lemma_pow10_positive(len);
            assert(pow10((len + 1) as nat) == 10 * pow10(len));
        }
        assert(m * dj <= 9 * 0x8000_0000_0000_0000_0000_0000) by (nonlinear_arith)
            requires
                m <= 0x8000_0000_0000_0000_0000_0000,
                dj <= 9,
        ;
        let tt: u128 = m * dj + carry;
        let new_carry = tt / 10;
        let new_lead = tt % 10;
        proof {
            let pl = pow10(len);
            let new_rem: nat = (new_lead * pl + rem) as nat;
            assert(new_carry * (10 * pl) + new_rem == m * (dj * pl + digits_value(s))) by (nonlinear_arith)
                requires
                    carry * pl + rem == m * digits_value(s),
                    tt == m * dj + carry,
                    new_carry == tt / 10,
                    new_lead == tt % 10,
                    new_rem == new_lead * pl + rem,
            ;
            assert(new_rem < 10 * pl) by (nonlinear_arith)
                requires
                    new_lead <= 9,
                    rem < pl,
                    new_rem == new_lead * pl + rem,
            ;
            assert((new_rem > 0) == (new_lead > 0 || rem > 0)) by (nonlinear_arith)
                requires
                    new_rem == new_lead * pl + rem,
                    pl >= 1,
            ;
            assert(new_carry < m) by (nonlinear_arith)
                requires
                    tt == m * dj + carry,
                    dj <= 9,
                    carry < m,
                    new_carry == tt / 10,
            ;
            rem = new_rem;
        }
        nonzero = nonzero || new_lead > 0;
        carry = new_carry;
        p -= 1;
    }
    assert(fp@.skip(0) =~= fp@);
    (carry, nonzero, Ghost(rem))
}

/// The bytes a size text stands for.
pub fn parse_storage_bytes(value: &str) -> (r: Option<u64>)
    ensures
        r == storage_bytes(value@),
{
    let v = chars_of(value);
    let (lo, hi) = trim_bounds(&v);
    let ts = string_of_range(&v, lo, hi);
    if ts.unicode_len() == 0 || is_unknown(ts.as_str()) {
        return None;
    }
    let t = chars_of(ts.as_str());
    let n = amount_end(&t);
    let num = string_of_range(&t, 0, n);
    assert(num@ =~= t@.take(n as int));
    let pieces = split_of(num.as_str(), '.');
    proof {
        lemma_split_on_len(num@, '.');
        lemma_split_on_chars(num@, '.');
        lemma_amount_chars(t@);
    }
    let ghost ps = views(pieces@);
    assert(ps == amount_pieces(t@));
    if pieces.len() > 2 {
        return None;
    }
    let ip = chars_of(pieces[0].as_str());
    let fp: Vec<char> = if pieces.len() > 1 { chars_of(pieces[1].as_str()) } else { Vec::new() };
    assert(ip@ == ps[0]);
    assert(fp@ == fraction_of(ps));
    if ip.len() == 0 && fp.len() == 0 {
        return None;
    }
    assert forall|j: int| 0 <= j < ip@.len() implies '0' <= #[trigger] ip@[j] && ip@[j] <= '9' by {
        assert(ps[0][j] != '.');
        let x = choose|x: int| 0 <= x < num@.len() && num@[x] == ps[0][j];
        assert(num@[x] == t@[x]);
    }
    assert forall|j: int| 0 <= j < fp@.len() implies '0' <= #[trigger] fp@[j] && fp@[j] <= '9' by {
        assert(ps[1][j] != '.');
        let x = choose|x: int| 0 <= x < num@.len() && num@[x] == ps[1][j];
        assert(num@[x] == t@[x]);
    }
    let rest = string_of_range(&t, n, t.len());
    assert(rest@ =~= t@.skip(n as int));
    let rv = chars_of(rest.as_str());
    let (rlo, rhi) = trim_bounds(&rv);
    let unit = lower_of(&chars_of(string_of_range(&rv, rlo, rhi).as_str()));
    let (j, unit_mult, mm) = unit_of(&unit);
    let r = rounded_amount(&ip, &fp, j, unit_mult, mm);
    Some(r)
}

/// The double nearest the decimal `ip.fp`, times `2^j`, rounded to the
/// nearest integer (halves up) and capped at `u64::MAX`.
fn rounded_amount(ip: &Vec<char>, fp: &Vec<char>, j: u32, unit_mult: u128, mm: u128) -> (r: u64)
    requires
        all_digits(ip@),
        all_digits(fp@),
        j <= 40,
        unit_mult == pow2(j as nat),
        mm == pow2(j as nat + 55),
    ensures
        ({
            let x = double_times_pow2_rounded(digits_value(ip@ + fp@), pow10(fp@.len()), j as nat);
            r == if x > u64::MAX { u64::MAX } else { x as u64 }
        }),
{
    let ghost n = digits_value(ip@ + fp@);
    let ghost pp = pow10(fp@.len());
    let ghost jn = j as nat;
    let ghost a = n * pow2(jn + 55);
    let ghost ii = digits_value(ip@);
    let ghost ff = digits_value(fp@);
    proof {
        lemma_digits_concat(ip@, fp@);
        lemma_pow10_positive(fp@.len());
        vstd::arithmetic::power2::lemma2_to64();
        vstd::arithmetic::power2::lemma2_to64_rest();
        lemma_pow2_adds(jn, 55);
        lemma_pow2_adds(64, 55);
        lemma_pow2_pos(jn);
        if jn < 40 {
            vstd::arithmetic::power2::lemma_pow2_strictly_increases(jn, 40);
        }
        assert(mm <= 0x8000_0000_0000_0000_0000_0000) by (nonlinear_arith)
            requires
                mm == pow2(jn) * pow2(55),
                pow2(jn) <= 0x100_0000_0000,
                pow2(55) == 0x80_0000_0000_0000,
        ;
        assert(mm >= 1) by (nonlinear_arith)
            requires
                mm == pow2(jn) * pow2(55),
                pow2(jn) >= 1,
                pow2(55) == 0x80_0000_0000_0000,
        ;
    }
    let whole = capped_value(ip);
    let (carry, sticky, rem) = scaled_fraction(fp, mm);
    // a = (ii * mm + carry) * pp + rem
    assert(a == (ii * mm + carry) * pp + rem@) by (nonlinear_arith)
        requires
            n == ii * pp + ff,
            a == n * mm,
            carry * pp + rem@ == mm * ff,
    ;
    let max: u128 = 0x1_0000_0000_0000_0000;
    assert(whole * unit_mult <= 0x1_0000_0000_0000_0000 * 0x100_0000_0000) by (nonlinear_arith)
        requires
            whole <= 0x1_0000_0000_0000_0000,
            unit_mult <= 0x100_0000_0000,
    ;
    if whole * unit_mult >= max {
        proof {
            assert(ii * unit_mult >= pow2(64)) by (nonlinear_arith)
                requires
                    whole * unit_mult >= pow2(64),
                    whole <= ii,
            ;
            assert(a >= pow2(119) * pp) by (nonlinear_arith)
                requires
                    a == (ii * mm + carry) * pp + rem@,
                    mm == unit_mult * pow2(55),
                    ii * unit_mult >= pow2(64),
                    pow2(119) == pow2(64) * pow2(55),
                    pp >= 1,
            ;
            saturated(n, pp, jn);
        }
        return 0xffff_ffff_ffff_ffff;
    }
    assert(whole == ii);
    assert(whole * mm < 0x80_0000_0000_0000_0000_0000_0000_0000) by (nonlinear_arith)
        requires
            whole * unit_mult < 0x1_0000_0000_0000_0000,
            mm == unit_mult * 0x80_0000_0000_0000,
            whole >= 0,
    ;
    let z: u128 = whole * mm + carry;
    if z >= 0x80_0000_0000_0000_0000_0000_0000_0000 {
        proof {
            assert(a >= pow2(119) * pp) by (nonlinear_arith)
                requires
                    a == z * pp + rem@,
                    z >= pow2(119),
                    pp >= 1,
            ;
            saturated(n, pp, jn);
        }
        return 0xffff_ffff_ffff_ffff;
    }
    if z < 0x20_0000_0000_0000 {
        proof {
            if n > 0 {
                lemma_rounded_via_scaled(n, pp, jn);
                assert(a < pow2(53) * pp) by (nonlinear_arith)
                    requires
                        a == z * pp + rem@,
                        rem@ < pp,
                        z + 1 <= pow2(53),
                ;
                lemma_rounded_small(a, pp);
            }
        }
        return 0;
    }
    // The spacing exponent g: 2^52 * 2^g <= z < 2^53 * 2^g.
    let mut g: u32 = 0;
    let mut d: u128 = 1;
    let mut hi: u128 = 0x20_0000_0000_0000;
    while z >= hi
        invariant
            d == pow2(g as nat),
            hi == pow2(53) * d,
            pow2(52) * d <= z,
            z < 0x80_0000_0000_0000_0000_0000_0000_0000,
            pow2(53) == 0x20_0000_0000_0000,
            pow2(52) == 0x10_0000_0000_0000,
            g <= 120,
            0x20_0000_0000_0000 <= hi <= 0x100_0000_0000_0000_0000_0000_0000_0000,
        decreases 0x100_0000_0000_0000_0000_0000_0000_0000 - hi,
    {
        proof {
            vstd::arithmetic::power2::lemma_pow2_unfold(g as nat + 1);
            if g >= 120 {
                vstd::arithmetic::power2::lemma2_to64();
                lemma_pow2_adds(64, 56);
                vstd::arithmetic::power2::lemma2_to64_rest();
                if g > 120 {
                    vstd::arithmetic::power2::lemma_pow2_strictly_increases(120, g as nat);
                }
                assert(pow2(120) == 0x100_0000_0000_0000_0000_0000_0000_0000);
                assert(hi >= d);
                assert(false);
            }
        }
        d = d * 2;
        hi = hi * 2;
        g = g + 1;
    }
    assert(g >= 1) by {
        if g == 0 {
            assert(hi == 0x20_0000_0000_0000);
        }
    }
    proof {
        lemma_pow2_pos(g as nat);
        assert(pow2(52) * (pow2(g as nat) * pp) <= a) by (nonlinear_arith)
            requires
                pow2(52) * pow2(g as nat) <= z,
                a == z * pp + rem@,
        ;
        assert(a < pow2(53) * (pow2(g as nat) * pp)) by (nonlinear_arith)
            requires
                z < pow2(53) * pow2(g as nat),
                a == z * pp + rem@,
                rem@ < pp,
        ;
        assert(a > 0) by (nonlinear_arith)
            requires
                pow2(52) * (pow2(g as nat) * pp) <= a,
                pow2(52) > 0,
                pow2(g as nat) > 0,
                pp > 0,
        ;
        assert(n > 0) by (nonlinear_arith)
            requires
                a == n * pow2(jn + 55),
                a > 0,
        ;
        lemma_binade_bounds(a, pp, g as int);
        lemma_binade_is(a, pp, g as int);
        lemma_rounded_via_scaled(n, pp, jn);
        vstd::arithmetic::div_mod::lemma_fundamental_div_mod_converse(a as int, pp as int, z as int, rem@ as int);
        lemma_round_sticky(a, pp, g as nat);
        vstd::arithmetic::power2::lemma_pow2_unfold(g as nat);
    }
    let t = z / d;
    let rr = z % d;
    let half = d / 2;
    let q: u128 = if rr > half || (rr == half && (sticky || t % 2 == 1)) { t + 1 } else { t };
    assert(q == significand(a, pp));
    proof {
        lemma_rounded_middle(q as nat, g as nat);
        assert(t < pow2(53)) by (nonlinear_arith)
            requires
                z < pow2(53) * d,
                t == z / d,
                d > 0,
        ;
        assert(q * d <= pow2(53) * d) by (nonlinear_arith)
            requires
                q <= pow2(53),
                d > 0,
        ;
    }
    let total: u128 = (q * d + 0x40_0000_0000_0000) / 0x80_0000_0000_0000;
    if total > 0xffff_ffff_ffff_ffff {
        0xffff_ffff_ffff_ffff
    } else {
        total as u64
    }
}

/// A decimal whose scaled value reaches `2^119` saturates.
proof fn saturated(n: nat, pp: nat, jn: nat)
    requires
        pp > 0,
        n * pow2(jn + 55) >= pow2(119) * pp,
    ensures
        double_times_pow2_rounded(n, pp, jn) > u64::MAX,
{
    let a = n * pow2(jn + 55);
    vstd::arithmetic::power2::lemma2_to64();
    lemma_pow2_pos(119);
    assert(a > 0) by (nonlinear_arith)
        requires
            a >= pow2(119) * pp,
            pow2(119) > 0,
            pp > 0,
    ;
    if n == 0 {
        assert(a == 0);
    }
    lemma_rounded_via_scaled(n, pp, jn);
    lemma_rounded_large(a, pp);
}

/// The digits of a decimal representation, read back, give the number.
pub proof fn lemma_decimal_digits(n: nat)
    ensures
        all_digits(crate::text::decimal(n)),
        digits_value(crate::text::decimal(n)) == n,
        crate::text::decimal(n).len() > 0,
    decreases n,
{
    let d = crate::text::decimal(n);
    if n < 10 {
        assert(d == seq![crate::text::digit(n)]);
        assert(d.drop_last() =~= Seq::<char>::empty());
        assert((crate::text::digit(n) as u32) == 48 + n);
        assert(d.last() == crate::text::digit(n));
        assert(digits_value(d) == digits_value(d.drop_last()) * 10 + ((d.last() as u32) - 48) as nat);
        assert(digits_value(d.drop_last()) == 0);
    } else {
        lemma_decimal_digits(n / 10);
        let p = crate::text::decimal(n / 10);
        assert(d == p.push(crate::text::digit(n % 10)));
        assert(d.drop_last() =~= p);
        assert((crate::text::digit(n % 10) as u32) == 48 + n % 10);
        assert(d.last() == crate::text::digit(n % 10));
        assert(digits_value(d) == digits_value(p) * 10 + ((d.last() as u32) - 48) as nat);
        assert(digits_value(d) == (n / 10) * 10 + n % 10);
        assert forall|i: int| 0 <= i < d.len() implies '0' <= #[trigger] d[i] && d[i] <= '9' by {
            if i < p.len() {
                assert(d[i] == p[i]);
            }
        }
    }
}

/// Amount characters followed by a space end where the space is.
proof fn lemma_amount_before_space(a: Seq<char>, rest: Seq<char>)
    requires
        forall|i: int| 0 <= i < a.len() ==> is_amount_char(#[trigger] a[i]),
        rest.len() > 0,
        rest[0] == ' ',
    ensures
        amount_len(a + rest) == a.len(),
    decreases a.len(),
{
    if a.len() == 0 {
        assert(a + rest =~= rest);
    } else {
        assert((a + rest).drop_first() =~= a.drop_first() + rest);
        assert forall|i: int| 0 <= i < a.drop_first().len() implies is_amount_char(#[trigger] a.drop_first()[i]) by {
            assert(a.drop_first()[i] == a[i + 1]);
        }
        assert(is_amount_char(a[0]));
        assert((a + rest)[0] == a[0]);
        lemma_amount_before_space(a.drop_first(), rest);
    }
}

/// A text without the separator splits into itself alone.
proof fn lemma_split_without_sep(s: Seq<char>, sep: char)
    requires
        forall|i: int| 0 <= i < s.len() ==> #[trigger] s[i] != sep,
    ensures
        split_on(s, sep) == seq![s],
    decreases s.len(),
{
    if s.len() > 0 {
        lemma_split_without_sep(s.drop_last(), sep);
        assert(s.drop_last().push(s.last()) =~= s);
        assert(s[s.len() - 1] != sep);
    } else {
        assert(s =~= Seq::<char>::empty());
    }
}

/// A byte count below 1024, written in binary units, reads back as itself.
pub proof fn lemma_small_size_round_trip(b: u64)
    requires
        b < 1024,
    ensures
        storage_bytes(crate::size::bytes_text(b as nat)) == Some(b),
{
    reveal_strlit(" B");
    reveal_strlit("Unknown");
    reveal_strlit("tib");
    reveal_strlit("gib");
    reveal_strlit("mib");
    reveal_strlit("kib");
    let n = b as nat;
    assert(crate::size::double_step(n) == 1);
    assert(crate::size::double_value(n) == n);
    assert(crate::size::kib_power(1) == 1024) by {
        reveal_with_fuel(crate::size::kib_power, 2);
    }
    assert(crate::size::unit_index(n) == 0);
    let d = crate::text::decimal(n);
    lemma_decimal_digits(n);
    let text = d + " B"@;
    assert(crate::size::bytes_text(n) == text);
    assert(text[0] == d[0]);
    assert('0' <= d[0] && d[0] <= '9');
    assert(text.last() == 'B');
    assert(crate::text::trim_start(text) == text);
    assert(crate::text::trim_end(text) == text);
    assert(trim(text) == text);
    assert(text != unknown_text()) by {
        assert(unknown_text()[0] == 'U');
    }
    let rest = " B"@;
    assert forall|i: int| 0 <= i < d.len() implies is_amount_char(#[trigger] d[i]) by {
        assert('0' <= d[i] && d[i] <= '9');
    }
    lemma_amount_before_space(d, rest);
    assert(amount_len(text) == d.len());
    assert(text.take(d.len() as int) =~= d);
    assert forall|i: int| 0 <= i < d.len() implies #[trigger] d[i] != '.' by {
        assert('0' <= d[i] && d[i] <= '9');
    }
    lemma_split_without_sep(d, '.');
    assert(amount_pieces(text) == seq![d]);
    assert(fraction_of(seq![d]) == Seq::<char>::empty());
    assert(text.skip(d.len() as int) =~= rest);
    let unit = lower(trim(rest));
    assert(rest[0] == ' ' && rest[1] == 'B' && rest.len() == 2);
    assert(rest.drop_first()[0] == 'B' && rest.drop_first().len() == 1);
    assert(crate::text::trim_start(rest.drop_first()) == rest.drop_first());
    assert(crate::text::trim_start(rest) == crate::text::trim_start(rest.drop_first()));
    assert(crate::text::trim_end(rest.drop_first()) == rest.drop_first());
    assert(unit =~= seq!['b']);
    assert(unit_shift(unit) == 0);
    assert(d + Seq::<char>::empty() =~= d);
    assert(pow10(0) == 1);
    vstd::arithmetic::power2::lemma2_to64();
    vstd::arithmetic::power2::lemma2_to64_rest();
    if n > 0 {
        assert(n * 1 == n);
        lemma_whole_exact(n, 1, 0);
    }
}

/// What the size reader needs of unit `n` (KiB to TiB): its power of two,
/// its name, and the shift its name reads back as.
proof fn lemma_unit_facts(n: nat)
    requires
        1 <= n <= 4,
    ensures
        crate::size::kib_power(n) == pow2(10 * n),
        crate::size::kib_power(n) * 1024 == pow2(10 * n + 10),
        crate::size::unit_name(n).len() == 3,
        crate::size::unit_name(n)[0] != ' ' && !crate::text::is_ws(crate::size::unit_name(n)[0]),
        crate::size::unit_name(n)[2] == 'B',
        unit_shift(lower(crate::size::unit_name(n))) == 10 * n,
{
    reveal_with_fuel(crate::size::kib_power, 5);
    vstd::arithmetic::power2::lemma2_to64();
    vstd::arithmetic::power2::lemma2_to64_rest();
    reveal_strlit("KiB");
    reveal_strlit("MiB");
    reveal_strlit("GiB");
    reveal_strlit("TiB");
    reveal_strlit("tib");
    reveal_strlit("gib");
    reveal_strlit("mib");
    reveal_strlit("kib");
    let u = crate::size::unit_name(n);
    let l = lower(u);
    assert(l.len() == 3);
    assert(l[0] == crate::text::lower_char(u[0]));
    assert(l[1] == crate::text::lower_char(u[1]));
    assert(l[2] == crate::text::lower_char(u[2]));
    if n == 1 {
        assert(l =~= "kib"@);
    } else if n == 2 {
        assert(l =~= "mib"@);
    } else if n == 3 {
        assert(l =~= "gib"@);
    } else {
        lemma_pow2_adds(40, 10);
        assert(l =~= "tib"@);
    }
    assert("kib"@.subrange(0, 3) =~= "kib"@);
    assert("mib"@.subrange(0, 3) =~= "mib"@);
    assert("gib"@.subrange(0, 3) =~= "gib"@);
    assert("tib"@.subrange(0, 3) =~= "tib"@);
}

/// How a whole number of units shows: `k.00` and the unit's name.
proof fn lemma_whole_unit_text(k: nat, n: nat)
    requires
        1 <= k < 1024,
        1 <= n <= 4,
    ensures
        k * crate::size::kib_power(n) < 0x4_0000_0000_0000,
        crate::size::bytes_text(k * crate::size::kib_power(n)) == crate::text::decimal(k) + seq!['.', '0', '0'] + (" "@
            + crate::size::unit_name(n)),
{
    reveal_strlit(" ");
    reveal_with_fuel(crate::size::kib_power, 5);
    let kp = crate::size::kib_power(n);
    let b = k * kp;
    assert(kp <= 0x100_0000_0000);
    assert(b < 1024 * kp) by (nonlinear_arith)
        requires
            b == k * kp,
            k < 1024,
            kp >= 1,
    ;
    assert(b >= kp) by (nonlinear_arith)
        requires
            b == k * kp,
            k >= 1,
    ;
    assert(b < 0x4_0000_0000_0000);
    assert(crate::size::double_step(b) == 1);
    assert(crate::size::double_value(b) == b);
    assert(crate::size::unit_index(b) == n);
    assert(b * 100 == (100 * k) * kp) by (nonlinear_arith)
        requires
            b == k * kp,
    ;
    vstd::arithmetic::div_mod::lemma_div_multiples_vanish((100 * k) as int, kp as int);
    vstd::arithmetic::div_mod::lemma_mod_multiples_basic((100 * k) as int, kp as int);
    assert((100 * k) * kp == kp * (100 * k)) by (nonlinear_arith);
    let h = crate::size::round_half_even(b * 100, kp);
    assert(h == 100 * k);
    assert(h / 100 == k);
    assert((h / 10) % 10 == 0);
    assert(h % 10 == 0);
    assert(crate::text::digit(0) == '0');
    let amount = crate::text::decimal(k) + seq!['.', '0', '0'];
    assert(crate::size::fixed2(h) =~= amount);
    assert(crate::size::bytes_text(b) =~= amount + (" "@ + crate::size::unit_name(n)));
}

/// The text `k.00` followed by a unit's name reads back as `k` units.
proof fn lemma_whole_unit_read(k: nat, n: nat)
    requires
        1 <= k < 1024,
        1 <= n <= 4,
    ensures
        storage_bytes(crate::text::decimal(k) + seq!['.', '0', '0'] + (" "@ + crate::size::unit_name(n)))
            == Some((k * pow2(10 * n)) as u64),
        k * pow2(10 * n) <= u64::MAX,
{
    reveal_strlit("Unknown");
    reveal_strlit(" ");
    lemma_unit_facts(n);
    vstd::arithmetic::power2::lemma2_to64();
    vstd::arithmetic::power2::lemma2_to64_rest();
    let d = crate::text::decimal(k);
    lemma_decimal_digits(k);
    let amount = d + seq!['.', '0', '0'];
    let u = crate::size::unit_name(n);
    let rest = " "@ + u;
    let text = amount + rest;
    // Trimming leaves the text as it is.
    assert(text[0] == d[0]);
    assert('0' <= d[0] && d[0] <= '9');
    assert(text.last() == 'B');
    assert(crate::text::trim_start(text) == text);
    assert(crate::text::trim_end(text) == text);
    assert(trim(text) == text);
    assert(text != unknown_text()) by {
        assert(unknown_text()[0] == 'U');
    }
    // The amount is "k.00".
    assert forall|i: int| 0 <= i < amount.len() implies is_amount_char(#[trigger] amount[i]) by {
        if i < d.len() {
            assert('0' <= d[i] && d[i] <= '9');
        }
    }
    assert(rest[0] == ' ');
    lemma_amount_before_space(amount, rest);
    assert(text.take(amount.len() as int) =~= amount);
    let zz = seq!['0', '0'];
    assert(amount_pieces(text) == seq![d, zz]) by {
        assert forall|i: int| 0 <= i < d.len() implies #[trigger] d[i] != '.' by {
            assert('0' <= d[i] && d[i] <= '9');
        }
        lemma_split_without_sep(d, '.');
        let a1 = d.push('.');
        let a2 = a1.push('0');
        assert(a2.drop_last() =~= a1);
        assert(a1.drop_last() =~= d);
        assert(a1.last() == '.');
        assert(split_on(a1, '.') =~= seq![d, Seq::<char>::empty()]);
        assert(a2.last() == '0');
        assert(split_on(a2, '.') =~= seq![d, seq!['0']]);
        assert(amount.drop_last() =~= a2);
        assert(amount.last() == '0');
        assert(seq!['0'].push('0') =~= zz);
        let p2 = split_on(a2, '.');
        assert(split_on(amount, '.') == p2.update(p2.len() - 1, p2.last().push('0')));
        assert(split_on(amount, '.') =~= seq![d, zz]);
    }
    assert(fraction_of(seq![d, zz]) == zz);
    // Its digits read 100 k over 10^2.
    assert(digits_value(d + zz) == k * 100) by {
        lemma_digits_concat(d, zz);
        assert(zz.drop_last() =~= seq!['0']);
        assert(seq!['0'].drop_last() =~= Seq::<char>::empty());
        assert(('0' as u32) == 48);
        let one = seq!['0'];
        assert(one.last() == '0');
        assert(digits_value(one.drop_last()) == 0);
        assert(digits_value(one) == digits_value(one.drop_last()) * 10 + ((one.last() as u32) - 48) as nat);
        assert(digits_value(seq!['0']) == 0);
        assert(digits_value(zz) == 0);
        reveal_with_fuel(pow10, 3);
        assert(pow10(2) == 100);
    }
    reveal_with_fuel(pow10, 3);
    // The unit reads back as 2^(10 n).
    assert(text.skip(amount.len() as int) =~= rest);
    assert(rest.drop_first() =~= u);
    assert(crate::text::trim_start(u) == u);
    assert(crate::text::trim_start(rest) == crate::text::trim_start(rest.drop_first()));
    assert(u.last() == 'B');
    assert(crate::text::trim_end(u) == u);
    assert(trim(rest) == u);
    // The double of 100 k / 100 times 2^(10 n) is k * 2^(10 n).
    assert(k < pow2(53));
    lemma_whole_exact(k, 100, 10 * n);
    assert(pow2(10 * n) <= 0x100_0000_0000);
    assert(k * pow2(10 * n) <= 1024 * 0x100_0000_0000) by (nonlinear_arith)
        requires
            k < 1024,
            pow2(10 * n) <= 0x100_0000_0000,
    ;
}

/// A whole number of KiB, MiB, GiB or TiB (below 1024 of them), written in
/// binary units, reads back as itself.
pub proof fn lemma_whole_unit_round_trip(k: nat, n: nat)
    requires
        1 <= k < 1024,
        1 <= n <= 4,
    ensures
        k * crate::size::kib_power(n) <= u64::MAX,
        storage_bytes(crate::size::bytes_text(k * crate::size::kib_power(n))) == Some(
            (k * crate::size::kib_power(n)) as u64,
        ),
{
    lemma_unit_facts(n);
    lemma_whole_unit_text(k, n);
    lemma_whole_unit_read(k, n);
}

} // verus!
