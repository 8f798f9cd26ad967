//! Human-readable durations ("500ns", "1.50μs", "2.00ms", "3.25s").
//!
//! The three fractional units show the duration as a double-precision value
//! in that unit, printed with two decimals: the count in the next smaller unit
//! is converted to `f64` and divided by 1000, each step rounding to the
//! nearest double (ties to even), and the double is then rounded to hundredths
//! (ties to even). All of it is computed here with exact integer arithmetic.
use vstd::prelude::*;
use vstd::string::*;
use std::time::Duration;
use vstd::arithmetic::power2::*;
use crate::text::{dec_chars, push_decimal};

verus! {

/// The number of nanoseconds in the longest `Duration` (`u64::MAX` seconds
/// and 999 999 999 nanoseconds).
pub const MAX_DURATION_NANOS: u128 = 18_446_744_073_709_551_615_999_999_999;

/// The number of nanoseconds in a duration.
pub uninterp spec fn nanos_of(d: Duration) -> u128;

/// `Duration::as_nanos`: the total number of whole nanoseconds.
#[verifier::external_body]
pub(crate) fn duration_as_nanos(d: &Duration) -> (n: u128)
    ensures
        n == nanos_of(*d),
        n <= MAX_DURATION_NANOS,
{
    d.as_nanos()
}

/// `Duration::from_secs`: a duration of `secs` whole seconds.
#[verifier::external_body]
pub(crate) fn duration_from_secs(secs: u64) -> (d: Duration)
    ensures
        nanos_of(d) == secs * 1_000_000_000,
{
    Duration::from_secs(secs)
}

/// The largest `t` with `b * 2^t <= a` (0 when `a < 2 * b`).
pub open spec fn ilog2_ratio(a: nat, b: nat) -> nat
    decreases a - b,
{
    if b == 0 || a < 2 * b {
        0
    } else {
        1 + ilog2_ratio(a, 2 * b)
    }
}

/// `a / b` rounded to the nearest integer, ties to even.
pub open spec fn rne(a: nat, b: nat) -> nat {
    let q = a / b;
    let r = a % b;
    if 2 * r > b || (2 * r == b && q % 2 == 1) {
        q + 1
    } else {
        q
    }
}

/// Mantissa of the double nearest to `a / b` (for `a >= b >= 1`): the
/// double is `mant * 2^(t - 52)` with `t = ilog2_ratio(a, b)`.
pub open spec fn f64_mant(a: nat, b: nat) -> nat {
    let t = ilog2_ratio(a, b);
    if t <= 52 {
        rne(a * pow2((52 - t) as nat), b)
    } else {
        rne(a, b * pow2((t - 52) as nat))
    }
}

/// The double nearest to `a / b`, rounded to hundredths (ties to even),
/// times 100.
pub open spec fn hundredths(a: nat, b: nat) -> nat {
    let t = ilog2_ratio(a, b);
    let m = f64_mant(a, b);
    if t >= 52 {
        100 * m * pow2((t - 52) as nat)
    } else {
        rne(100 * m, pow2((52 - t) as nat))
    }
}

/// The double nearest to the whole number `m` (`m >= 1`), which is again a
/// whole number.
pub open spec fn int_f64(m: nat) -> nat {
    let t = ilog2_ratio(m, 1);
    if t <= 52 {
        m
    } else {
        f64_mant(m, 1) * pow2((t - 52) as nat)
    }
}

/// `h / 100` with two decimals.
pub open spec fn fixed2(h: nat) -> Seq<char> {
    dec_chars(h / 100) + seq!['.'] + dec_chars(((h % 100) / 10) as nat) + dec_chars(
        (h % 10) as nat,
    )
}

/// The text of a duration of `n` nanoseconds.
pub open spec fn duration_text(n: nat) -> Seq<char> {
    if n < 1000 {
        dec_chars(n) + seq!['n', 's']
    } else if n < 1_000_000 {
        fixed2(hundredths(n, 1000)) + seq!['μ', 's']
    } else if n < 1_000_000_000 {
        fixed2(hundredths(n / 1000, 1000)) + seq!['m', 's']
    } else {
        fixed2(hundredths(int_f64(n / 1_000_000), 1000)) + seq!['s']
    }
}

/// Facts about the powers of two used here.
proof fn lemma_pow2_facts()
    ensures
        pow2(52) == 0x10_0000_0000_0000,
        pow2(53) == 0x20_0000_0000_0000,
        pow2(64) == 0x1_0000_0000_0000_0000,
        pow2(127) == 0x8000_0000_0000_0000_0000_0000_0000_0000,
{
    lemma2_to64();
    lemma2_to64_rest();
    lemma_pow2_adds(64, 63);
}

/// `2^e` as a number.
fn pow2_u128(e: u32) -> (r: u128)
    requires
        e < 128,
    ensures
        r == pow2(e as nat),
{
    let mut r: u128 = 1;
    let mut i: u32 = 0;
    proof {
        lemma2_to64();
    }
    while i < e
        invariant
            i <= e,
            e < 128,
            r == pow2(i as nat),
        decreases e - i,
    {
        proof {
            lemma_pow2_facts();
            if i + 1 < 127 {
                lemma_pow2_strictly_increases((i + 1) as nat, 127);
            }
            lemma_pow2_unfold((i + 1) as nat);
        }
        r = r * 2;
        i = i + 1;
    }
    r
}

/// `a / b` rounded to the nearest integer, ties to even.
fn rne_div(a: u128, b: u128) -> (q: u128)
    requires
        b >= 1,
        b < 0x8000_0000_0000_0000_0000_0000_0000_0000,
    ensures
        q == rne(a as nat, b as nat),
{
    let q = a / b;
    let r = a % b;
    if 2 * r > b || (2 * r == b && q % 2 == 1) {
        proof {
            if b == 1 {
                assert(r == 0);
            } else {
                assert(q * 2 <= a) by (nonlinear_arith)
                    requires
                        q == a / b,
                        b >= 2,
                ;
            }
        }
        q + 1
    } else {
        q
    }
}

/// `ilog2_ratio(a, b)`, with the bounds it stands for.
fn ilog2_of(a: u128, b: u128) -> (t: u32)
    requires
        1 <= b <= a,
        a < 0x1000_0000_0000_0000_0000,
    ensures
        t == ilog2_ratio(a as nat, b as nat),
        b * pow2(t as nat) <= a < b * pow2(t as nat + 1),
        t < 76,
{
    let mut t: u32 = 0;
    let mut bb: u128 = b;
    proof {
        lemma2_to64();
    }
    while a >= 2 * bb
        invariant
            1 <= b <= bb <= a,
            a < 0x1000_0000_0000_0000_0000,
            bb == b * pow2(t as nat),
            ilog2_ratio(a as nat, b as nat) == t + ilog2_ratio(a as nat, bb as nat),
            pow2(t as nat) <= bb,
            t < 76,
        decreases a - bb,
    {
        proof {
            lemma_pow2_unfold((t + 1) as nat);
            assert(2 * (b * pow2(t as nat)) == b * (2 * pow2(t as nat))) by (nonlinear_arith);
            assert(pow2(t as nat) <= b * pow2(t as nat)) by (nonlinear_arith)
                requires
                    b >= 1,
            ;
        }
        bb = 2 * bb;
        t = t + 1;
        proof {
            if t >= 76 {
                lemma2_to64_rest();
                lemma_pow2_adds(64, 12);
                lemma2_to64();
                if t > 76 {
                    lemma_pow2_strictly_increases(76, t as nat);
                }
                assert(false);
            }
        }
    }
    proof {
        lemma_pow2_unfold((t + 1) as nat);
        assert(2 * (b * pow2(t as nat)) == b * (2 * pow2(t as nat))) by (nonlinear_arith);
    }
    t
}

/// The rounded mantissa never exceeds `2^53`.
proof fn lemma_mant_bound(a: nat, b: nat, t: nat, m: nat)
    requires
        b >= 1,
        b * pow2(t) <= a < b * pow2(t + 1),
        t <= 52 ==> m == rne(a * pow2((52 - t) as nat), b),
        t > 52 ==> m == rne(a, b * pow2((t - 52) as nat)),
    ensures
        m <= pow2(53),
{
    lemma_pow2_pos(t);
    if t <= 52 {
        lemma_pow2_adds(t + 1, (52 - t) as nat);
        lemma_pow2_pos((52 - t) as nat);
        let x = a * pow2((52 - t) as nat);
        assert(x < b * pow2(53)) by (nonlinear_arith)
            requires
                a < b * pow2(t + 1),
                pow2(t + 1) * pow2((52 - t) as nat) == pow2(53),
                x == a * pow2((52 - t) as nat),
                pow2((52 - t) as nat) >= 1,
        ;
        lemma_rne_le(x, b, pow2(53));
    } else {
        let d = b * pow2((t - 52) as nat);
        lemma_pow2_adds((t - 52) as nat, 53);
        lemma_pow2_pos((t - 52) as nat);
        assert(t + 1 == (t - 52) as nat + 53);
        assert(a < d * pow2(53)) by (nonlinear_arith)
            requires
                a < b * pow2(t + 1),
                pow2(t + 1) == pow2((t - 52) as nat) * pow2(53),
                d == b * pow2((t - 52) as nat),
        ;
        assert(d >= 1) by (nonlinear_arith)
            requires
                b >= 1,
                pow2((t - 52) as nat) >= 1,
                d == b * pow2((t - 52) as nat),
        ;
        lemma_rne_le(a, d, pow2(53));
    }
}

/// `x < b * k` gives `rne(x, b) <= k`.
proof fn lemma_rne_le(x: nat, b: nat, k: nat)
    requires
        b >= 1,
        x < b * k,
    ensures
        rne(x, b) <= k,
{
    assert(x / b < k) by (nonlinear_arith)
        requires
            x < b * k,
            b >= 1,
    ;
}

/// `hundredths(a, b)`: the double nearest to `a / b`, in hundredths.
fn hundredths_of(a: u128, b: u128) -> (h: u128)
    requires
        1 <= b <= 1000,
        b <= a,
        a < 0x1000_0000_0000_0000_0000,
    ensures
        h == hundredths(a as nat, b as nat),
{
    let t = ilog2_of(a, b);
    proof {
        lemma_pow2_facts();
        lemma_pow2_pos(t as nat);
    }
    let m: u128;
    if t <= 52 {
        let sh = pow2_u128(52 - t);
        proof {
            lemma_pow2_adds((t + 1) as nat, (52 - t) as nat);
            lemma_pow2_pos((52 - t) as nat);
            assert(a * pow2((52 - t) as nat) < b * pow2(53)) by (nonlinear_arith)
                requires
                    a < b * pow2(t as nat + 1),
                    pow2(t as nat + 1) * pow2((52 - t) as nat) == pow2(53),
                    pow2((52 - t) as nat) >= 1,
            ;
        }
        m = rne_div(a * sh, b);
    } else {
        let sh = pow2_u128(t - 52);
        proof {
            lemma_pow2_adds((t - 52) as nat, 52);
            lemma_pow2_pos((t - 52) as nat);
            assert(b * pow2((t - 52) as nat) <= b * pow2(t as nat)) by (nonlinear_arith)
                requires
                    pow2(t as nat) == pow2((t - 52) as nat) * pow2(52),
                    pow2(52) >= 1,
                    b >= 1,
            ;
            assert(b * pow2((t - 52) as nat) >= 1) by (nonlinear_arith)
                requires
                    pow2((t - 52) as nat) >= 1,
                    b >= 1,
            ;
        }
        m = rne_div(a, b * sh);
    }
    proof {
        lemma_mant_bound(a as nat, b as nat, t as nat, m as nat);
    }
    if t >= 52 {
        let sh = pow2_u128(t - 52);
        proof {
            lemma_pow2_adds(53, (t - 52) as nat);
            lemma_pow2_strictly_increases((t + 1) as nat, 90);
            lemma_pow2_adds(64, 26);
            lemma2_to64();
            assert(100 * m * pow2((t - 52) as nat) <= 100 * (pow2(53) * pow2((t - 52) as nat)))
                by (nonlinear_arith)
                requires
                    m <= pow2(53),
            ;
        }
        100 * m * sh
    } else {
        let sh = pow2_u128(52 - t);
        proof {
            if 52 - t < 52 {
                lemma_pow2_strictly_increases((52 - t) as nat, 52);
            }
            lemma_pow2_pos((52 - t) as nat);
        }
        rne_div(100 * m, sh)
    }
}

/// Append `h / 100` with two decimals.
fn push_fixed2(s: &mut String, h: u128)
    ensures
        final(s)@ == old(s)@ + fixed2(h as nat),
{
    push_decimal(s, h / 100);
    s.append(".");
    proof {
        reveal_strlit(".");
    }
    push_decimal(s, (h % 100) / 10);
    push_decimal(s, h % 10);
    assert(final(s)@ =~= old(s)@ + fixed2(h as nat));
}

/// The text of a duration: whole nanoseconds below 1µs, else microseconds
/// below 1ms, milliseconds below 1s, and seconds, each of the last three with
/// two decimals ("500ns", "500.00μs", "500.00ms", "2.00s").
pub fn format_duration(duration: Duration) -> (s: String)
    ensures
        s@ == duration_text(nanos_of(duration) as nat),
{
    format_duration_nanos(duration_as_nanos(&duration))
}

/// The text of a duration of `n` nanoseconds (see `format_duration`).
pub fn format_duration_nanos(n: u128) -> (s: String)
    requires
        n <= MAX_DURATION_NANOS,
    ensures
        s@ == duration_text(n as nat),
{
    let mut s = String::new();
    if n < 1000 {
        push_decimal(&mut s, n);
        s.append("ns");
        proof {
            reveal_strlit("ns");
        }
    } else if n < 1_000_000 {
        push_fixed2(&mut s, hundredths_of(n, 1000));
        s.append("μs");
        proof {
            reveal_strlit("μs");
        }
    } else if n < 1_000_000_000 {
        push_fixed2(&mut s, hundredths_of(n / 1000, 1000));
        s.append("ms");
        proof {
            reveal_strlit("ms");
        }
    } else {
        let millis = n / 1_000_000;
        let v = int_to_f64_value(millis);
        push_fixed2(&mut s, hundredths_of(v, 1000));
        s.append("s");
        proof {
            reveal_strlit("s");
        }
    }
    s
}

/// `int_f64(m)`: the double nearest to the whole number `m`.
fn int_to_f64_value(m: u128) -> (v: u128)
    requires
        1000 <= m,
        m < 0x800_0000_0000_0000_0000,
    ensures
        v == int_f64(m as nat),
        1000 <= v < 0x1000_0000_0000_0000_0000,
{
    let t = ilog2_of(m, 1);
    if t <= 52 {
        m
    } else {
        let sh = pow2_u128(t - 52);
        proof {
            lemma_pow2_facts();
            lemma_pow2_adds((t - 52) as nat, 52);
            lemma_pow2_pos((t - 52) as nat);
        }
        let mant = rne_div(m, sh);
        proof {
            lemma_mant_bound(m as nat, 1, t as nat, mant as nat);
            lemma_pow2_adds(53, (t - 52) as nat);
            lemma_pow2_unfold((t + 1) as nat);
            assert(mant * pow2((t - 52) as nat) <= pow2(53) * pow2((t - 52) as nat)) by (nonlinear_arith)
                requires
                    mant <= pow2(53),
            ;
            assert(m >= sh * pow2(52));
            assert(mant >= pow2(52)) by (nonlinear_arith)
                requires
                    mant == rne(m as nat, sh as nat),
                    m >= sh * pow2(52),
                    sh >= 1,
            ;
            assert(pow2(t as nat) <= m);
            assert(mant * sh <= 2 * pow2(t as nat));
            assert(mant * sh >= 1000) by (nonlinear_arith)
                requires
                    mant >= pow2(52),
                    pow2(52) == 0x10_0000_0000_0000,
                    sh >= 1,
            ;
        }
        mant * sh
    }
}

} // verus!
