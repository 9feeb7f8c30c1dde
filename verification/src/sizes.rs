//! Human-readable byte sizes, as `format!("{:.1} GB", bytes as f64 / GB as f64)`
//! prints them.
//!
//! The value printed is a binary fraction: `bytes as f64` rounds `bytes` to
//! 53 significant bits (ties to even), and dividing by a power of two is
//! exact. `{:.1}` then prints that value rounded to tenths, ties to even.
//! Both steps are computed here on integers.
use vstd::prelude::*;
use crate::text::{decimal, push_decimal};

verus! {

pub const KB: u64 = 1024;
pub const MB: u64 = 1048576;
pub const GB: u64 = 1073741824;
pub const TB: u64 = 1099511627776;

/// `a / d` rounded to the nearest integer, ties to even.
pub open spec fn div_round_even(a: nat, d: nat) -> nat {
    let q = a / d;
    let r = a % d;
    if 2 * r > d || (2 * r == d && q % 2 == 1) {
        q + 1
    } else {
        q
    }
}

/// The power of two that `n` must be divided by to fit in the 53 bits of a
/// double's significand.
pub open spec fn f64_scale(n: nat) -> nat
    decreases n,
{
    if n < 0x20_0000_0000_0000 {
        1
    } else {
        2 * f64_scale(n / 2)
    }
}

/// The value of `n as f64`.
pub open spec fn f64_value(n: nat) -> nat {
    div_round_even(n, f64_scale(n)) * f64_scale(n)
}

/// `n as f64 / unit as f64` printed with `{:.1}`, in tenths.
pub open spec fn tenths(n: nat, unit: nat) -> nat {
    div_round_even(f64_value(n) * 10, unit)
}

/// A count of tenths written with one decimal.
pub open spec fn one_decimal(t: nat) -> Seq<char> {
    decimal(t / 10) + "."@ + decimal(t % 10)
}

/// `format_size`: bytes, KB, MB or GB with one decimal.
pub open spec fn size_text(n: nat) -> Seq<char> {
    if n >= GB {
        one_decimal(tenths(n, GB as nat)) + " GB"@
    } else if n >= MB {
        one_decimal(tenths(n, MB as nat)) + " MB"@
    } else if n >= KB {
        one_decimal(tenths(n, KB as nat)) + " KB"@
    } else {
        decimal(n) + " B"@
    }
}

/// `format_bytes`: as `size_text`, with terabytes above.
pub open spec fn bytes_text(n: nat) -> Seq<char> {
    if n >= TB {
        one_decimal(tenths(n, TB as nat)) + " TB"@
    } else {
        size_text(n)
    }
}

proof fn lemma_scale_pos(n: nat)
    ensures
        f64_scale(n) >= 1,
    decreases n,
{
    if n >= 0x20_0000_0000_0000 {
        lemma_scale_pos(n / 2);
    }
}

fn div_round_even_exec(a: u128, d: u128) -> (r: u128)
    requires
        d > 0,
        d < 0x1_0000_0000_0000_0000,
        a < 0x1_0000_0000_0000_0000_0000_0000,
    ensures
        r == div_round_even(a as nat, d as nat),
{
    let q = a / d;
    let r = a % d;
    if 2 * r > d || (2 * r == d && q % 2 == 1) {
        q + 1
    } else {
        q
    }
}

/// `n as f64`, as an integer.
fn f64_round(n: u64) -> (v: u128)
    ensures
        v == f64_value(n as nat),
        v < 0x2_0000_0000_0000_0000,
{
    let mut m: u64 = n;
    let mut p: u64 = 1;
    while m >= 0x20_0000_0000_0000
        invariant
            p >= 1,
            m == n / p,
            p * m <= n,
            f64_scale(n as nat) == p * f64_scale(m as nat),
            p > 1 ==> m >= 0x10_0000_0000_0000,
        decreases m,
    {
        proof {
            assert(p * 0x20_0000_0000_0000 <= p * m) by (nonlinear_arith)
                requires
                    m >= 0x20_0000_0000_0000,
                    p >= 1,
            ;
            assert(p < 0x800);
            vstd::arithmetic::div_mod::lemma_div_denominator(n as int, p as int, 2);
            assert(f64_scale(m as nat) == 2 * f64_scale((m / 2) as nat));
            assert(p * f64_scale(m as nat) == (p * 2) * f64_scale((m / 2) as nat))
                by (nonlinear_arith)
                requires
                    f64_scale(m as nat) == 2 * f64_scale((m / 2) as nat),
            ;
            assert((p * 2) * (m / 2) <= p * m) by (nonlinear_arith)
                requires
                    p >= 1,
            ;
        }
        m = m / 2;
        p = p * 2;
    }
    proof {
        vstd::arithmetic::div_mod::lemma_fundamental_div_mod(n as int, p as int);
        assert(f64_scale(m as nat) == 1);
        assert(p * f64_scale(m as nat) == p * 1);
        assert(f64_scale(n as nat) == p);
    }
    let r: u64 = n - p * m;
    let q: u64 = if 2 * (r as u128) > p as u128 || (2 * (r as u128) == p as u128 && m % 2 == 1) {
        m + 1
    } else {
        m
    };
    proof {
        assert(r == n % p);
        assert(q == div_round_even(n as nat, p as nat));
        assert(q * p <= n + p) by (nonlinear_arith)
            requires
                q <= m + 1,
                p * m <= n,
        ;
        assert(p <= n + 1) by (nonlinear_arith)
            requires
                p * m <= n,
                p >= 1,
                m >= 1 || p == 1,
        ;
    }
    (q as u128) * (p as u128)
}

/// Appends `t` tenths written with one decimal.
fn push_one_decimal(s: &mut String, t: u128)
    requires
        t < 0x1_0000_0000_0000_0000,
    ensures
        final(s)@ == old(s)@ + one_decimal(t as nat),
{
    push_decimal(s, (t / 10) as u64);
    s.append(".");
    push_decimal(s, (t % 10) as u64);
}

/// Appends `n` bytes in `unit`s with one decimal, as `{:.1}` prints the
/// floating-point quotient.
fn push_scaled(s: &mut String, n: u64, unit: u64)
    requires
        unit >= KB,
    ensures
        final(s)@ == old(s)@ + one_decimal(tenths(n as nat, unit as nat)),
{
    let v = f64_round(n);
    let t = div_round_even_exec(v * 10, unit as u128);
    proof {
        assert(t <= (v * 10) as int / (unit as int) + 1);
        assert((v * 10) as int / (unit as int) <= (v * 10) as int / 1024) by {
            vstd::arithmetic::div_mod::lemma_div_is_ordered_by_denominator(
                (v * 10) as int,
                1024,
                unit as int,
            );
        }
    }
    push_one_decimal(s, t);
}

/// Format a byte count human-readably (B, KB, MB, GB).
pub fn format_size(bytes: u64) -> (r: String)
    ensures
        r@ == size_text(bytes as nat),
{
    let mut s = String::new();
    if bytes >= GB {
        push_scaled(&mut s, bytes, GB);
        s.append(" GB");
    } else if bytes >= MB {
        push_scaled(&mut s, bytes, MB);
        s.append(" MB");
    } else if bytes >= KB {
        push_scaled(&mut s, bytes, KB);
        s.append(" KB");
    } else {
        push_decimal(&mut s, bytes);
        s.append(" B");
    }
    s
}

/// Format a byte count human-readably (B, KB, MB, GB, TB).
pub fn format_bytes(bytes: u64) -> (r: String)
    ensures
        r@ == bytes_text(bytes as nat),
{
    if bytes >= TB {
        let mut s = String::new();
        push_scaled(&mut s, bytes, TB);
        s.append(" TB");
        s
    } else {
        format_size(bytes)
    }
}

} // verus!
