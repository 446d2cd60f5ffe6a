//! Human-readable byte sizes, as the dashboard prints them.
use vstd::prelude::*;
use vstd::arithmetic::div_mod::{lemma_div_denominator, lemma_fundamental_div_mod};
use crate::text::{decimal, push_decimal, push_zero_padded, string_push, zero_pad};

verus! {

pub open spec fn two_pow(k: nat) -> nat
    decreases k,
{
    if k == 0 {
        1
    } else {
        2 * two_pow((k - 1) as nat)
    }
}

pub open spec fn ten_pow(k: nat) -> nat
    decreases k,
{
    if k == 0 {
        1
    } else {
        10 * ten_pow((k - 1) as nat)
    }
}

/// `n / d` rounded to the nearest integer, ties to the even one.
pub open spec fn div_round_half_even(n: nat, d: nat) -> nat
    recommends
        d > 0,
{
    let q = n / d;
    let r = n % d;
    if 2 * r > d || (2 * r == d && q % 2 == 1) {
        q + 1
    } else {
        q
    }
}

/// How many low bits a 64-bit integer loses when it becomes an `f64`, whose
/// significand holds 53 bits.
pub open spec fn f64_shift(n: nat) -> nat
    decreases n,
{
    if n < 9007199254740992 {
        0
    } else {
        1 + f64_shift(n / 2)
    }
}

/// The value of `n as f64`: `n` rounded to 53 significant bits, ties to even.
pub open spec fn f64_value(n: nat) -> nat {
    let s = f64_shift(n);
    div_round_half_even(n, two_pow(s)) * two_pow(s)
}

/// Text of the number `q / 10^p` with exactly `p` digits after the point
/// (no point when `p` is zero).
pub open spec fn fixed_text(q: nat, p: nat) -> Seq<char> {
    if p == 0 {
        decimal(q)
    } else {
        decimal(q / ten_pow(p)) + seq!['.'] + zero_pad(decimal(q % ten_pow(p)), p)
    }
}

/// What `format!("{:.p}", v / 2^k)` prints for a value `v` exactly held by
/// an `f64`: the quotient rounded to `p` decimals, ties to even.
pub open spec fn scaled_text(v: nat, k: nat, p: nat) -> Seq<char> {
    fixed_text(div_round_half_even(v * ten_pow(p), two_pow(k)), p)
}

/// The text of a byte count: below 1 KiB in bytes, then KB with no
/// decimals, MB and GB with one, TB with two (binary units).
pub open spec fn format_bytes_text(bytes: nat) -> Seq<char> {
    if bytes >= two_pow(40) {
        scaled_text(f64_value(bytes), 40, 2) + " TB"@
    } else if bytes >= two_pow(30) {
        scaled_text(bytes, 30, 1) + " GB"@
    } else if bytes >= two_pow(20) {
        scaled_text(bytes, 20, 1) + " MB"@
    } else if bytes >= two_pow(10) {
        scaled_text(bytes, 10, 0) + " KB"@
    } else {
        decimal(bytes) + " B"@
    }
}

proof fn lemma_two_pow_values()
    ensures
        two_pow(10) == 1024,
        two_pow(20) == 1048576,
        two_pow(30) == 1073741824,
        two_pow(40) == 1099511627776,
        two_pow(53) == 9007199254740992,
        two_pow(64) == 18446744073709551616,
        ten_pow(0) == 1,
        ten_pow(1) == 10,
        ten_pow(2) == 100,
{
    reveal_with_fuel(two_pow, 65);
    reveal_with_fuel(ten_pow, 3);
}

proof fn lemma_two_pow_pos(k: nat)
    ensures
        two_pow(k) >= 1,
    decreases k,
{
    if k > 0 {
        lemma_two_pow_pos((k - 1) as nat);
    }
}

proof fn lemma_two_pow_mono(a: nat, b: nat)
    requires
        a <= b,
    ensures
        two_pow(a) <= two_pow(b),
    decreases b,
{
    if a < b {
        lemma_two_pow_mono(a, (b - 1) as nat);
        lemma_two_pow_pos((b - 1) as nat);
    }
}

/// `n / d` rounded half to even, for `d > 0` and `n` below 2^127.
fn div_round_half_even_exec(n: u128, d: u128) -> (q: u128)
    requires
        d > 0,
        n < 0x8000_0000_0000_0000_0000_0000_0000_0000,
    ensures
        q == div_round_half_even(n as nat, d as nat),
{
    let q = n / d;
    let r = n % d;
    assert(r < d);
    if r > d - r || (r == d - r && q % 2 == 1) {
        assert(q < 0x8000_0000_0000_0000_0000_0000_0000_0000) by {
            vstd::arithmetic::div_mod::lemma_div_is_ordered_by_denominator(n as int, 1, d as int);
        }
        q + 1
    } else {
        q
    }
}

/// The value of `n as f64`, as an integer.
fn f64_value_exec(n: u64) -> (v: u128)
    ensures
        v == f64_value(n as nat),
        v <= two_pow(64),
{
    proof {
        lemma_two_pow_values();
    }
    let mut m: u128 = n as u128;
    let mut p: u128 = 1;
    let ghost mut s: nat = 0;
    while m >= 9007199254740992
        invariant
            p == two_pow(s),
            m == (n as nat) / two_pow(s),
            f64_shift(n as nat) == s + f64_shift(m as nat),
            two_pow(53) == 9007199254740992,
            m <= n,
            p * m <= n,
            s <= 64,
            s > 0 ==> m >= 4503599627370496,
        decreases m,
    {
        proof {
            lemma_two_pow_pos(s);
            lemma_div_denominator(n as int, p as int, 2);
            assert(m / 2 == (n as nat) / two_pow(s + 1));
            assert(p * 2 * (m / 2) <= p * m) by (nonlinear_arith)
                requires
                    p >= 1,
            ;
            if s >= 11 {
                lemma_two_pow_mono(11, s);
                assert(two_pow(11) == 2048) by {
                    reveal_with_fuel(two_pow, 12);
                }
                assert(p * m >= 2048 * 9007199254740992) by (nonlinear_arith)
                    requires
                        p >= 2048,
                        m >= 9007199254740992,
                ;
                assert(false);
            }
        }
        assert(p <= 2048) by (nonlinear_arith)
            requires
                p * m <= n,
                m >= 9007199254740992,
                n < 18446744073709551616,
        ;
        m = m / 2;
        p = p * 2;
        proof {
            s = s + 1;
        }
    }
    // n = p * m + r with r < p
    let r: u128 = n as u128 - p * m;
    proof {
        lemma_two_pow_pos(s);
        lemma_fundamental_div_mod(n as int, p as int);
        assert(r == (n as nat) % two_pow(s));
    }
    let v: u128;
    if p == 1 {
        v = m;
        proof {
            assert(r == 0);
            assert(f64_shift(m as nat) == 0);
        }
    } else {
        let q = div_round_half_even_exec(n as u128, p);
        proof {
            assert(q <= m + 1);
            assert(m < 9007199254740992);
            assert(p <= 2048) by {
                if s > 11 {
                    lemma_two_pow_mono(12, s);
                    assert(two_pow(12) == 4096) by {
                        reveal_with_fuel(two_pow, 13);
                    }
                    assert(p * m >= 4096 * 4503599627370496) by (nonlinear_arith)
                        requires
                            p >= 4096,
                            m >= 4503599627370496,
                    ;
                    assert(false);
                }
                lemma_two_pow_mono(s, 11);
                assert(two_pow(11) == 2048) by {
                    reveal_with_fuel(two_pow, 12);
                }
            }
            assert(q * p <= (m + 1) * p) by (nonlinear_arith)
                requires
                    q <= m + 1,
            ;
            assert((m + 1) * p <= 9007199254740992 * 2048) by (nonlinear_arith)
                requires
                    m + 1 <= 9007199254740992,
                    p <= 2048,
            ;
        }
        v = q * p;
        proof {
            assert(f64_shift(m as nat) == 0);
            assert(9007199254740992 * 2048 == two_pow(64));
        }
    }
    proof {
        if p == 1 {
            assert(s == 0) by {
                if s > 0 {
                    lemma_two_pow_mono(1, s);
                    assert(two_pow(1) == 2);
                }
            }
            assert(m == n);
            assert(v == f64_value(n as nat)) by {
                assert(div_round_half_even(n as nat, 1) == n);
            }
            assert(n < two_pow(64));
        }
    }
    v
}

/// Appends the text of `q / 10^p` with `p` decimals (`p` at most 2).
fn push_fixed(s: &mut String, q: u128, p: u64)
    requires
        p <= 2,
    ensures
        final(s)@ == old(s)@ + fixed_text(q as nat, p as nat),
{
    proof {
        lemma_two_pow_values();
    }
    if p == 0 {
        push_decimal(s, q);
    } else {
        let t: u128 = if p == 1 { 10 } else { 100 };
        push_decimal(s, q / t);
        string_push(s, '.');
        push_zero_padded(s, q % t, p as usize);
        proof {
            assert(s@ =~= old(s)@ + fixed_text(q as nat, p as nat));
        }
    }
}

/// Formats a byte count with binary units: "512 B", "4 KB", "1.5 MB",
/// "2.0 GB", "1.25 TB"; the number is the count divided by the unit, rounded
/// to the shown decimals.
pub fn format_bytes(bytes: u64) -> (s: String)
    ensures
        s@ == format_bytes_text(bytes as nat),
{
    proof {
        lemma_two_pow_values();
    }
    let mut s = String::new();
    if bytes >= 1099511627776 {
        let v = f64_value_exec(bytes);
        let q = div_round_half_even_exec(v * 100, 1099511627776);
        push_fixed(&mut s, q, 2);
        s.append(" TB");
    } else if bytes >= 1073741824 {
        let q = div_round_half_even_exec(bytes as u128 * 10, 1073741824);
        push_fixed(&mut s, q, 1);
        s.append(" GB");
    } else if bytes >= 1048576 {
        let q = div_round_half_even_exec(bytes as u128 * 10, 1048576);
        push_fixed(&mut s, q, 1);
        s.append(" MB");
    } else if bytes >= 1024 {
        let q = div_round_half_even_exec(bytes as u128, 1024);
        push_fixed(&mut s, q, 0);
        s.append(" KB");
    } else {
        push_decimal(&mut s, bytes as u128);
        s.append(" B");
    }
    s
}

} // verus!
