//! The figures of the summary printed after a conversion.

use vstd::prelude::*;
use crate::text::{
    concat_str, decimal, decimal_string, digit_char, digit_exec, push_char, push_decimal,
};

verus! {

/// `2` to the power `k`.
pub open spec fn two_pow(k: nat) -> nat
    decreases k,
{
    if k == 0 {
        1
    } else {
        2 * two_pow((k - 1) as nat)
    }
}

/// `n / d` rounded to the nearest integer, ties to the even one.
pub open spec fn round_div(n: nat, d: nat) -> nat {
    let q = n / d;
    let r = n % d;
    if r > d - r || (r == d - r && q % 2 == 1) {
        q + 1
    } else {
        q
    }
}

/// The least `j >= k` (and at most 64) such that `n / 2^j` has at most 53
/// binary digits.
pub open spec fn f64_exp(n: nat, k: nat) -> nat
    decreases 64 - k,
{
    if k >= 64 || n / two_pow(k) < 0x20_0000_0000_0000 {
        k
    } else {
        f64_exp(n, k + 1)
    }
}

/// The value of `n as f64`: `n` rounded to 53 significant binary digits,
/// ties to even.
pub open spec fn as_f64(n: nat) -> nat {
    let d = two_pow(f64_exp(n, 0));
    round_div(n, d) * d
}

/// `t` tenths written with one decimal, as `{:.1}` writes a float.
pub open spec fn tenths_text(t: nat) -> Seq<char> {
    decimal(t / 10) + seq!['.', digit_char(t % 10)]
}

/// A byte count for people: `<x.y> MB` from 1 MiB on, `<x.y> KB` from 1 KiB
/// on, `<n> B` below; the decimal is that of the count converted to `f64`
/// and rounded to one place, ties to even.
pub open spec fn size_text(bytes: nat) -> Seq<char> {
    let b = as_f64(bytes);
    if b >= 0x10_0000 {
        tenths_text(round_div(b * 10, 0x10_0000)) + " MB"@
    } else if b >= 0x400 {
        tenths_text(round_div(b * 10, 0x400)) + " KB"@
    } else {
        decimal(bytes) + " B"@
    }
}

fn round_div_exec(n: u128, d: u128) -> (q: u128)
    requires
        d > 0,
        n < 0x1_0000_0000_0000_0000_0000,
    ensures
        q == round_div(n as nat, d as nat),
        q <= n / d + 1,
{
    let q = n / d;
    let r = n % d;
    if r > d - r || (r == d - r && q % 2 == 1) {
        q + 1
    } else {
        q
    }
}

/// `n as f64`, as an exact integer.
fn f64_value(n: u64) -> (v: u128)
    ensures
        v == as_f64(n as nat),
        v <= n + 0x800,
{
    let mut d: u64 = 1;
    let ghost mut k: nat = 0;
    assert(f64_exp(n as nat, 0) == f64_exp(n as nat, k));
    while n / d >= 0x20_0000_0000_0000
        invariant
            d == two_pow(k),
            1 <= d <= 0x800,
            k <= 11,
            f64_exp(n as nat, 0) == f64_exp(n as nat, k),
        decreases 11 - k,
    {
        assert(k < 11) by {
            if k == 11 {
                assert(two_pow(11) == 0x800) by {
                    reveal_with_fuel(two_pow, 12);
                }
                assert(n / 0x800 < 0x20_0000_0000_0000) by (nonlinear_arith)
                    requires
                        n < 0x1_0000_0000_0000_0000,
                ;
            }
        }
        proof {
            lemma_two_pow_monotone((k + 1) as nat, 11);
            assert(two_pow(11) == 0x800) by {
                reveal_with_fuel(two_pow, 12);
            }
        }
        d = d * 2;
        proof {
            k = k + 1;
        }
    }
    proof {
        assert(f64_exp(n as nat, k) == k);
    }
    let q = n / d;
    let r = n % d;
    let up = 2 * r > d || (2 * r == d && q % 2 == 1);
    let q2: u128 = if up {
        q as u128 + 1
    } else {
        q as u128
    };
    assert(q2 * d <= n + 0x800) by (nonlinear_arith)
        requires
            q == n / d,
            q2 <= q + 1,
            1 <= d <= 0x800,
    ;
    q2 * (d as u128)
}

proof fn lemma_two_pow_monotone(j: nat, k: nat)
    requires
        j <= k,
    ensures
        1 <= two_pow(j) <= two_pow(k),
    decreases k,
{
    if j < k {
        lemma_two_pow_monotone(j, (k - 1) as nat);
    } else if k > 0 {
        lemma_two_pow_monotone(0, (k - 1) as nat);
    }
}

fn push_tenths(out: &mut String, t: u128)
    requires
        t / 10 < 0x1_0000_0000_0000_0000,
    ensures
        final(out)@ == old(out)@ + tenths_text(t as nat),
{
    push_decimal(out, (t / 10) as u64);
    push_char(out, '.');
    let d = (t % 10) as u64;
    push_char(out, digit_exec(d));
}

/// A human-readable size: `12.3 MB`, `4.0 KB` or `512 B`.
pub fn human_size(bytes: u64) -> (s: String)
    ensures
        s@ == size_text(bytes as nat),
{
    let b = f64_value(bytes);
    if b >= 0x10_0000 {
        let t = round_div_exec(b * 10, 0x10_0000);
        let mut s = String::new();
        push_tenths(&mut s, t);
        s.append(" MB");
        s
    } else if b >= 0x400 {
        let t = round_div_exec(b * 10, 0x400);
        let mut s = String::new();
        push_tenths(&mut s, t);
        s.append(" KB");
        s
    } else {
        concat_str(&decimal_string(bytes), " B")
    }
}

/// The summary's image line: `none` where no image was attempted,
/// `<n> downloaded` where all were, `<n> downloaded, <m> skipped` otherwise.
pub open spec fn images_text(attempted: nat, downloaded: nat) -> Seq<char> {
    let skipped = if attempted > downloaded {
        (attempted - downloaded) as nat
    } else {
        0
    };
    if attempted == 0 {
        "none"@
    } else if skipped == 0 {
        decimal(downloaded) + " downloaded"@
    } else {
        decimal(downloaded) + " downloaded, "@ + decimal(skipped) + " skipped"@
    }
}

/// The summary's image line.
pub fn images_label(attempted: u64, downloaded: u64) -> (s: String)
    ensures
        s@ == images_text(attempted as nat, downloaded as nat),
{
    let skipped = attempted.saturating_sub(downloaded);
    if attempted == 0 {
        "none".to_owned()
    } else if skipped == 0 {
        concat_str(&decimal_string(downloaded), " downloaded")
    } else {
        let mut s = concat_str(&decimal_string(downloaded), " downloaded, ");
        s.append(&decimal_string(skipped));
        s.append(" skipped");
        s
    }
}

/// Below 1 KiB a size is its count of bytes, `B`; from 1 KiB to below 1 MiB
/// it is in `KB` with one decimal; nothing is attempted, all downloaded, or
/// some skipped, as the image line says.
pub proof fn size_and_image_lines(bytes: nat, attempted: nat, downloaded: nat)
    ensures
        bytes < 0x400 ==> size_text(bytes) == decimal(bytes) + " B"@,
        0x400 <= bytes < 0x10_0000 ==> size_text(bytes) == tenths_text(round_div(bytes * 10, 0x400))
            + " KB"@,
        attempted == 0 ==> images_text(attempted, downloaded) == "none"@,
        0 < attempted <= downloaded ==> images_text(attempted, downloaded) == decimal(downloaded)
            + " downloaded"@,
        downloaded < attempted ==> images_text(attempted, downloaded) == decimal(downloaded)
            + " downloaded, "@ + decimal((attempted - downloaded) as nat) + " skipped"@,
{
    if bytes < 0x10_0000 {
        assert(f64_exp(bytes, 0) == 0) by {
            assert(two_pow(0) == 1);
        }
        assert(round_div(bytes, 1) == bytes);
        assert(as_f64(bytes) == bytes);
    }
}

/// The rounding that the size takes is to the nearest integer, ties to the
/// even one.
pub proof fn round_div_is_nearest_even(n: nat, d: nat)
    requires
        d > 0,
    ensures
        ({
            let q = round_div(n, d);
            let err = if q * d >= n {
                q * d - n
            } else {
                n - q * d
            };
            &&& 2 * err <= d
            &&& 2 * err == d ==> q % 2 == 0
        }),
{
    let q = n / d;
    let r = n % d;
    assert(n == q * d + r && 0 <= r < d) by (nonlinear_arith)
        requires
            d > 0,
            q == n / d,
            r == n % d,
    ;
    assert((q + 1) * d == q * d + d) by (nonlinear_arith);
}

/// From 1 MiB up to 2^53 bytes (where `f64` is exact) a size is in `MB` with
/// one decimal.
pub proof fn megabyte_sizes(bytes: nat)
    requires
        0x10_0000 <= bytes < 0x20_0000_0000_0000,
    ensures
        size_text(bytes) == tenths_text(round_div(bytes * 10, 0x10_0000)) + " MB"@,
{
    assert(two_pow(0) == 1);
    assert(f64_exp(bytes, 0) == 0);
    assert(round_div(bytes, 1) == bytes);
    assert(as_f64(bytes) == bytes);
}

} // verus!
