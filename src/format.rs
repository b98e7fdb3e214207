//! Rendering of rates and percentages.
//!
//! Every figure is held exactly, as a ratio of integers, and rounded once, to
//! the nearest representable value with ties going to the even neighbour.
use crate::text::{decimal, fixed1, push_decimal, push_fixed1};
use vstd::arithmetic::power2::{pow2, lemma_pow2_adds, lemma_pow2_unfold, lemma_pow2_strictly_increases, lemma2_to64};
use vstd::prelude::*;

verus! {

/// `n / d` rounded to the nearest integer, ties to the even one.
pub open spec fn round_even(n: nat, d: nat) -> nat
    recommends
        d > 0,
{
    let q = n / d;
    let r = n % d;
    if 2 * r > d || (2 * r == d && q % 2 == 1) {
        q + 1
    } else {
        q
    }
}

/// Executable `round_even`.
pub fn div_round_even(n: u128, d: u128) -> (r: u128)
    requires
        d > 0,
        n < u128::MAX,
    ensures
        r == round_even(n as nat, d as nat),
{
    let q = n / d;
    let rem = n % d;
    proof {
        vstd::arithmetic::div_mod::lemma_fundamental_div_mod(n as int, d as int);
        if d > 1 {
            vstd::arithmetic::div_mod::lemma_div_is_ordered_by_denominator(n as int, 1, d as int);
        }
    }
    let up = rem > d - rem || (rem == d - rem && q % 2 == 1);
    if up {
        assert(q < n || (q == n && d == 1)) by {
            if d > 1 {
                vstd::arithmetic::div_mod::lemma_div_decreases(n as int, d as int);
            }
        }
        q + 1
    } else {
        q
    }
}

/// The text of a transfer speed of `bytes` per `nanos` nanoseconds: megabytes
/// per second from one million bytes per second up, kilobytes per second
/// below, each with one decimal. No elapsed time counts as no transfer.
pub open spec fn speed_text(bytes: nat, nanos: nat) -> Seq<char> {
    if nanos == 0 {
        fixed1(0) + seq!['K', 'B', '/', 's']
    } else if bytes * 1000 >= nanos {
        fixed1(round_even(bytes * 10_000, nanos)) + seq!['M', 'B', '/', 's']
    } else {
        fixed1(round_even(bytes * 10_000_000, nanos)) + seq!['K', 'B', '/', 's']
    }
}

/// Renders a speed of `bytes` transferred in `nanos` nanoseconds.
pub fn format_speed(bytes: u64, nanos: u64) -> (r: String)
    ensures
        r@ == speed_text(bytes as nat, nanos as nat),
{
    let mut s = String::new();
    push_speed(&mut s, bytes, nanos);
    assert(s@ =~= speed_text(bytes as nat, nanos as nat));
    s
}

/// Appends the speed of `bytes` per `nanos` nanoseconds to `s`.
pub fn push_speed(s: &mut String, bytes: u64, nanos: u64)
    ensures
        final(s)@ == old(s)@ + speed_text(bytes as nat, nanos as nat),
{
    proof {
        reveal_strlit("MB/s");
        reveal_strlit("KB/s");
    }
    let b = bytes as u128;
    let t = nanos as u128;
    assert(b * 10_000_000 <= u64::MAX * 10_000_000) by (nonlinear_arith)
        requires b <= u64::MAX;
    if nanos == 0 {
        push_fixed1(s, 0);
        s.append("KB/s");
    } else if b * 1000 >= t {
        push_fixed1(s, div_round_even(b * 10_000, t));
        s.append("MB/s");
    } else {
        push_fixed1(s, div_round_even(b * 10_000_000, t));
        s.append("KB/s");
    }
    assert(final(s)@ =~= old(s)@ + speed_text(bytes as nat, nanos as nat));
}

/// `used` out of `total` in tenths of a percent, rounded; no capacity at all
/// counts as nothing used.
pub open spec fn pct_tenths(used: nat, total: nat) -> nat {
    if total == 0 { 0 } else { round_even(used * 1000, total) }
}

/// `used` out of `total` in whole percent, rounded; no capacity at all counts
/// as nothing used.
pub open spec fn pct_whole(used: nat, total: nat) -> nat {
    if total == 0 { 0 } else { round_even(used * 100, total) }
}

/// Swap use in tenths of a percent.
pub fn swap_tenths(used: u64, total: u64) -> (r: u128)
    ensures
        r == pct_tenths(used as nat, total as nat),
        total == 0 ==> r == 0,
{
    if total == 0 {
        0
    } else {
        let u = used as u128;
        assert(u * 1000 <= u64::MAX * 1000) by (nonlinear_arith)
            requires u <= u64::MAX;
        div_round_even(u * 1000, total as u128)
    }
}

/// Memory use in whole percent.
pub fn mem_percent(used: u64, total: u64) -> (r: u128)
    ensures
        r == pct_whole(used as nat, total as nat),
{
    if total == 0 {
        0
    } else {
        let u = used as u128;
        assert(u * 100 <= u64::MAX * 100) by (nonlinear_arith)
            requires u <= u64::MAX;
        div_round_even(u * 100, total as u128)
    }
}

/// Whether the single-precision float with bit pattern `bits` is negative
/// (its sign bit is set).
pub open spec fn f32_negative(bits: u32) -> bool {
    bits >= 0x8000_0000
}

/// The biased exponent field of the bit pattern.
pub open spec fn f32_exponent(bits: u32) -> nat {
    ((bits as nat) / 0x80_0000) % 256
}

/// The fraction field of the bit pattern.
pub open spec fn f32_fraction(bits: u32) -> nat {
    (bits as nat) % 0x80_0000
}

/// The integer significand: the fraction with its implicit leading one,
/// which subnormal numbers lack.
pub open spec fn f32_significand(bits: u32) -> nat {
    if f32_exponent(bits) == 0 {
        f32_fraction(bits)
    } else {
        f32_fraction(bits) + 0x80_0000
    }
}

/// The finite magnitude is `f32_significand(bits) * 2^(f32_scale(bits) - 150)`.
pub open spec fn f32_scale(bits: u32) -> nat {
    if f32_exponent(bits) == 0 {
        1
    } else {
        f32_exponent(bits)
    }
}

/// The magnitude of a finite float with one decimal, rounded to the nearest
/// tenth with ties to even.
pub open spec fn f32_magnitude_text(bits: u32) -> Seq<char> {
    let m = f32_significand(bits);
    let e = f32_scale(bits);
    if e >= 150 {
        decimal(m * pow2((e - 150) as nat)) + seq!['.', '0']
    } else {
        fixed1(round_even(m * 10, pow2((150 - e) as nat)))
    }
}

/// The text of the float with bit pattern `bits` with one decimal: the exact
/// value rounded to the nearest tenth, ties to even, a leading `-` where the
/// sign bit is set, and `NaN`, `inf` or `-inf` for the special values.
pub open spec fn f32_text(bits: u32) -> Seq<char> {
    if f32_exponent(bits) == 255 {
        if f32_fraction(bits) != 0 {
            seq!['N', 'a', 'N']
        } else if f32_negative(bits) {
            seq!['-', 'i', 'n', 'f']
        } else {
            seq!['i', 'n', 'f']
        }
    } else if f32_negative(bits) {
        seq!['-'] + f32_magnitude_text(bits)
    } else {
        f32_magnitude_text(bits)
    }
}

proof fn lemma_pow2_128()
    ensures
        pow2(128) == u128::MAX + 1,
        pow2(127) < pow2(128),
{
    lemma2_to64();
    lemma_pow2_adds(64, 64);
    lemma_pow2_strictly_increases(127, 128);
}

/// `2^k` as an integer.
fn pow2_u128(k: u32) -> (r: u128)
    requires
        k < 128,
    ensures
        r == pow2(k as nat),
{
    proof {
        lemma_pow2_128();
        vstd::arithmetic::power2::lemma_pow2_pos(0);
        assert(pow2(0) == 1) by { lemma2_to64(); }
    }
    let mut p: u128 = 1;
    let mut i: u32 = 0;
    while i < k
        invariant
            i <= k < 128,
            p == pow2(i as nat),
            pow2(128) == u128::MAX + 1,
        decreases k - i,
    {
        proof {
            lemma_pow2_unfold((i + 1) as nat);
            lemma_pow2_strictly_increases((i + 1) as nat, 128);
        }
        p = p * 2;
        i = i + 1;
    }
    p
}

/// Appends the text of the float with bit pattern `bits`, with one decimal.
pub fn push_f32_fixed1(s: &mut String, bits: u32)
    ensures
        final(s)@ == old(s)@ + f32_text(bits),
{
    proof {
        reveal_strlit("NaN");
        reveal_strlit("inf");
        reveal_strlit("-inf");
        reveal_strlit("-");
        reveal_strlit(".0");
    }
    let expo: u32 = (bits / 0x80_0000) % 256;
    let frac: u32 = bits % 0x80_0000;
    if expo == 255 {
        if frac != 0 {
            s.append("NaN");
        } else if bits >= 0x8000_0000 {
            s.append("-inf");
        } else {
            s.append("inf");
        }
        return;
    }
    if bits >= 0x8000_0000 {
        s.append("-");
    }
    let ghost mid = s@;
    let mant: u128 = if expo == 0 { frac as u128 } else { frac as u128 + 0x80_0000 };
    let scale: u32 = if expo == 0 { 1 } else { expo };
    assert(mant == f32_significand(bits) && scale == f32_scale(bits));
    if scale >= 150 {
        let k = scale - 150;
        let p = pow2_u128(k);
        proof {
            lemma_pow2_128();
            assert(pow2(24) == 0x100_0000) by { lemma2_to64(); }
            if k < 104 {
                lemma_pow2_strictly_increases(k as nat, 104);
            }
            lemma_pow2_adds(24, 104);
            vstd::arithmetic::power2::lemma_pow2_pos(k as nat);
            assert(mant * p < pow2(24) * pow2(104)) by (nonlinear_arith)
                requires mant < pow2(24), p <= pow2(104), p > 0;
        }
        push_decimal(s, mant * p);
        s.append(".0");
    } else {
        let k = 150 - scale;
        if k > 100 {
            proof {
                lemma2_to64();
                lemma_pow2_strictly_increases(29, k as nat);
                vstd::arithmetic::div_mod::lemma_small_mod((mant * 10) as nat, pow2(k as nat));
                assert(((mant * 10) as nat) / pow2(k as nat) == 0) by {
                    vstd::arithmetic::div_mod::lemma_basic_div((mant * 10) as int, pow2(k as nat) as int);
                }
            }
            push_fixed1(s, 0);
        } else {
            let p = pow2_u128(k);
            proof {
                vstd::arithmetic::power2::lemma_pow2_pos(k as nat);
            }
            push_fixed1(s, div_round_even(mant * 10, p));
        }
    }
    assert(s@ =~= mid + f32_magnitude_text(bits));
}

} // verus!
