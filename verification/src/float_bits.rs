//! IEEE-754 binary64 predicates and the one float computation queries need, evaluated exactly
//! on bit patterns.
use vstd::prelude::*;

verus! {

/// `2^k`.
pub open spec fn p2(k: nat) -> nat
    decreases k,
{
    if k == 0 {
        1
    } else {
        2 * p2((k - 1) as nat)
    }
}

pub open spec fn f64_sign(b: u64) -> nat {
    (b as nat) / p2(63)
}

pub open spec fn f64_exp(b: u64) -> nat {
    ((b as nat) / p2(52)) % 2048
}

pub open spec fn f64_frac(b: u64) -> nat {
    (b as nat) % p2(52)
}

pub open spec fn f64_is_nan(b: u64) -> bool {
    f64_exp(b) == 2047 && f64_frac(b) != 0
}

/// Neither infinite nor NaN.
pub open spec fn f64_is_finite(b: u64) -> bool {
    f64_exp(b) != 2047
}

/// Order key: magnitude bits, negated for negative values (both zeros map to `0`).
pub open spec fn f64_key(b: u64) -> int {
    let mag = (b as nat) % p2(63);
    if f64_sign(b) == 1 {
        -(mag as int)
    } else {
        mag as int
    }
}

/// IEEE `a <= b` (false when either is NaN).
pub open spec fn f64_le(a: u64, b: u64) -> bool {
    !f64_is_nan(a) && !f64_is_nan(b) && f64_key(a) <= f64_key(b)
}

/// IEEE `a < b` (false when either is NaN).
pub open spec fn f64_lt(a: u64, b: u64) -> bool {
    !f64_is_nan(a) && !f64_is_nan(b) && f64_key(a) < f64_key(b)
}

/// Bit patterns of `0.0`, `1.0` and `100.0`.
pub const F64_ZERO_BITS: u64 = 0;
pub const F64_ONE_BITS: u64 = 0x3FF0_0000_0000_0000;
pub const F64_HUNDRED_BITS: u64 = 0x4059_0000_0000_0000;

proof fn lemma_p2_values()
    ensures
        p2(52) == 0x10_0000_0000_0000,
        p2(63) == 0x8000_0000_0000_0000,
{
    reveal_with_fuel(p2, 64);
}

/// The patterns `x` with `0.0 <= x <= 1.0` are exactly those of `0.0` up to `1.0` (no sign bit)
/// and `-0.0`: a negative value, a value above one and NaN all fall outside.
pub proof fn lemma_f64_unit_interval(b: u64)
    ensures
        (f64_le(F64_ZERO_BITS, b) && f64_le(b, F64_ONE_BITS)) <==> (b <= F64_ONE_BITS || b
            == 0x8000_0000_0000_0000u64),
{
    lemma_p2_values();
    assert(f64_key(F64_ZERO_BITS) == 0);
    assert(f64_key(F64_ONE_BITS) == F64_ONE_BITS);
    assert(!f64_is_nan(F64_ZERO_BITS));
    assert(!f64_is_nan(F64_ONE_BITS)) by {
        assert((F64_ONE_BITS as nat) / p2(52) == 0x3FF);
    }
    if b < 0x8000_0000_0000_0000u64 {
        assert(f64_sign(b) == 0);
        assert(f64_key(b) == b as int);
        if b <= F64_ONE_BITS {
            assert((b as nat) / p2(52) <= 0x3FF);
            assert(!f64_is_nan(b));
        }
    } else {
        assert(f64_sign(b) == 1);
        assert((b as nat) % p2(63) == b - 0x8000_0000_0000_0000u64);
        if b == 0x8000_0000_0000_0000u64 {
            assert(f64_exp(b) == 0);
            assert(!f64_is_nan(b));
        }
    }
}

/// `2^k` as a `u64`.
fn pow2_u64(k: u32) -> (r: u64)
    requires
        k <= 63,
    ensures
        r == p2(k as nat),
        r >= 1,
{
    proof {
        lemma_p2_mono(0, k as nat);
    }
    let mut r: u64 = 1;
    let mut i: u32 = 0;
    while i < k
        invariant
            0 <= i <= k <= 63,
            r == p2(i as nat),
            r <= 0x8000_0000_0000_0000,
        decreases k - i,
    {
        proof {
            lemma_p2_mono(i as nat + 1, 63);
            lemma_p2_values();
        }
        r = r * 2;
        i += 1;
    }
    r
}

/// `2^a <= 2^b` when `a <= b`.
pub proof fn lemma_p2_mono(a: nat, b: nat)
    requires
        a <= b,
    ensures
        p2(a) <= p2(b),
        p2(a) >= 1,
    decreases b,
{
    if b > a {
        lemma_p2_mono(a, (b - 1) as nat);
    } else if a > 0 {
        lemma_p2_mono((a - 1) as nat, (a - 1) as nat);
    }
}

/// Whether the value is finite (`f64::is_finite`).
pub fn f64_bits_is_finite(b: u64) -> (r: bool)
    ensures
        r == f64_is_finite(b),
{
    proof {
        lemma_p2_values();
    }
    (b / 0x10_0000_0000_0000) % 2048 != 2047
}

fn f64_bits_is_nan(b: u64) -> (r: bool)
    ensures
        r == f64_is_nan(b),
{
    proof {
        lemma_p2_values();
    }
    (b / 0x10_0000_0000_0000) % 2048 == 2047 && b % 0x10_0000_0000_0000 != 0
}

fn f64_bits_key(b: u64) -> (r: i128)
    ensures
        r == f64_key(b),
{
    proof {
        lemma_p2_values();
    }
    let mag = (b % 0x8000_0000_0000_0000) as i128;
    if b / 0x8000_0000_0000_0000 == 1 {
        -mag
    } else {
        mag
    }
}

/// IEEE `a <= b` on bit patterns.
pub fn f64_bits_le(a: u64, b: u64) -> (r: bool)
    ensures
        r == f64_le(a, b),
{
    !f64_bits_is_nan(a) && !f64_bits_is_nan(b) && f64_bits_key(a) <= f64_bits_key(b)
}

/// IEEE `a < b` on bit patterns.
pub fn f64_bits_lt(a: u64, b: u64) -> (r: bool)
    ensures
        r == f64_lt(a, b),
{
    !f64_bits_is_nan(a) && !f64_bits_is_nan(b) && f64_bits_key(a) < f64_bits_key(b)
}

/// Number of binary digits of `n` (`0` for `0`).
pub open spec fn bitlen(n: nat) -> nat
    decreases n,
{
    if n == 0 {
        0
    } else {
        1 + bitlen(n / 2)
    }
}

/// `n / 2^d` rounded to nearest, ties to even.
pub open spec fn rne(n: nat, d: nat) -> nat {
    let q = n / p2(d);
    let r = n % p2(d);
    if d == 0 {
        n
    } else if 2 * r > p2(d) || (2 * r == p2(d) && q % 2 == 1) {
        q + 1
    } else {
        q
    }
}

/// `f / 2^t` rounded to nearest, ties away from zero.
pub open spec fn round_half_away(f: nat, t: nat) -> nat {
    let q = f / p2(t);
    let r = f % p2(t);
    if t > 0 && 2 * r >= p2(t) {
        q + 1
    } else {
        q
    }
}

/// Significand and negated binary exponent of a non-negative finite value: `M / 2^s`.
pub open spec fn f64_significand(b: u64) -> nat {
    if f64_exp(b) == 0 {
        f64_frac(b)
    } else {
        f64_frac(b) + p2(52)
    }
}

pub open spec fn f64_scale(b: u64) -> nat {
    if f64_exp(b) == 0 {
        1074
    } else {
        (1075 - f64_exp(b)) as nat
    }
}

/// `(p * 100.0).round()` for a percent `p` in `[0, 100]`: the product `100·M/2^s` is rounded
/// to 53 significant bits (ties to even), then to an integer (ties away from zero).
pub open spec fn spec_percent_to_bps(b: u64) -> nat {
    let n = 100 * f64_significand(b);
    let l = bitlen(n);
    let d: nat = if l > 53 {
        (l - 53) as nat
    } else {
        0
    };
    round_half_away(rne(n, d), (f64_scale(b) - d) as nat)
}

/// A percent in `[0, 100]` (either zero counts as zero).
pub open spec fn percent_in_range(b: u64) -> bool {
    f64_le(F64_ZERO_BITS, b) && f64_le(b, F64_HUNDRED_BITS)
}

proof fn lemma_bitlen_bound(n: nat)
    ensures
        n < p2(bitlen(n)),
        n > 0 ==> p2((bitlen(n) - 1) as nat) <= n,
    decreases n,
{
    if n > 0 {
        lemma_bitlen_bound(n / 2);
    }
}

proof fn lemma_div_p2_bound(n: nat, d: nat, k: nat)
    requires
        n < p2(d + k),
    ensures
        n / p2(d) < p2(k),
    decreases d,
{
    lemma_p2_mono(0, d);
    if d > 0 {
        lemma_p2_add(d, k);
        assert(p2(d + k) == p2(d) * p2(k));
        assert(n / p2(d) < p2(k)) by (nonlinear_arith)
            requires n < p2(d) * p2(k), p2(d) >= 1;
    }
}

/// `2^(a+b) = 2^a · 2^b`.
pub proof fn lemma_p2_add(a: nat, b: nat)
    ensures
        p2(a + b) == p2(a) * p2(b),
    decreases a,
{
    if a > 0 {
        let a1 = (a - 1) as nat;
        lemma_p2_add(a1, b);
        assert(p2(a) == 2 * p2(a1));
        assert((a + b - 1) as nat == a1 + b);
        assert(p2(a + b) == 2 * p2(a1 + b));
        assert(2 * (p2(a1) * p2(b)) == (2 * p2(a1)) * p2(b)) by (nonlinear_arith);
        assert(p2(a + b) == p2(a) * p2(b));
    } else {
        assert(p2(0) == 1);
        assert(a + b == b);
    }
}

/// Bit length of `n < 2^60`.
fn bit_length(n: u64) -> (l: u32)
    requires
        n < 0x1000_0000_0000_0000,
    ensures
        l == bitlen(n as nat),
        l <= 60,
        (n as nat) < p2(l as nat),
{
    proof {
        reveal_with_fuel(p2, 61);
        assert(p2(60) == 0x1000_0000_0000_0000);
    }
    let mut l: u32 = 0;
    let mut p: u64 = 1;
    while p <= n
        invariant
            l <= 60,
            p == p2(l as nat),
            n < 0x1000_0000_0000_0000,
            p2(60) == 0x1000_0000_0000_0000,
            l > 0 ==> p2((l - 1) as nat) <= n,
        decreases 60 - l,
    {
        proof {
            if l == 60 {
                assert(false);
            }
        }
        p = p * 2;
        l += 1;
    }
    proof {
        lemma_bitlen_bound(n as nat);
        lemma_bitlen_unique(n as nat, l as nat);
    }
    l
}

/// `n / 2^d` rounded to nearest, ties to even.
fn rne_u64(n: u64, d: u32) -> (r: u64)
    requires
        1 <= d <= 7,
        n < 0x1000_0000_0000_0000,
    ensures
        r == rne(n as nat, d as nat),
{
    let pd = pow2_u64(d);
    proof {
        lemma_p2_mono(d as nat, 7);
        reveal_with_fuel(p2, 8);
    }
    let q = n / pd;
    let rem = n % pd;
    if 2 * rem > pd || (2 * rem == pd && q % 2 == 1) {
        q + 1
    } else {
        q
    }
}

/// `f / 2^t` rounded to nearest, ties away from zero.
fn round_half_away_u64(f: u64, t: u32) -> (r: u64)
    requires
        t <= 60,
        f <= 0x20_0000_0000_0000,
    ensures
        r == round_half_away(f as nat, t as nat),
{
    let pt = pow2_u64(t);
    proof {
        lemma_p2_mono(t as nat, 60);
        reveal_with_fuel(p2, 61);
    }
    let q = f / pt;
    let rem = f % pt;
    if t > 0 && 2 * rem >= pt {
        q + 1
    } else {
        q
    }
}

proof fn lemma_tiny_rounds_to_zero(f: nat, t: nat)
    requires
        t > 60,
        f <= p2(53),
    ensures
        round_half_away(f, t) == 0,
{
    lemma_p2_mono(54, (t - 1) as nat);
    lemma_p2_mono(0, (t - 1) as nat);
    assert(p2(t) == 2 * p2((t - 1) as nat));
    reveal_with_fuel(p2, 55);
    assert(f < p2(t));
    assert(f / p2(t) == 0) by (nonlinear_arith)
        requires f < p2(t), f >= 0;
    assert(f % p2(t) == f) by (nonlinear_arith)
        requires f < p2(t), f >= 0;
}

proof fn lemma_percent_exponent(b: u64)
    requires
        percent_in_range(b),
    ensures
        f64_exp(b) <= 1029,
        f64_sign(b) == 0 || f64_significand(b) == 0,
{
    lemma_p2_values();
}

/// `(p * 100.0).round()` for a percent bit pattern in `[0, 100]`, as basis points.
pub fn percent_bits_to_bps(b: u64) -> (r: u64)
    requires
        percent_in_range(b),
    ensures
        r == spec_percent_to_bps(b),
{
    proof {
        lemma_p2_values();
        lemma_percent_exponent(b);
    }
    let e = (b / 0x10_0000_0000_0000) % 2048;
    let frac = b % 0x10_0000_0000_0000;
    let m: u64 = if e == 0 {
        frac
    } else {
        frac + 0x10_0000_0000_0000
    };
    let s: u64 = if e == 0 {
        1074
    } else {
        1075 - e
    };
    let n = 100 * m;
    let l = bit_length(n);
    let d: u32 = if l > 53 {
        l - 53
    } else {
        0
    };
    let f: u64 = if d == 0 {
        n
    } else {
        rne_u64(n, d)
    };
    proof {
        lemma_rne_bound(n as nat, d as nat, l as nat);
        reveal_with_fuel(p2, 54);
    }
    let t: u64 = s - d as u64;
    if t > 60 {
        proof {
            lemma_tiny_rounds_to_zero(f as nat, t as nat);
        }
        return 0;
    }
    round_half_away_u64(f, t as u32)
}

proof fn lemma_bitlen_unique(n: nat, l: nat)
    requires
        n < p2(l),
        l > 0 ==> p2((l - 1) as nat) <= n,
    ensures
        bitlen(n) == l,
{
    lemma_bitlen_bound(n);
    let b = bitlen(n);
    if b < l {
        lemma_p2_mono(b, (l - 1) as nat);
    } else if b > l {
        lemma_p2_mono(l, (b - 1) as nat);
    }
}

proof fn lemma_rne_bound(n: nat, d: nat, l: nat)
    requires
        n < p2(l),
        l <= 60,
        d == (if l > 53 { l - 53 } else { 0 }),
    ensures
        rne(n, d) <= p2(53),
{
    lemma_p2_mono(0, d);
    if d == 0 {
        lemma_p2_mono(l, 53);
    } else {
        assert(l == d + 53);
        lemma_div_p2_bound(n, d, 53);
    }
}


/// `n / d` rounded to nearest, ties to even.
pub open spec fn rne_div(n: nat, d: nat) -> nat {
    let q = n / d;
    let r = n % d;
    if 2 * r > d || (2 * r == d && q % 2 == 1) {
        q + 1
    } else {
        q
    }
}

/// Smallest `k >= j` with `n * 2^k >= 100 * 2^52` (searching up to 60).
pub open spec fn percent_shift(n: nat, j: nat) -> nat
    decreases 60 - j,
{
    if j >= 60 || n * p2(j) >= 100 * p2(52) {
        j
    } else {
        percent_shift(n, j + 1)
    }
}

/// Bit pattern of `bps / 100` as `f64` (`f64::from(bps) / 100.0`, correctly rounded to nearest,
/// ties to even): the significand is `n·2^k / 100` rounded with `k` chosen so that it has 53
/// bits.
pub open spec fn bps_percent_bits(n: nat) -> nat {
    if n == 0 {
        0
    } else {
        let k = percent_shift(n, 0);
        let m = rne_div(n * p2(k), 100);
        if m == p2(53) {
            ((1076 - k) as nat) * p2(52)
        } else {
            ((1075 - k) as nat) * p2(52) + ((m - p2(52)) as nat)
        }
    }
}

proof fn lemma_percent_shift(n: nat, j: nat)
    requires
        1 <= n <= 65535,
        j <= 60,
        j > 0 ==> n * p2((j - 1) as nat) < 100 * p2(52),
    ensures
        percent_shift(n, j) <= 59,
        n * p2(percent_shift(n, j)) >= 100 * p2(52),
        n * p2(percent_shift(n, j)) < 200 * p2(52),
    decreases 60 - j,
{
    reveal_with_fuel(p2, 61);
    if j >= 60 {
        assert(n * p2(59) >= 100 * p2(52)) by (nonlinear_arith)
            requires n >= 1, p2(59) == 128 * p2(52), p2(52) > 0;
    } else if n * p2(j) >= 100 * p2(52) {
        if j > 0 {
            assert(p2(j) == 2 * p2((j - 1) as nat));
            assert(n * p2(j) == 2 * (n * p2((j - 1) as nat))) by (nonlinear_arith)
                requires p2(j) == 2 * p2((j - 1) as nat);
        } else {
            assert(p2(0) == 1);
            assert(n * p2(0) == n) by (nonlinear_arith)
                requires p2(0) == 1;
        }
        if j > 59 {
            assert(false);
        }
    } else {
        lemma_percent_shift(n, j + 1);
    }
}

/// `f64::from(bps) / 100.0` as a bit pattern.
pub fn bps_to_percent_bits(bps: u16) -> (r: u64)
    ensures
        r == bps_percent_bits(bps as nat),
{
    if bps == 0 {
        return 0;
    }
    proof {
        lemma_p2_values();
        reveal_with_fuel(p2, 61);
        lemma_percent_shift(bps as nat, 0);
    }
    let target: u64 = 100 * 0x10_0000_0000_0000;
    let mut v: u64 = bps as u64;
    let mut k: u64 = 0;
    assert(p2(0) == 1);
    assert((bps as nat) * p2(0) == bps as nat) by (nonlinear_arith)
        requires p2(0) == 1;
    while v < target
        invariant
            1 <= bps,
            target == 100 * p2(52),
            target == 450359962737049600u64,
            k <= 59,
            v == (bps as nat) * p2(k as nat),
            percent_shift(bps as nat, 0) == percent_shift(bps as nat, k as nat),
            percent_shift(bps as nat, 0) <= 59,
            (bps as nat) * p2(percent_shift(bps as nat, 0)) >= 100 * p2(52),
            k <= percent_shift(bps as nat, 0),
        decreases 60 - k,
    {
        proof {
            assert(p2((k + 1) as nat) == 2 * p2(k as nat));
            assert((bps as nat) * p2((k + 1) as nat) == 2 * v) by (nonlinear_arith)
                requires p2((k + 1) as nat) == 2 * p2(k as nat), v == (bps as nat) * p2(k as nat);
            if k == percent_shift(bps as nat, 0) {
                assert(false);
            }
        }
        v = v * 2;
        k = k + 1;
    }
    proof {
        assert(percent_shift(bps as nat, k as nat) == k);
        lemma_percent_shift(bps as nat, 0);
    }
    let q = v / 100;
    let rem = v % 100;
    let m: u64 = if 2 * rem > 100 || (2 * rem == 100 && q % 2 == 1) {
        q + 1
    } else {
        q
    };
    proof {
        assert(v < 200 * p2(52));
        assert(q >= p2(52) && q < 2 * p2(52)) by (nonlinear_arith)
            requires q == v / 100, v >= 100 * p2(52), v < 200 * p2(52), p2(52) > 0;
    }
    if m == 0x20_0000_0000_0000 {
        (1076 - k) * 0x10_0000_0000_0000
    } else {
        (1075 - k) * 0x10_0000_0000_0000 + (m - 0x10_0000_0000_0000)
    }
}


/// Powers of two that the percent round trip works with.
#[verifier::spinoff_prover]
#[verifier::rlimit(60)]
proof fn lemma_p2_table()
    ensures
        p2(1) == 2,
        p2(6) == 64,
        p2(7) == 128,
        p2(45) == 0x2000_0000_0000,
        p2(46) == 0x4000_0000_0000,
        p2(48) == 0x1_0000_0000_0000,
        p2(52) == 0x10_0000_0000_0000,
        p2(53) == 0x20_0000_0000_0000,
        p2(58) == 0x400_0000_0000_0000,
        p2(59) == 0x800_0000_0000_0000,
        p2(60) == 0x1000_0000_0000_0000,
        p2(63) == 0x8000_0000_0000_0000,
{
    reveal_with_fuel(p2, 64);
}

/// `rne(n, d) · 2^d` is within half a unit `2^d` of `n`.
proof fn lemma_rne_close(n: nat, d: nat)
    requires
        d >= 1,
    ensures
        2 * (rne(n, d) * p2(d)) <= 2 * n + p2(d),
        2 * n <= 2 * (rne(n, d) * p2(d)) + p2(d),
{
    lemma_p2_mono(0, d);
    let p = p2(d);
    let q = n / p;
    let r = n % p;
    vstd::arithmetic::div_mod::lemma_fundamental_div_mod(n as int, p as int);
    assert(n == q * p + r);
    assert((q + 1) * p == q * p + p) by (nonlinear_arith);
}

/// An integer `f` with `f · 2^d` less than `2 · 2^d` away from `n · 2^(t+d)` rounds, at `2^t`,
/// to `n`.
proof fn lemma_round_back(f: nat, n: nat, t: nat, d: nat, e: int)
    requires
        n >= 1,
        t >= 2,
        (f * p2(d)) as int == (n * p2(t + d)) as int + e,
        -2 * p2(d) < e < 2 * p2(d),
    ensures
        round_half_away(f, t) == n,
{
    lemma_p2_add(t, d);
    lemma_p2_mono(0, d);
    lemma_p2_mono(2, t);
    reveal_with_fuel(p2, 3);
    let pt = p2(t);
    let pd = p2(d);
    let diff: int = f - n * pt;
    assert(diff * pd == e) by (nonlinear_arith)
        requires
            (f * pd) as int == (n * (pt * pd)) as int + e,
            diff == f - n * pt,
    ;
    assert(-2 < diff < 2) by (nonlinear_arith)
        requires
            diff * pd == e,
            -2 * pd < e < 2 * pd,
            pd >= 1,
    ;
    if diff == 0 {
        vstd::arithmetic::div_mod::lemma_fundamental_div_mod_converse(f as int, pt as int, n as int, 0);
    } else if diff == 1 {
        vstd::arithmetic::div_mod::lemma_fundamental_div_mod_converse(f as int, pt as int, n as int, 1);
    } else {
        assert(f == (n - 1) * pt + (pt - 1)) by (nonlinear_arith)
            requires
                diff == -1,
                diff == f - n * pt,
        ;
        vstd::arithmetic::div_mod::lemma_fundamental_div_mod_converse(
            f as int,
            pt as int,
            (n - 1) as int,
            (pt - 1) as int,
        );
    }
}

/// The rounding facts of `bps_percent_bits(n)` for `1 <= n <= 10000`: the shift `k`, the
/// rounded significand `m`, and how far `100·m` is from `n·2^k`.
proof fn lemma_bps_significand(n: nat)
    requires
        1 <= n <= 10000,
    ensures
        46 <= percent_shift(n, 0) <= 59,
        p2(52) <= rne_div(n * p2(percent_shift(n, 0)), 100) <= p2(53),
        100 * rne_div(n * p2(percent_shift(n, 0)), 100) <= n * p2(percent_shift(n, 0)) + 50,
        n * p2(percent_shift(n, 0)) <= 100 * rne_div(n * p2(percent_shift(n, 0)), 100) + 50,
        percent_shift(n, 0) == 46 ==> rne_div(n * p2(percent_shift(n, 0)), 100) <= 25 * p2(48),
{
    lemma_p2_table();
    lemma_percent_shift(n, 0);
    let k = percent_shift(n, 0);
    let v = n * p2(k);
    if k <= 45 {
        lemma_p2_mono(k, 45);
        assert(n * p2(k) <= 10000 * p2(45)) by (nonlinear_arith)
            requires
                n <= 10000,
                p2(k) <= p2(45),
        ;
    }
    if k == 46 {
        assert(v <= 10000 * p2(46)) by (nonlinear_arith)
            requires
                n <= 10000,
                v == n * p2(k),
                k == 46,
        ;
    }
    vstd::arithmetic::div_mod::lemma_fundamental_div_mod(v as int, 100);
}

/// `bps_percent_bits(n)` for `n <= 10000` is a finite percent in `[0, 100]` that rounds back to
/// `n` basis points.
pub proof fn lemma_bps_percent_round_trip(n: nat)
    requires
        n <= 10000,
    ensures
        bps_percent_bits(n) < p2(63),
        f64_is_finite(bps_percent_bits(n) as u64),
        percent_in_range(bps_percent_bits(n) as u64),
        spec_percent_to_bps(bps_percent_bits(n) as u64) == n,
{
    lemma_p2_table();
    lemma_p2_mono(0, 1074);
    let bits = bps_percent_bits(n);
    if n == 0 {
        assert(bits == 0);
        let b = bits as u64;
        assert(b == 0);
        assert(f64_significand(b) == 0);
        assert(bitlen(0) == 0);
        assert(spec_percent_to_bps(b) == round_half_away(0, 1074));
        vstd::arithmetic::div_mod::lemma_fundamental_div_mod_converse(0, p2(1074) as int, 0, 0);
        return;
    }
    lemma_bps_significand(n);
    let k = percent_shift(n, 0);
    let v = n * p2(k);
    let m = rne_div(v, 100);
    let b = bits as u64;
    if m < p2(53) {
        let ex: nat = (1075 - k) as nat;
        let fr: nat = (m - p2(52)) as nat;
        assert(bits == ex * p2(52) + fr);
        assert(bits < p2(63));
        assert(b as nat == bits);
        vstd::arithmetic::div_mod::lemma_fundamental_div_mod_converse(
            bits as int,
            p2(52) as int,
            ex as int,
            fr as int,
        );
        vstd::arithmetic::div_mod::lemma_fundamental_div_mod_converse(
            bits as int,
            p2(63) as int,
            0,
            bits as int,
        );
        assert(f64_exp(b) == ex);
        assert(f64_frac(b) == fr);
        assert(f64_sign(b) == 0);
        assert(f64_significand(b) == m);
        assert(f64_scale(b) == k);
        let big = 100 * m;
        let l: nat = if big < p2(59) {
            59
        } else {
            60
        };
        lemma_bitlen_unique(big, l);
        let d: nat = (l - 53) as nat;
        lemma_rne_close(big, d);
        let f = rne(big, d);
        let t: nat = (k - d) as nat;
        assert(t + d == k);
        lemma_round_back(f, n, t, d, (f * p2(d)) as int - (n * p2(k)) as int);
        assert(spec_percent_to_bps(b) == round_half_away(f, t));
    } else {
        let ex: nat = (1076 - k) as nat;
        assert(bits == ex * p2(52));
        assert(bits < p2(63));
        assert(b as nat == bits);
        vstd::arithmetic::div_mod::lemma_fundamental_div_mod_converse(
            bits as int,
            p2(52) as int,
            ex as int,
            0,
        );
        vstd::arithmetic::div_mod::lemma_fundamental_div_mod_converse(
            bits as int,
            p2(63) as int,
            0,
            bits as int,
        );
        assert(f64_exp(b) == ex);
        assert(f64_frac(b) == 0);
        assert(f64_sign(b) == 0);
        assert(f64_significand(b) == p2(52));
        assert(f64_scale(b) == k - 1);
        let big = 100 * p2(52);
        lemma_bitlen_unique(big, 59);
        vstd::arithmetic::div_mod::lemma_fundamental_div_mod_converse(
            big as int,
            p2(6) as int,
            (100 * p2(46)) as int,
            0,
        );
        let f = rne(big, 6);
        assert(f == 100 * p2(46));
        let t: nat = (k - 7) as nat;
        assert(t + 7 == k);
        lemma_round_back(f, n, t, 7, (f * p2(7)) as int - (n * p2(k)) as int);
        assert(spec_percent_to_bps(b) == round_half_away(f, t));
    }
}

} // verus!
