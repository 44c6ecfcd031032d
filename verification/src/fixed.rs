//! Saturating fixed-point scalar arithmetic.
//!
//! Every numeric value in the engine is an `i64` holding a real number scaled
//! by `FX_ONE` (so `FX_ONE` is 1.0, `FX_ONE / 2` is 0.5).  All operations
//! saturate at `FX_MAX` / `-FX_MAX`, so they are total: no operation panics or
//! overflows, whatever its inputs.  Each executable operation is pinned to a
//! spec function that gives its exact result.

use vstd::prelude::*;

verus! {

use vstd::arithmetic::power2::pow2;

/// Number of fixed-point units that represent 1.0.
pub const FX_ONE: i64 = 65536;

/// Saturation bound: every result lies in `[-FX_MAX, FX_MAX]`.
pub const FX_MAX: i64 = 0x7fff_ffff_ffff;

/// ln(2) in fixed-point units.
pub const FX_LN2: i64 = 45426;

/// Largest argument `fx_exp` distinguishes; e^20 still fits well below `FX_MAX`.
pub const FX_EXP_ARG_CAP: i64 = 1310720;

/// Absolute value.
pub open spec fn fx_abs(x: int) -> int {
    if x < 0 {
        -x
    } else {
        x
    }
}

/// Clamp into the representable range.
pub open spec fn fx_clip(x: int) -> int {
    if x > FX_MAX {
        FX_MAX as int
    } else if x < -(FX_MAX as int) {
        -(FX_MAX as int)
    } else {
        x
    }
}

/// Division truncated toward zero (the rounding all scalar ops use).
pub open spec fn fx_tdiv(a: int, d: int) -> int {
    if (a < 0) != (d < 0) {
        -(fx_abs(a) / fx_abs(d))
    } else {
        fx_abs(a) / fx_abs(d)
    }
}

/// Saturating addition.
pub open spec fn spec_fx_add(a: int, b: int) -> int {
    fx_clip(a + b)
}

/// Saturating subtraction.
pub open spec fn spec_fx_sub(a: int, b: int) -> int {
    fx_clip(a - b)
}

/// Saturating negation.
pub open spec fn spec_fx_neg(a: int) -> int {
    fx_clip(-a)
}

/// Saturating fixed-point multiplication: `a * b / FX_ONE`, truncated.
pub open spec fn spec_fx_mul(a: int, b: int) -> int {
    fx_clip(fx_tdiv(a * b, FX_ONE as int))
}

/// Saturating fixed-point division: `a * FX_ONE / b`, truncated; 0 when `b` is 0.
pub open spec fn spec_fx_div(a: int, b: int) -> int {
    if b == 0 {
        0
    } else {
        fx_clip(fx_tdiv(a * (FX_ONE as int), b))
    }
}

/// Divide a fixed-point value by a plain integer count; 0 when `k` is 0.
pub open spec fn spec_fx_div_int(a: int, k: int) -> int {
    if k == 0 {
        0
    } else {
        fx_clip(fx_tdiv(a, k))
    }
}

/// Clamp a wide intermediate back into an `i64` fixed-point value.
fn fx_clip_exec(x: i128) -> (r: i64)
    ensures
        r == fx_clip(x as int),
{
    if x > FX_MAX as i128 {
        FX_MAX
    } else if x < -(FX_MAX as i128) {
        -FX_MAX
    } else {
        x as i64
    }
}

/// Saturating addition.
pub fn fx_add(a: i64, b: i64) -> (r: i64)
    ensures
        r == spec_fx_add(a as int, b as int),
{
    fx_clip_exec(a as i128 + b as i128)
}

/// Saturating subtraction.
pub fn fx_sub(a: i64, b: i64) -> (r: i64)
    ensures
        r == spec_fx_sub(a as int, b as int),
{
    fx_clip_exec(a as i128 - b as i128)
}

/// Saturating negation.
pub fn fx_neg(a: i64) -> (r: i64)
    ensures
        r == spec_fx_neg(a as int),
{
    fx_clip_exec(-(a as i128))
}

/// Saturating fixed-point multiplication.
pub fn fx_mul(a: i64, b: i64) -> (r: i64)
    ensures
        r == spec_fx_mul(a as int, b as int),
{
    proof {
        assert(fx_abs((a as int) * (b as int)) <= 0x4000_0000_0000_0000_0000_0000_0000_0000int)
            by (nonlinear_arith)
            requires
                -0x8000_0000_0000_0000int <= a as int <= 0x7fff_ffff_ffff_ffffint,
                -0x8000_0000_0000_0000int <= b as int <= 0x7fff_ffff_ffff_ffffint,
        ;
    }
    let p: i128 = (a as i128) * (b as i128);
    let neg: bool = p < 0;
    let mag: u128 = if neg {
        (-p) as u128
    } else {
        p as u128
    };
    let q: u128 = mag / (FX_ONE as u128);
    let qc: i64 = if q > FX_MAX as u128 {
        FX_MAX
    } else {
        q as i64
    };
    if neg {
        -qc
    } else {
        qc
    }
}

/// Saturating fixed-point division; returns 0 for a zero divisor.
pub fn fx_div(a: i64, b: i64) -> (r: i64)
    ensures
        r == spec_fx_div(a as int, b as int),
{
    if b == 0 {
        return 0;
    }
    proof {
        assert(fx_abs((a as int) * (FX_ONE as int)) <= 0x4000_0000_0000_0000_0000_0000_0000_0000int)
            by (nonlinear_arith)
            requires
                -0x8000_0000_0000_0000int <= a as int <= 0x7fff_ffff_ffff_ffffint,
        ;
    }
    let num: i128 = (a as i128) * (FX_ONE as i128);
    let neg: bool = (a < 0) != (b < 0);
    let amag: u128 = if num < 0 {
        (-num) as u128
    } else {
        num as u128
    };
    let bmag: u128 = if b < 0 {
        (-(b as i128)) as u128
    } else {
        (b as i128) as u128
    };
    let q: u128 = amag / bmag;
    let qc: i64 = if q > FX_MAX as u128 {
        FX_MAX
    } else {
        q as i64
    };
    if neg {
        -qc
    } else {
        qc
    }
}

/// Divide a fixed-point value by a plain integer count; 0 when `k` is 0.
pub fn fx_div_int(a: i64, k: i64) -> (r: i64)
    ensures
        r == spec_fx_div_int(a as int, k as int),
{
    if k == 0 {
        return 0;
    }
    let neg: bool = (a < 0) != (k < 0);
    let amag: u128 = if a < 0 {
        (-(a as i128)) as u128
    } else {
        (a as i128) as u128
    };
    let kmag: u128 = if k < 0 {
        (-(k as i128)) as u128
    } else {
        (k as i128) as u128
    };
    let q: u128 = amag / kmag;
    let qc: i64 = if q > FX_MAX as u128 {
        FX_MAX
    } else {
        q as i64
    };
    if neg {
        -qc
    } else {
        qc
    }
}

/// Taylor polynomial for e^r on the reduced range `0 <= r <= ln 2`,
/// evaluated exactly as the executable code does.
pub open spec fn fx_exp_frac(r: int) -> int {
    let t1 = r;
    let t2 = spec_fx_div_int(spec_fx_mul(t1, r), 2);
    let t3 = spec_fx_div_int(spec_fx_mul(t2, r), 3);
    let t4 = spec_fx_div_int(spec_fx_mul(t3, r), 4);
    let t5 = spec_fx_div_int(spec_fx_mul(t4, r), 5);
    let t6 = spec_fx_div_int(spec_fx_mul(t5, r), 6);
    let t7 = spec_fx_div_int(spec_fx_mul(t6, r), 7);
    let t8 = spec_fx_div_int(spec_fx_mul(t7, r), 8);
    let t9 = spec_fx_div_int(spec_fx_mul(t8, r), 9);
    spec_fx_add(
        spec_fx_add(
            spec_fx_add(
                spec_fx_add(
                    spec_fx_add(
                        spec_fx_add(
                            spec_fx_add(
                                spec_fx_add(spec_fx_add(FX_ONE as int, t1), t2),
                                t3,
                            ),
                            t4,
                        ),
                        t5,
                    ),
                    t6,
                ),
                t7,
            ),
            t8,
        ),
        t9,
    )
}

/// `v` saturating-doubled `n` times.
pub open spec fn fx_double_n(v: int, n: nat) -> int
    decreases n,
{
    if n == 0 {
        v
    } else {
        let p = fx_double_n(v, (n - 1) as nat);
        spec_fx_add(p, p)
    }
}

/// e^x for a non-negative argument, with the argument capped at `FX_EXP_ARG_CAP`.
pub open spec fn fx_exp_pos(x: int) -> int {
    let xc = if x > FX_EXP_ARG_CAP {
        FX_EXP_ARG_CAP as int
    } else {
        x
    };
    let n = xc / (FX_LN2 as int);
    let r = xc % (FX_LN2 as int);
    fx_double_n(fx_exp_frac(r), n as nat)
}

/// Saturating fixed-point e^x; arguments beyond `FX_EXP_ARG_CAP` in magnitude
/// give the capped value, and large negative arguments give 0.
pub open spec fn spec_fx_exp(x: int) -> int {
    if x >= 0 {
        fx_exp_pos(x)
    } else {
        spec_fx_div(FX_ONE as int, fx_exp_pos(-x))
    }
}

fn fx_exp_frac_exec(r: i64) -> (out: i64)
    ensures
        out == fx_exp_frac(r as int),
{
    let t1 = r;
    let t2 = fx_div_int(fx_mul(t1, r), 2);
    let t3 = fx_div_int(fx_mul(t2, r), 3);
    let t4 = fx_div_int(fx_mul(t3, r), 4);
    let t5 = fx_div_int(fx_mul(t4, r), 5);
    let t6 = fx_div_int(fx_mul(t5, r), 6);
    let t7 = fx_div_int(fx_mul(t6, r), 7);
    let t8 = fx_div_int(fx_mul(t7, r), 8);
    let t9 = fx_div_int(fx_mul(t8, r), 9);
    let mut acc = fx_add(FX_ONE, t1);
    acc = fx_add(acc, t2);
    acc = fx_add(acc, t3);
    acc = fx_add(acc, t4);
    acc = fx_add(acc, t5);
    acc = fx_add(acc, t6);
    acc = fx_add(acc, t7);
    acc = fx_add(acc, t8);
    acc = fx_add(acc, t9);
    acc
}

fn fx_exp_pos_exec(x: i64) -> (out: i64)
    requires
        x >= 0,
    ensures
        out == fx_exp_pos(x as int),
{
    let xc: i64 = if x > FX_EXP_ARG_CAP {
        FX_EXP_ARG_CAP
    } else {
        x
    };
    let xu: u64 = xc as u64;
    let n: u64 = xu / (FX_LN2 as u64);
    let r: u64 = xu % (FX_LN2 as u64);
    let f: i64 = fx_exp_frac_exec(r as i64);
    let mut acc: i64 = f;
    let mut i: u64 = 0;
    while i < n
        invariant
            0 <= i <= n,
            acc == fx_double_n(f as int, i as nat),
        decreases n - i,
    {
        acc = fx_add(acc, acc);
        i = i + 1;
    }
    acc
}

/// Saturating fixed-point e^x.
pub fn fx_exp(x: i64) -> (r: i64)
    ensures
        r == spec_fx_exp(x as int),
{
    if x >= 0 {
        fx_exp_pos_exec(x)
    } else {
        let nx: i64 = if x < -FX_EXP_ARG_CAP {
            FX_EXP_ARG_CAP
        } else {
            -x
        };
        proof {
            assert(fx_exp_pos(nx as int) == fx_exp_pos(-(x as int)));
        }
        let e = fx_exp_pos_exec(nx);
        fx_div(FX_ONE, e)
    }
}

/// Mantissa after halving until it is below `2 * FX_ONE`.
pub open spec fn fx_shr_val(m: int) -> int
    decreases m,
{
    if m >= 2 * (FX_ONE as int) {
        fx_shr_val(m / 2)
    } else {
        m
    }
}

/// Number of halvings used by `fx_shr_val`.
pub open spec fn fx_shr_count(m: int) -> nat
    decreases m,
{
    if m >= 2 * (FX_ONE as int) {
        1 + fx_shr_count(m / 2)
    } else {
        0
    }
}

/// Mantissa after doubling until it reaches `FX_ONE` (arguments below 1 unit stay).
pub open spec fn fx_shl_val(m: int) -> int
    decreases 2 * (FX_ONE as int) - m,
{
    if 1 <= m < FX_ONE as int {
        fx_shl_val(m * 2)
    } else {
        m
    }
}

/// Number of doublings used by `fx_shl_val`.
pub open spec fn fx_shl_count(m: int) -> nat
    decreases 2 * (FX_ONE as int) - m,
{
    if 1 <= m < FX_ONE as int {
        1 + fx_shl_count(m * 2)
    } else {
        0
    }
}

proof fn lemma_shr_count_le(m: int, k: nat)
    requires
        m < 2 * (FX_ONE as int) * pow2(k),
    ensures
        fx_shr_count(m) <= k,
    decreases m,
{
    if m >= 2 * (FX_ONE as int) {
        if k == 0 {
            assert(pow2(0) == 1) by {
                vstd::arithmetic::power2::lemma2_to64();
            }
            assert(m < 2 * (FX_ONE as int) * 1);
            assert(false);
        } else {
            assert(pow2(k) == 2 * pow2((k - 1) as nat)) by {
                vstd::arithmetic::power2::lemma_pow2_unfold(k);
            }
            assert(m / 2 < 2 * (FX_ONE as int) * pow2((k - 1) as nat)) by (nonlinear_arith)
                requires
                    m < 2 * (FX_ONE as int) * (2 * pow2((k - 1) as nat)),
                    pow2((k - 1) as nat) >= 0,
            ;
            lemma_shr_count_le(m / 2, (k - 1) as nat);
        }
    }
}

proof fn lemma_shl_count_le(m: int, k: nat)
    requires
        1 <= m,
        FX_ONE as int <= m * pow2(k),
    ensures
        fx_shl_count(m) <= k,
    decreases 2 * (FX_ONE as int) - m,
{
    if m < FX_ONE as int {
        if k == 0 {
            assert(pow2(0) == 1) by {
                vstd::arithmetic::power2::lemma2_to64();
            }
            assert(FX_ONE as int <= m * 1);
            assert(false);
        } else {
            assert(pow2(k) == 2 * pow2((k - 1) as nat)) by {
                vstd::arithmetic::power2::lemma_pow2_unfold(k);
            }
            assert(FX_ONE as int <= (m * 2) * pow2((k - 1) as nat)) by (nonlinear_arith)
                requires
                    FX_ONE as int <= m * (2 * pow2((k - 1) as nat)),
            ;
            lemma_shl_count_le(m * 2, (k - 1) as nat);
        }
    }
}

/// Arctanh series for the natural log of a mantissa in `[FX_ONE, 2 * FX_ONE)`,
/// evaluated exactly as the executable code does.
pub open spec fn fx_ln_frac(m: int) -> int {
    let t = spec_fx_div(m - FX_ONE as int, m + FX_ONE as int);
    let t2 = spec_fx_mul(t, t);
    let p3 = spec_fx_mul(t, t2);
    let p5 = spec_fx_mul(p3, t2);
    let p7 = spec_fx_mul(p5, t2);
    let p9 = spec_fx_mul(p7, t2);
    let s = spec_fx_add(
        spec_fx_add(
            spec_fx_add(
                spec_fx_add(t, spec_fx_div_int(p3, 3)),
                spec_fx_div_int(p5, 5),
            ),
            spec_fx_div_int(p7, 7),
        ),
        spec_fx_div_int(p9, 9),
    );
    spec_fx_add(s, s)
}

/// Saturating fixed-point natural logarithm; arguments below one unit
/// (including everything that rounds to 0) saturate to `-FX_MAX`.
pub open spec fn spec_fx_ln(x: int) -> int {
    if x < 1 {
        -(FX_MAX as int)
    } else {
        let m0 = fx_shr_val(x);
        let e = fx_shr_count(x) - fx_shl_count(m0);
        let m = fx_shl_val(m0);
        spec_fx_add(e * (FX_LN2 as int), fx_ln_frac(m))
    }
}

/// Saturating fixed-point natural logarithm.
pub fn fx_ln(x: i64) -> (r: i64)
    ensures
        r == spec_fx_ln(x as int),
{
    if x < 1 {
        return -FX_MAX;
    }
    proof {
        vstd::arithmetic::power2::lemma2_to64_rest();
        lemma_shr_count_le(x as int, 47);
    }
    let mut m: u64 = x as u64;
    let mut e: i64 = 0;
    while m >= 2 * (FX_ONE as u64)
        invariant
            fx_shr_val(x as int) == fx_shr_val(m as int),
            fx_shr_count(x as int) == e + fx_shr_count(m as int),
            fx_shr_count(x as int) <= 64,
            0 <= e,
            1 <= m,
        decreases m,
    {
        m = m / 2;
        e = e + 1;
    }
    proof {
        assert(fx_shr_val(m as int) == m as int);
        assert(fx_shr_count(m as int) == 0);
        vstd::arithmetic::power2::lemma2_to64();
        lemma_shl_count_le(m as int, 16);
    }
    let ghost m0: int = m as int;
    let ghost e1: int = e as int;
    while m < FX_ONE as u64
        invariant
            1 <= m < 2 * (FX_ONE as u64),
            fx_shl_val(m0) == fx_shl_val(m as int),
            fx_shl_count(m0) == fx_shl_count(m as int) + (e1 - e),
            fx_shl_count(m0) <= 17,
            0 <= e1 <= 64,
            e1 - 17 <= e <= e1,
        decreases 2 * (FX_ONE as int) - m,
    {
        m = m * 2;
        e = e - 1;
    }
    proof {
        assert(fx_shl_val(m as int) == m as int);
        assert(fx_shl_count(m as int) == 0);
    }
    let mi: i64 = m as i64;
    let t = fx_div(mi - FX_ONE, mi + FX_ONE);
    let t2 = fx_mul(t, t);
    let p3 = fx_mul(t, t2);
    let p5 = fx_mul(p3, t2);
    let p7 = fx_mul(p5, t2);
    let p9 = fx_mul(p7, t2);
    let mut s = fx_add(t, fx_div_int(p3, 3));
    s = fx_add(s, fx_div_int(p5, 5));
    s = fx_add(s, fx_div_int(p7, 7));
    s = fx_add(s, fx_div_int(p9, 9));
    let frac = fx_add(s, s);
    fx_add(e * FX_LN2, frac)
}

} // verus!
