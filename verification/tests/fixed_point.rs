use convoluted::fixed::{
    fx_add, fx_div, fx_div_int, fx_exp, fx_ln, fx_mul, fx_neg, fx_sub, FX_MAX, FX_ONE,
};

#[test]
fn add_sub_exact() {
    assert_eq!(fx_add(FX_ONE, FX_ONE / 2), 3 * FX_ONE / 2);
    assert_eq!(fx_sub(FX_ONE, 3 * FX_ONE), -2 * FX_ONE);
    assert_eq!(fx_neg(5 * FX_ONE), -5 * FX_ONE);
}

#[test]
fn add_saturates() {
    assert_eq!(fx_add(FX_MAX, FX_ONE), FX_MAX);
    assert_eq!(fx_sub(-FX_MAX, FX_ONE), -FX_MAX);
    assert_eq!(fx_neg(-FX_MAX), FX_MAX);
}

#[test]
fn mul_exact() {
    assert_eq!(fx_mul(3 * FX_ONE, 2 * FX_ONE), 6 * FX_ONE);
    assert_eq!(fx_mul(FX_ONE / 2, FX_ONE / 2), FX_ONE / 4);
    assert_eq!(fx_mul(-3 * FX_ONE, 2 * FX_ONE), -6 * FX_ONE);
    // Truncation is toward zero in both signs.
    assert_eq!(fx_mul(3, 3), 0);
    assert_eq!(fx_mul(-3, 3), 0);
    // Saturation at the representable bound.
    assert_eq!(fx_mul(FX_MAX, 2 * FX_ONE), FX_MAX);
    assert_eq!(fx_mul(FX_MAX, -2 * FX_ONE), -FX_MAX);
}

#[test]
fn div_exact() {
    assert_eq!(fx_div(6 * FX_ONE, 2 * FX_ONE), 3 * FX_ONE);
    assert_eq!(fx_div(FX_ONE, 2 * FX_ONE), FX_ONE / 2);
    assert_eq!(fx_div(-6 * FX_ONE, 2 * FX_ONE), -3 * FX_ONE);
    assert_eq!(fx_div(6 * FX_ONE, -2 * FX_ONE), -3 * FX_ONE);
    // A zero divisor gives zero rather than failing.
    assert_eq!(fx_div(FX_ONE, 0), 0);
    assert_eq!(fx_div_int(6 * FX_ONE, 3), 2 * FX_ONE);
    assert_eq!(fx_div_int(-6 * FX_ONE, 3), -2 * FX_ONE);
    assert_eq!(fx_div_int(FX_ONE, 0), 0);
}

#[test]
fn exp_values() {
    // e^0 is exactly one.
    assert_eq!(fx_exp(0), FX_ONE);
    // e^1 and e^-1 near their real values (within a few hundredths).
    let e1 = fx_exp(FX_ONE) as f64 / FX_ONE as f64;
    assert!((e1 - std::f64::consts::E).abs() < 0.01, "e^1 was {e1}");
    let em1 = fx_exp(-FX_ONE) as f64 / FX_ONE as f64;
    assert!((em1 - 1.0 / std::f64::consts::E).abs() < 0.01, "e^-1 was {em1}");
    // Very negative arguments underflow to zero.
    assert_eq!(fx_exp(-100 * FX_ONE), 0);
    // Monotone on a few sample points.
    assert!(fx_exp(FX_ONE) < fx_exp(2 * FX_ONE));
}

#[test]
fn ln_values() {
    // ln 1 is exactly zero.
    assert_eq!(fx_ln(FX_ONE), 0);
    let l2 = fx_ln(2 * FX_ONE) as f64 / FX_ONE as f64;
    assert!((l2 - std::f64::consts::LN_2).abs() < 0.01, "ln 2 was {l2}");
    let lh = fx_ln(FX_ONE / 2) as f64 / FX_ONE as f64;
    assert!((lh + std::f64::consts::LN_2).abs() < 0.01, "ln 0.5 was {lh}");
    // Arguments that round to zero saturate to the most negative value.
    assert_eq!(fx_ln(0), -FX_MAX);
}
