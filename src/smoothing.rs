//! Exponential lag: scaling a displacement by a weight in `[0, 1)`.
use vstd::arithmetic::div_mod::{lemma_fundamental_div_mod, lemma_fundamental_div_mod_converse, lemma_mod_bound};
use vstd::arithmetic::power::pow;
use vstd::prelude::*;

verus! {

/// A lag weight `w` stands for the fraction `w / LAG_WEIGHT_ONE`, so every
/// weight lies in `[0, 1)`.
pub const LAG_WEIGHT_ONE: u32 = 65536;

/// `x * w / LAG_WEIGHT_ONE`, rounded toward zero.
pub open spec fn lag_scale(x: int, w: int) -> int {
    if x >= 0 {
        (x * w) / (LAG_WEIGHT_ONE as int)
    } else {
        -(((-x) * w) / (LAG_WEIGHT_ONE as int))
    }
}

pub open spec fn abs(x: int) -> int {
    if x >= 0 { x } else { -x }
}

/// `m * w / LAG_WEIGHT_ONE` for `m >= 0`, without forming `m * w`.
fn scale_magnitude(m: u128, w: u16) -> (r: u128)
    ensures
        r == (m * w) / (LAG_WEIGHT_ONE as int),
        r * (LAG_WEIGHT_ONE as int) <= m * w,
{
    let one: u128 = 65536;
    let a: u128 = m / one;
    let b: u128 = m % one;
    let ww: u128 = w as u128;
    proof {
        lemma_fundamental_div_mod(m as int, 65536);
        lemma_fundamental_div_mod((b * ww) as int, 65536);
        lemma_mod_bound((b * ww) as int, 65536);
        assert(a * ww <= m) by (nonlinear_arith)
            requires
                m == 65536 * a + b,
                0 <= b,
                0 <= a,
                ww < 65536,
        ;
        assert(b * ww < 65536 * 65536) by (nonlinear_arith)
            requires
                b < 65536,
                ww < 65536,
                0 <= b,
                0 <= ww,
        ;
    }
    let q: u128 = (b * ww) / one;
    proof {
        lemma_fundamental_div_mod((b * ww) as int, 65536);
        assert(q < 65536) by (nonlinear_arith)
            requires
                b * ww == 65536 * q + (b * ww) % 65536,
                0 <= (b * ww) % 65536,
                b * ww < 65536 * 65536,
        ;
        assert(a * ww + q <= u128::MAX) by (nonlinear_arith)
            requires
                m == 65536 * a + b,
                m <= u128::MAX,
                0 <= b,
                0 <= a,
                ww < 65536,
                q < 65536,
        ;
    }
    let r: u128 = a * ww + q;
    proof {
        let rem = (b * ww) as int % 65536;
        assert(m * ww == (a * ww + q) * 65536 + rem) by (nonlinear_arith)
            requires
                m == 65536 * a + b,
                b * ww == 65536 * q + rem,
        ;
        lemma_fundamental_div_mod_converse((m * ww) as int, 65536, r as int, rem);
    }
    r
}

/// `lag_scale(x, w)` on a wide integer.
pub fn lag_scale_i128(x: i128, w: u16) -> (r: i128)
    ensures
        r == lag_scale(x as int, w as int),
{
    if x >= 0 {
        let t = scale_magnitude(x as u128, w);
        proof {
            assert(t <= x) by (nonlinear_arith)
                requires
                    t * 65536 <= x * w,
                    w < 65536,
                    0 <= t,
                    0 <= x,
            ;
        }
        t as i128
    } else {
        let m: u128 = ((-(x + 1)) as u128) + 1;
        let t = scale_magnitude(m, w);
        proof {
            assert(t < m || m == 0) by (nonlinear_arith)
                requires
                    t * 65536 <= m * w,
                    w < 65536,
                    0 <= t,
            ;
        }
        -(t as i128)
    }
}

/// One lag step shrinks a displacement to at most `w / LAG_WEIGHT_ONE` of its
/// size, and loses less than one unit against the exact product.
pub proof fn lemma_lag_step_bounds(x: int, w: int)
    requires
        0 <= w < LAG_WEIGHT_ONE,
    ensures
        abs(lag_scale(x, w)) * (LAG_WEIGHT_ONE as int) <= abs(x) * w,
        abs(x) * w < (abs(lag_scale(x, w)) + 1) * (LAG_WEIGHT_ONE as int),
        x >= 0 ==> lag_scale(x, w) >= 0,
        x <= 0 ==> lag_scale(x, w) <= 0,
{
    let m = abs(x);
    assert(m * w >= 0) by (nonlinear_arith)
        requires
            m >= 0,
            w >= 0,
    ;
    lemma_fundamental_div_mod(m * w, 65536);
    lemma_mod_bound(m * w, 65536);
    let q = (m * w) / 65536;
    assert(q >= 0 && q * 65536 <= m * w) by (nonlinear_arith)
        requires
            m * w == 65536 * q + (m * w) % 65536,
            (m * w) % 65536 < 65536,
            m * w >= 0,
    ;
    if x >= 0 {
        assert(m * w == x * w);
        assert(lag_scale(x, w) == q);
        if x == 0 {
            assert(m * w == 0);
        }
    } else {
        assert(m * w == (-x) * w);
        assert(lag_scale(x, w) == -q);
    }
}

/// `x` after `n` lag steps of weight `w`.
pub open spec fn lag_scale_iter(x: int, w: int, n: nat) -> int
    decreases n,
{
    if n == 0 {
        x
    } else {
        lag_scale(lag_scale_iter(x, w, (n - 1) as nat), w)
    }
}

/// After `n` lag steps a displacement is at most `(w / LAG_WEIGHT_ONE)^n` of
/// its first size.
pub proof fn lemma_lag_converges(x: int, w: int, n: nat)
    requires
        0 <= w < LAG_WEIGHT_ONE,
    ensures
        abs(lag_scale_iter(x, w, n)) * pow(LAG_WEIGHT_ONE as int, n) <= abs(x) * pow(w, n),
    decreases n,
{
    reveal(pow);
    if n == 0 {
        assert(pow(LAG_WEIGHT_ONE as int, n) == 1);
        assert(pow(w, n) == 1);
    } else {
        let n1 = (n - 1) as nat;
        lemma_lag_converges(x, w, n1);
        let prev = lag_scale_iter(x, w, n1);
        lemma_lag_step_bounds(prev, w);
        let cur = lag_scale_iter(x, w, n);
        let pa = pow(65536, n1);
        let pw = pow(w, n1);
        vstd::arithmetic::power::lemma_pow_positive(65536, n1);
        assert(pow(LAG_WEIGHT_ONE as int, n) == 65536 * pa);
        assert(pow(w, n) == w * pw);
        assert(abs(cur) * (65536 * pa) <= abs(x) * (w * pw)) by (nonlinear_arith)
            requires
                abs(cur) * 65536 <= abs(prev) * w,
                abs(prev) * pa <= abs(x) * pw,
                abs(cur) >= 0,
                abs(prev) >= 0,
                pa > 0,
                w >= 0,
        ;
    }
}

} // verus!
