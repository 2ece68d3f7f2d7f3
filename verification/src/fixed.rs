//! Fixed-point arithmetic on reward ratios scaled by ten to the seventh.
//!
//! A reward ratio is an integer `v` that stands for `v / SCALE`. Products are
//! formed in full and then divided by the scale, rounding toward zero. A
//! product that an `i128` cannot hold is reported, never wrapped.

use vstd::prelude::*;

verus! {

/// Number of decimal digits behind the point.
pub const DECIMALS: u32 = 7;

/// The scale of the representation, ten to the power `DECIMALS`.
pub const SCALE: i128 = 10_000_000;

/// Quotient of `n` by a positive `d`, rounded toward zero.
pub open spec fn trunc_div(n: int, d: int) -> int
    recommends
        d > 0,
{
    if n >= 0 {
        n / d
    } else {
        -((-n) / d)
    }
}

/// Whether an `i128` can hold `v`.
pub open spec fn fits_i128(v: int) -> bool {
    i128::MIN <= v <= i128::MAX
}

/// The reward that `deposited` units earn over `elapsed` seconds at `ratio`
/// per unit and second. A ratio that is not positive earns nothing.
pub open spec fn reward(deposited: int, ratio: int, elapsed: int) -> int {
    if ratio > 0 {
        trunc_div(deposited * ratio * elapsed, SCALE as int)
    } else {
        0
    }
}

/// Whether the products that `reward` forms can be held: first the deposit
/// times the ratio, then that times the elapsed time.
pub open spec fn reward_fits(deposited: int, ratio: int, elapsed: int) -> bool {
    ratio > 0 ==> fits_i128(deposited * ratio) && fits_i128(deposited * ratio * elapsed)
}

/// The seconds for which a position anchored at `since` has earned at `now`:
/// the time since the anchor, but never past `maturity`.
pub open spec fn elapsed_time(now: int, since: int, maturity: int) -> int {
    if now - since <= maturity - since {
        now - since
    } else {
        maturity - since
    }
}

/// Divides by the scale, rounding toward zero.
pub fn unscale(n: i128) -> (q: i128)
    ensures
        q == trunc_div(n as int, SCALE as int),
{
    n / SCALE
}

/// Computes `deposited * ratio * elapsed / SCALE`, rounded toward zero, for a
/// positive ratio, and zero for any other ratio. Returns `None` exactly when
/// one of the two products does not fit.
pub fn accrued_reward(deposited: i128, ratio: i128, elapsed: u64) -> (r: Option<i128>)
    ensures
        reward_fits(deposited as int, ratio as int, elapsed as int) <==> r is Some,
        r matches Some(v) ==> v == reward(deposited as int, ratio as int, elapsed as int),
{
    if ratio > 0 {
        match deposited.checked_mul(ratio) {
            Some(per_second) => match per_second.checked_mul(elapsed as i128) {
                Some(full) => Some(unscale(full)),
                None => None,
            },
            None => None,
        }
    } else {
        Some(0)
    }
}

/// Computes the time for which a position has earned, see `elapsed_time`.
/// Returns `None` exactly when `since` lies after `now` or after `maturity`.
pub fn elapsed_since(now: u64, since: u64, maturity: u64) -> (t: Option<u64>)
    ensures
        since <= now && since <= maturity <==> t is Some,
        t matches Some(v) ==> v == elapsed_time(now as int, since as int, maturity as int),
{
    if since <= now && since <= maturity {
        if now <= maturity {
            Some(now - since)
        } else {
            Some(maturity - since)
        }
    } else {
        None
    }
}

/// Rounding toward zero: the quotient times the divisor is the multiple of
/// the divisor that lies nearest to `n` between zero and `n`. For an `n`
/// that is not negative it is `n` itself exactly when the divisor divides `n`.
pub proof fn lemma_trunc_div_rounds_toward_zero(n: int, d: int)
    requires
        d > 0,
    ensures
        n >= 0 ==> 0 <= trunc_div(n, d) * d <= n < trunc_div(n, d) * d + d,
        n <= 0 ==> 0 >= trunc_div(n, d) * d >= n > trunc_div(n, d) * d - d,
        trunc_div(-n, d) == -trunc_div(n, d),
        n >= 0 ==> (n % d == 0 <==> trunc_div(n, d) * d == n),
{
    let m = if n >= 0 {
        n
    } else {
        -n
    };
    let q = m / d;
    assert(0 <= q * d <= m < q * d + d && (m % d == 0 <==> q * d == m)) by (nonlinear_arith)
        requires
            m >= 0,
            d > 0,
            q == m / d,
    ;
    assert((-q) * d == -(q * d)) by (nonlinear_arith);
}

/// The reward is the exact product of deposit, ratio and time, divided by
/// the scale and cut off at the point, toward zero: it is the whole number
/// `q` with `q * SCALE <= deposited * ratio * elapsed < (q + 1) * SCALE` where
/// the product is not negative, and the mirror image where it is. Nothing is
/// lost where the scale divides the product.
pub proof fn lemma_reward_is_exact(deposited: int, ratio: int, elapsed: int)
    requires
        ratio >= 0,
    ensures
        ({
            let full = deposited * ratio * elapsed;
            let q = reward(deposited, ratio, elapsed);
            &&& q == trunc_div(full, SCALE as int)
            &&& full >= 0 ==> q == full / (SCALE as int) && q * SCALE <= full < (q + 1) * SCALE
            &&& full <= 0 ==> (q - 1) * SCALE < full <= q * SCALE
            &&& full >= 0 && full % (SCALE as int) == 0 ==> q * SCALE == full
        }),
{
    let full = deposited * ratio * elapsed;
    if ratio == 0 {
        assert(full == 0) by (nonlinear_arith)
            requires
                ratio == 0,
                full == deposited * ratio * elapsed,
        ;
    }
    lemma_trunc_div_rounds_toward_zero(full, SCALE as int);
}

/// Accrual is linear in time up to rounding: what a deposit earns over two
/// stretches of time, each rounded, is what it earns over both together, or
/// one unit less.
pub proof fn lemma_reward_splits(deposited: int, ratio: int, first: int, second: int)
    requires
        deposited >= 0,
        first >= 0,
        second >= 0,
    ensures
        reward(deposited, ratio, first) + reward(deposited, ratio, second) <= reward(
            deposited,
            ratio,
            first + second,
        ) <= reward(deposited, ratio, first) + reward(deposited, ratio, second) + 1,
{
    if ratio > 0 {
        let scale = SCALE as int;
        let a = deposited * ratio * first;
        let b = deposited * ratio * second;
        let c = deposited * ratio * (first + second);
        assert(c == a + b && a >= 0 && b >= 0) by (nonlinear_arith)
            requires
                deposited >= 0,
                ratio > 0,
                first >= 0,
                second >= 0,
                a == deposited * ratio * first,
                b == deposited * ratio * second,
                c == deposited * ratio * (first + second),
        ;
        lemma_trunc_div_rounds_toward_zero(a, scale);
        lemma_trunc_div_rounds_toward_zero(b, scale);
        lemma_trunc_div_rounds_toward_zero(c, scale);
        let qa = trunc_div(a, scale);
        let qb = trunc_div(b, scale);
        let qc = trunc_div(c, scale);
        assert(qa + qb <= qc <= qa + qb + 1) by (nonlinear_arith)
            requires
                scale > 0,
                qa * scale <= a < qa * scale + scale,
                qb * scale <= b < qb * scale + scale,
                qc * scale <= c < qc * scale + scale,
                c == a + b,
        ;
    }
}

} // verus!
