//! Fixed-point quantities.
//!
//! Every price, size, fee, rate and balance of the exchange is an `i64` that
//! counts hundred-millionths of a unit: the value `1.0` is [`SCALE`]. Results
//! of multiplications and divisions are truncated towards zero, and every
//! operation reports a result that leaves the `i64` range as `None`.
use vstd::prelude::*;

verus! {

/// The fixed-point representation of `1.0`.
pub const SCALE: i64 = 100_000_000;

/// `x` is representable as an `i64`.
pub open spec fn fits_i64(x: int) -> bool {
    i64::MIN <= x <= i64::MAX
}

/// Quotient of `n` by a positive `d`, truncated towards zero.
pub open spec fn trunc_div(n: int, d: int) -> int {
    if n >= 0 {
        n / d
    } else {
        -((-n) / d)
    }
}

/// The product of two fixed-point quantities, as a fixed-point quantity.
pub open spec fn scaled_mul(a: int, b: int) -> int {
    trunc_div(a * b, SCALE as int)
}

/// The quotient of two fixed-point quantities, as a fixed-point quantity.
/// Meaningful for `b != 0`; the sign of the result is the product of the signs.
pub open spec fn scaled_div(a: int, b: int) -> int {
    if b > 0 {
        trunc_div(a * SCALE, b)
    } else {
        trunc_div(-(a * SCALE), -b)
    }
}

/// The average price of a position of `size` units entered at `avg`, after
/// `qty` further units are bought or sold at `price`:
/// `(avg * size + price * qty) / (size + qty)`, truncated towards zero.
/// Meaningful for non-negative prices and sizes with `size + qty > 0`.
pub open spec fn blended_price(avg: int, size: int, price: int, qty: int) -> int {
    (avg * size + price * qty) / (size + qty)
}

/// The value of `size` units at `price`.
pub open spec fn notional(price: int, size: int) -> int {
    scaled_mul(price, size)
}

/// The fee on a fill of `size` units at `price`, charged at `rate`: the
/// notional of the fill times the rate.
pub open spec fn fee_amount(price: int, size: int, rate: int) -> int {
    scaled_mul(notional(price, size), rate)
}

/// At a non-negative price a smaller fill has a smaller notional.
pub proof fn lemma_notional_monotonic(price: int, fill: int, size: int)
    requires
        price >= 0,
        0 <= fill <= size,
    ensures
        0 <= notional(price, fill) <= notional(price, size),
{
    let s = SCALE as int;
    assert(0 <= price * fill <= price * size) by (nonlinear_arith)
        requires
            price >= 0,
            0 <= fill <= size,
    ;
    vstd::arithmetic::div_mod::lemma_div_is_ordered(price * fill, price * size, s);
    vstd::arithmetic::div_mod::lemma_div_is_ordered(0, price * fill, s);
}

/// A rate between zero and one takes a fee between zero and the notional.
pub proof fn lemma_fee_bounded(amount: int, rate: int)
    requires
        amount >= 0,
        0 <= rate <= SCALE,
    ensures
        0 <= scaled_mul(amount, rate) <= amount,
{
    let s = SCALE as int;
    assert(0 <= amount * rate <= amount * s) by (nonlinear_arith)
        requires
            amount >= 0,
            0 <= rate <= s,
    ;
    vstd::arithmetic::div_mod::lemma_div_is_ordered(amount * rate, amount * s, s);
    vstd::arithmetic::div_mod::lemma_div_is_ordered(0, amount * rate, s);
    vstd::arithmetic::div_mod::lemma_div_by_multiple(amount, s);
}

/// Multiplying by `1.0` changes nothing.
pub proof fn lemma_scaled_mul_one(amount: int)
    ensures
        scaled_mul(amount, SCALE as int) == amount,
{
    let s = SCALE as int;
    if amount >= 0 {
        vstd::arithmetic::div_mod::lemma_div_by_multiple(amount, s);
    } else {
        assert(-(amount * s) == (-amount) * s) by (nonlinear_arith);
        vstd::arithmetic::div_mod::lemma_div_by_multiple(-amount, s);
        assert(amount * s < 0) by (nonlinear_arith)
            requires
                amount < 0,
                s > 0,
        ;
    }
}

/// Bounds the product of two `i64` values.
pub proof fn lemma_product_bounds(a: int, b: int)
    requires
        fits_i64(a),
        fits_i64(b),
    ensures
        -0x4000_0000_0000_0000_0000_0000_0000_0000 <= a * b <= 0x4000_0000_0000_0000_0000_0000_0000_0000,
{
    assert(-0x4000_0000_0000_0000_0000_0000_0000_0000 <= a * b <= 0x4000_0000_0000_0000_0000_0000_0000_0000)
        by (nonlinear_arith)
        requires
            -0x8000_0000_0000_0000 <= a <= 0x7fff_ffff_ffff_ffff,
            -0x8000_0000_0000_0000 <= b <= 0x7fff_ffff_ffff_ffff,
    ;
}

/// Adds two quantities, or reports that the sum leaves the `i64` range.
pub fn add_fixed(a: i64, b: i64) -> (r: Option<i64>)
    ensures
        r == (if fits_i64(a + b) { Some((a + b) as i64) } else { None::<i64> }),
{
    a.checked_add(b)
}

/// Subtracts `b` from `a`, or reports that the difference leaves the `i64` range.
pub fn sub_fixed(a: i64, b: i64) -> (r: Option<i64>)
    ensures
        r == (if fits_i64(a - b) { Some((a - b) as i64) } else { None::<i64> }),
{
    a.checked_sub(b)
}

/// Multiplies two fixed-point quantities, truncating towards zero.
pub fn mul_fixed(a: i64, b: i64) -> (r: Option<i64>)
    ensures
        r == (if fits_i64(scaled_mul(a as int, b as int)) {
            Some(scaled_mul(a as int, b as int) as i64)
        } else {
            None::<i64>
        }),
{
    proof {
        lemma_product_bounds(a as int, b as int);
    }
    let product: i128 = (a as i128) * (b as i128);
    let quotient: i128 = product / (SCALE as i128);
    if quotient < (i64::MIN as i128) || quotient > (i64::MAX as i128) {
        None
    } else {
        Some(quotient as i64)
    }
}

/// Divides `a` by `b` in fixed point, truncating towards zero. `None` when `b`
/// is zero or the quotient leaves the `i64` range.
pub fn div_fixed(a: i64, b: i64) -> (r: Option<i64>)
    ensures
        r == (if b != 0 && fits_i64(scaled_div(a as int, b as int)) {
            Some(scaled_div(a as int, b as int) as i64)
        } else {
            None::<i64>
        }),
{
    if b == 0 {
        return None;
    }
    proof {
        lemma_product_bounds(a as int, SCALE as int);
    }
    let numerator: i128 = (a as i128) * (SCALE as i128);
    let quotient: i128 = if b > 0 {
        numerator / (b as i128)
    } else {
        (-numerator) / (-(b as i128))
    };
    if quotient < (i64::MIN as i128) || quotient > (i64::MAX as i128) {
        None
    } else {
        Some(quotient as i64)
    }
}

/// Computes [`blended_price`] for non-negative inputs. `None` when an input is
/// negative or the combined size is zero.
pub fn blend_price(avg: i64, size: i64, price: i64, qty: i64) -> (r: Option<i64>)
    ensures
        r == (if avg >= 0 && size >= 0 && price >= 0 && qty >= 0 && size + qty > 0 {
            Some(blended_price(avg as int, size as int, price as int, qty as int) as i64)
        } else {
            None::<i64>
        }),
        r is Some ==> 0 <= blended_price(avg as int, size as int, price as int, qty as int) <= i64::MAX,
{
    if avg < 0 || size < 0 || price < 0 || qty < 0 {
        return None;
    }
    let total: i128 = (size as i128) + (qty as i128);
    if total == 0 {
        return None;
    }
    proof {
        lemma_product_bounds(avg as int, size as int);
        lemma_product_bounds(price as int, qty as int);
        lemma_blended_price_bounded(avg as int, size as int, price as int, qty as int);
    }
    let weighted: i128 = (avg as i128) * (size as i128) + (price as i128) * (qty as i128);
    let quotient: i128 = weighted / total;
    Some(quotient as i64)
}

/// A blended price lies between zero and the larger of the two prices.
pub proof fn lemma_blended_price_bounded(avg: int, size: int, price: int, qty: int)
    requires
        0 <= avg <= i64::MAX,
        0 <= price <= i64::MAX,
        0 <= size <= i64::MAX,
        0 <= qty <= i64::MAX,
        size + qty > 0,
    ensures
        0 <= blended_price(avg, size, price, qty) <= i64::MAX,
        0 <= avg * size <= avg * size + price * qty <= i128::MAX,
{
    let m = i64::MAX as int;
    let n = avg * size + price * qty;
    let t = size + qty;
    assert(0 <= avg * size <= m * size) by (nonlinear_arith)
        requires 0 <= avg <= m, 0 <= size;
    assert(0 <= price * qty <= m * qty) by (nonlinear_arith)
        requires 0 <= price <= m, 0 <= qty;
    assert(m * size + m * qty == m * t) by (nonlinear_arith)
        requires t == size + qty;
    assert(0 <= n / t <= m) by (nonlinear_arith)
        requires 0 <= n <= m * t, t > 0;
    assert(m * t <= i128::MAX) by (nonlinear_arith)
        requires m == 0x7fff_ffff_ffff_ffff, 0 < t <= 2 * m;
}

} // verus!
