//! Saturating fixed-point arithmetic with 32 fractional bits.
//!
//! A scalar is an `i64` holding a real value scaled by `FX_ONE` (2^32).
//! Every operation saturates at the `i64` range instead of wrapping or
//! panicking, so all operations are total and have exact specifications.

use vstd::prelude::*;

verus! {

/// The fixed-point representation of 1.0: one unit is 2^-32.
pub const FX_ONE: i64 = 4294967296;

/// The fixed-point representation of 0.5.
pub const FX_HALF: i64 = 2147483648;

/// Clamp a mathematical integer into the representable `i64` range.
pub open spec fn fx_clip(v: int) -> int {
    if v > i64::MAX as int {
        i64::MAX as int
    } else if v < i64::MIN as int {
        i64::MIN as int
    } else {
        v
    }
}

pub open spec fn abs_int(v: int) -> int {
    if v >= 0 {
        v
    } else {
        -v
    }
}

/// Division that rounds toward zero, matching hardware integer division.
pub open spec fn div_trunc(p: int, q: int) -> int {
    if (p >= 0) == (q >= 0) {
        abs_int(p) / abs_int(q)
    } else {
        -(abs_int(p) / abs_int(q))
    }
}

pub open spec fn fx_add_v(a: int, b: int) -> int {
    fx_clip(a + b)
}

pub open spec fn fx_sub_v(a: int, b: int) -> int {
    fx_clip(a - b)
}

pub open spec fn fx_neg_v(a: int) -> int {
    fx_clip(-a)
}

pub open spec fn fx_mul_v(a: int, b: int) -> int {
    fx_clip(div_trunc(a * b, FX_ONE as int))
}

pub open spec fn fx_div_v(a: int, b: int) -> int {
    if b == 0 {
        0
    } else {
        fx_clip(div_trunc(a * (FX_ONE as int), b))
    }
}

/// Saturating fixed-point addition.
pub fn fx_add(a: i64, b: i64) -> (r: i64)
    ensures
        r == fx_add_v(a as int, b as int),
{
    let s: i128 = a as i128 + b as i128;
    if s > i64::MAX as i128 {
        i64::MAX
    } else if s < i64::MIN as i128 {
        i64::MIN
    } else {
        s as i64
    }
}

/// Saturating fixed-point subtraction.
pub fn fx_sub(a: i64, b: i64) -> (r: i64)
    ensures
        r == fx_sub_v(a as int, b as int),
{
    let s: i128 = a as i128 - b as i128;
    if s > i64::MAX as i128 {
        i64::MAX
    } else if s < i64::MIN as i128 {
        i64::MIN
    } else {
        s as i64
    }
}

/// Saturating fixed-point negation.
pub fn fx_neg(a: i64) -> (r: i64)
    ensures
        r == fx_neg_v(a as int),
{
    if a == i64::MIN {
        i64::MAX
    } else {
        -a
    }
}

/// The magnitude of `a`, exact even for `i64::MIN`.
fn abs_mag(a: i64) -> (r: u128)
    ensures
        r == abs_int(a as int),
{
    let w: i128 = a as i128;
    if w < 0 {
        (-w) as u128
    } else {
        w as u128
    }
}

/// Clamp a nonnegative magnitude to `i64::MAX`, with the sign applied.
fn apply_sign(neg: bool, q: u128) -> (r: i64)
    ensures
        r == fx_clip(if neg { -(q as int) } else { q as int }),
{
    if neg {
        if q >= 9223372036854775808u128 {
            i64::MIN
        } else {
            -(q as i64)
        }
    } else {
        if q > i64::MAX as u128 {
            i64::MAX
        } else {
            q as i64
        }
    }
}

/// Saturating fixed-point multiplication: `(a * b) / FX_ONE`, truncated
/// toward zero.
pub fn fx_mul(a: i64, b: i64) -> (r: i64)
    ensures
        r == fx_mul_v(a as int, b as int),
{
    let ma: u128 = abs_mag(a);
    let mb: u128 = abs_mag(b);
    proof {
        lemma_abs_mul(a as int, b as int);
    }
    let p: u128 = ma * mb;
    let q: u128 = p / (FX_ONE as u128);
    let neg = (a < 0) != (b < 0);
    proof {
        lemma_trunc_by_magnitude(a as int * b as int, FX_ONE as int);
    }
    apply_sign(neg && q > 0, q)
}

/// Saturating fixed-point division: `(a * FX_ONE) / b`, truncated toward
/// zero.
pub fn fx_div(a: i64, b: i64) -> (r: i64)
    requires
        b != 0,
    ensures
        r == fx_div_v(a as int, b as int),
{
    let ma: u128 = abs_mag(a);
    let mb: u128 = abs_mag(b);
    proof {
        lemma_abs_mul(a as int, FX_ONE as int);
    }
    let p: u128 = ma * (FX_ONE as u128);
    let q: u128 = p / mb;
    let neg = (a < 0) != (b < 0);
    proof {
        lemma_trunc_by_magnitude(a as int * FX_ONE as int, b as int);
    }
    apply_sign(neg && q > 0, q)
}

/// The magnitudes of two factors multiply to the magnitude of the product,
/// that product fits in a `u128`, and the product's sign follows the factors'
/// signs.
proof fn lemma_abs_mul(a: int, b: int)
    requires
        abs_int(a) <= 0x8000000000000000,
        abs_int(b) <= 0x8000000000000000,
    ensures
        abs_int(a) * abs_int(b) == abs_int(a * b),
        abs_int(a) * abs_int(b) <= 0x40000000000000000000000000000000,
        a >= 0 && b >= 0 ==> a * b >= 0,
        a <= 0 && b <= 0 ==> a * b >= 0,
        a >= 0 && b <= 0 ==> a * b <= 0,
        a <= 0 && b >= 0 ==> a * b <= 0,
{
    assert(abs_int(a) * abs_int(b) == abs_int(a * b)
        && abs_int(a) * abs_int(b) <= 0x40000000000000000000000000000000
        && (a >= 0 && b >= 0 ==> a * b >= 0)
        && (a <= 0 && b <= 0 ==> a * b >= 0)
        && (a >= 0 && b <= 0 ==> a * b <= 0)
        && (a <= 0 && b >= 0 ==> a * b <= 0)) by (nonlinear_arith)
        requires
            abs_int(a) <= 0x8000000000000000,
            abs_int(b) <= 0x8000000000000000,
    ;
}

/// Truncating division agrees with dividing the magnitudes and restoring the
/// sign afterwards.
proof fn lemma_trunc_by_magnitude(p: int, q: int)
    requires
        q != 0,
    ensures
        div_trunc(p, q) == if (p >= 0) == (q >= 0) {
            abs_int(p) / abs_int(q)
        } else {
            -(abs_int(p) / abs_int(q))
        },
        abs_int(p) / abs_int(q) >= 0,
        abs_int(p) / abs_int(q) == 0 <==> abs_int(p) < abs_int(q),
{
    assert(abs_int(p) / abs_int(q) >= 0
        && (abs_int(p) / abs_int(q) == 0 <==> abs_int(p) < abs_int(q))) by (nonlinear_arith)
        requires
            abs_int(q) > 0,
            abs_int(p) >= 0,
    ;
}

/// Multiplying a nonnegative value by a factor in `[0, 1]` keeps it within
/// `[0, value]`.
pub proof fn lemma_fx_mul_unit(a: int, b: int)
    requires
        0 <= a,
        0 <= b <= FX_ONE as int,
    ensures
        0 <= fx_mul_v(a, b) <= a,
{
    assert(0 <= a * b && a * b <= a * (FX_ONE as int)) by (nonlinear_arith)
        requires
            0 <= a,
            0 <= b <= FX_ONE as int,
    ;
    assert(0 <= (a * b) / (FX_ONE as int) <= a) by (nonlinear_arith)
        requires
            0 <= a * b <= a * (FX_ONE as int),
            0 <= a,
    ;
}

/// Multiplying a nonpositive value by a factor in `[0, 1]` cannot give a
/// positive result.
pub proof fn lemma_fx_mul_nonpos(a: int, b: int)
    requires
        a <= 0,
        0 <= b <= FX_ONE as int,
    ensures
        fx_mul_v(a, b) <= 0,
{
    assert(a * b <= 0) by (nonlinear_arith)
        requires
            a <= 0,
            b >= 0,
    ;
    assert(abs_int(a * b) / (FX_ONE as int) >= 0) by (nonlinear_arith)
        requires
            abs_int(a * b) >= 0,
    ;
}

/// Dividing 1 by a value at least 1 gives a result in `[0, 1]`.
pub proof fn lemma_fx_div_unit(b: int)
    requires
        FX_ONE as int <= b,
    ensures
        0 <= fx_div_v(FX_ONE as int, b) <= FX_ONE as int,
{
    assert(0 <= ((FX_ONE as int) * (FX_ONE as int)) / b <= FX_ONE as int) by (nonlinear_arith)
        requires
            FX_ONE as int <= b,
    ;
}

/// Convert a small integer to fixed point.
pub fn fx_from_int(v: i64) -> (r: i64)
    ensures
        r == fx_clip(v * (FX_ONE as int)),
{
    fx_mul_by_one(v)
}

fn fx_mul_by_one(v: i64) -> (r: i64)
    ensures
        r == fx_clip(v * (FX_ONE as int)),
{
    proof {
        assert(-0x80000000000000000000000000000000 <= (v as int) * (FX_ONE as int)
            < 0x80000000000000000000000000000000) by (nonlinear_arith)
            requires
                -0x8000000000000000 <= v as int <= 0x7FFFFFFFFFFFFFFF,
        ;
    }
    let p: i128 = (v as i128) * (FX_ONE as i128);
    if p > i64::MAX as i128 {
        i64::MAX
    } else if p < i64::MIN as i128 {
        i64::MIN
    } else {
        p as i64
    }
}

/// An element-for-element copy of a fixed-point vector.
pub(crate) fn copy_vec(v: &Vec<i64>) -> (r: Vec<i64>)
    ensures
        r@ == v@,
{
    let n = v.len();
    let mut out: Vec<i64> = Vec::new();
    let mut i: usize = 0;
    while i < n
        invariant
            n == v@.len(),
            i <= n,
            out@.len() == i,
            forall|k: int| 0 <= k < i ==> out@[k] == v@[k],
        decreases n - i,
    {
        out.push(v[i]);
        i = i + 1;
    }
    proof {
        assert(out@ =~= v@);
    }
    out
}

} // verus!
