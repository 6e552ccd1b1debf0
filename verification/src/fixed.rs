//! Fixed-point scalars.
//!
//! A real number is represented as a signed 64-bit integer holding the
//! number times 2^16 (`FX_ONE`).  Multiplication and division round
//! toward zero, like machine division, so negating an operand negates
//! the result exactly; the truncating quotient is written `tdiv` in
//! specifications.

use vstd::prelude::*;
use vstd::arithmetic::div_mod::{
    lemma_div_is_ordered, lemma_div_by_multiple, lemma_div_multiples_vanish,
    lemma_fundamental_div_mod, lemma_fundamental_div_mod_converse,
};
use vstd::arithmetic::mul::{lemma_mul_inequality, lemma_mul_upper_bound};

verus! {

/// One unit: the scale factor 2^16 between reals and their fixed-point form.
pub const FX_ONE: i64 = 65536;

/// Magnitude limit that the pipeline keeps matrix entries and vector
/// components under so that no product overflows: 2^38, i.e. a real
/// magnitude of 2^22.
pub const FX_LIM: i64 = 0x40_0000_0000;

/// Saturation bound for ratios that may blow up on near-degenerate
/// triangles: 2^46.
pub const FX_SAT: i64 = 0x4000_0000_0000;

/// Truncating (round toward zero) integer division, the semantics of
/// machine division on signed integers.  `d` must not be zero for the
/// result to be meaningful.
pub open spec fn tdiv(n: int, d: int) -> int {
    if n == 0 {
        0
    } else if n > 0 && d > 0 {
        n / d
    } else if n < 0 && d < 0 {
        (n * -1) / (d * -1)
    } else if n < 0 {
        ((n * -1) / d) * -1
    } else {
        (n / (d * -1)) * -1
    }
}

/// The fixed-point product: the integer product scaled back down by one
/// unit, rounding toward zero.
pub open spec fn spec_fx_mul(a: int, b: int) -> int {
    tdiv(a * b, FX_ONE as int)
}

/// The fixed-point quotient: the dividend scaled up by one unit, then
/// divided rounding toward zero.
pub open spec fn spec_fx_div(a: int, b: int) -> int {
    tdiv(a * (FX_ONE as int), b)
}

/// Clamp to a closed interval.
pub open spec fn spec_clamp(x: int, lo: int, hi: int) -> int {
    if x < lo {
        lo
    } else if x > hi {
        hi
    } else {
        x
    }
}

/// Whether a scalar is within the pipeline's working magnitude `FX_LIM`.
pub open spec fn fx_ok(a: int) -> bool {
    -(FX_LIM as int) <= a <= FX_LIM as int
}

/// For positive divisors the truncating quotient of a nonnegative
/// dividend is the Euclidean quotient.
pub proof fn lemma_tdiv_pos(n: int, d: int)
    requires
        0 < d,
        0 <= n,
    ensures
        tdiv(n, d) == n / d,
{
}

/// Truncating division is odd in the dividend: negating the dividend
/// negates the quotient.
pub proof fn lemma_tdiv_neg(n: int, d: int)
    requires
        d != 0,
    ensures
        tdiv(-n, d) == -tdiv(n, d),
{
}

/// A bound on the dividend gives the same bound, shrunk by the divisor,
/// on the truncating quotient.
pub proof fn lemma_tdiv_bound(n: int, d: int, m: int)
    requires
        0 < d,
        0 <= m,
        -(m * d) <= n <= m * d,
    ensures
        -m <= tdiv(n, d) <= m,
        tdiv(n, d) == 0 || n != 0,
{
    if n > 0 {
        lemma_div_is_ordered(n, m * d, d);
        lemma_div_by_multiple(m, d);
        lemma_div_is_ordered(0, n, d);
    } else if n < 0 {
        lemma_div_is_ordered(-n, m * d, d);
        lemma_div_by_multiple(m, d);
        lemma_div_is_ordered(0, -n, d);
    }
}

/// Dividing an exact multiple is exact, for either sign of the multiple.
pub proof fn lemma_tdiv_exact(x: int, d: int)
    requires
        0 < d,
    ensures
        tdiv(x * d, d) == x,
{
    if x > 0 {
        lemma_div_by_multiple(x, d);
    } else if x < 0 {
        assert((x * d) * -1 == (-x) * d) by (nonlinear_arith);
        lemma_div_by_multiple(-x, d);
    }
}

/// Truncating division by a positive divisor is monotone in the dividend.
pub proof fn lemma_tdiv_mono(n1: int, n2: int, d: int)
    requires
        0 < d,
        n1 <= n2,
    ensures
        tdiv(n1, d) <= tdiv(n2, d),
{
    if n1 > 0 {
        lemma_div_is_ordered(n1, n2, d);
        lemma_div_is_ordered(1, n1, d);
    } else if n2 < 0 {
        lemma_div_is_ordered(-n2, -n1, d);
        lemma_div_is_ordered(1, -n2, d);
    } else {
        // n1 <= 0 <= n2: the quotients straddle zero.
        if n1 < 0 {
            lemma_div_is_ordered(0, -n1, d);
        }
        if n2 > 0 {
            lemma_div_is_ordered(0, n2, d);
        }
    }
}

/// The fixed-point product of one unit and any scalar is that scalar.
pub proof fn lemma_fx_mul_one_all()
    ensures
        forall|x: int| #[trigger] spec_fx_mul(FX_ONE as int, x) == x,
        forall|x: int| #[trigger] spec_fx_mul(x, FX_ONE as int) == x,
{
    assert forall|x: int| #[trigger] spec_fx_mul(FX_ONE as int, x) == x by {
        assert((FX_ONE as int) * x == x * (FX_ONE as int)) by (nonlinear_arith);
        lemma_tdiv_exact(x, FX_ONE as int);
    }
    assert forall|x: int| #[trigger] spec_fx_mul(x, FX_ONE as int) == x by {
        lemma_tdiv_exact(x, FX_ONE as int);
    }
}

/// The fixed-point product with zero is zero.
pub proof fn lemma_fx_mul_zero_all()
    ensures
        forall|x: int| #[trigger] spec_fx_mul(0, x) == 0,
        forall|x: int| #[trigger] spec_fx_mul(x, 0) == 0,
{
    assert forall|x: int| #[trigger] spec_fx_mul(0, x) == 0 by {
        assert(0 * x == 0) by (nonlinear_arith);
    }
    assert forall|x: int| #[trigger] spec_fx_mul(x, 0) == 0 by {
        assert(x * 0 == 0) by (nonlinear_arith);
    }
}

/// Magnitude bounds on two factors bound their product's truncating
/// quotient by any positive divisor.
pub proof fn lemma_tdiv_prod_bound(a: int, b: int, am: int, bm: int, d: int)
    requires
        0 < d,
        -am <= a <= am,
        -bm <= b <= bm,
    ensures
        -(am * bm) <= a * b <= am * bm,
        -((am * bm) / d) <= tdiv(a * b, d) <= (am * bm) / d,
{
    assert(-(am * bm) <= a * b <= am * bm) by (nonlinear_arith)
        requires
            -am <= a <= am,
            -bm <= b <= bm,
    ;
    assert(0 <= am * bm) by (nonlinear_arith)
        requires
            -am <= am,
            -bm <= bm,
    ;
    lemma_tdiv_mono(a * b, am * bm, d);
    lemma_tdiv_mono(-(am * bm), a * b, d);
    lemma_tdiv_neg(am * bm, d);
    lemma_tdiv_pos(am * bm, d);
}

/// Magnitude bounds on the factors bound the fixed-point product.
pub proof fn lemma_fx_mul_bound(a: int, b: int, am: int, bm: int)
    requires
        -am <= a <= am,
        -bm <= b <= bm,
    ensures
        -(am * bm) <= a * b <= am * bm,
        -((am * bm) / (FX_ONE as int)) <= spec_fx_mul(a, b)
            <= (am * bm) / (FX_ONE as int),
{
    lemma_tdiv_prod_bound(a, b, am, bm, FX_ONE as int);
}

/// Truncating division is subadditive up to one unit: splitting a
/// dividend in two can raise the sum of quotients by at most one.
pub proof fn lemma_tdiv_subadd(a: int, b: int, d: int)
    requires
        0 < d,
    ensures
        tdiv(a, d) + tdiv(b, d) <= tdiv(a + b, d) + 1,
{
    lemma_floor_add(a, b, d);
    lemma_floor_add(-a, -b, d);
    lemma_trunc_vs_floor(a, d);
    lemma_trunc_vs_floor(b, d);
    lemma_trunc_vs_floor(a + b, d);
    if a >= 0 && b >= 0 {
    } else if a < 0 && b < 0 {
        lemma_tdiv_neg(-a, d);
        lemma_tdiv_neg(-b, d);
        lemma_tdiv_neg(-(a + b), d);
    } else {
    }
}

/// The Euclidean quotients of two dividends sum to within one of the
/// quotient of their sum.
proof fn lemma_floor_add(a: int, b: int, d: int)
    requires
        0 < d,
    ensures
        a / d + b / d <= (a + b) / d <= a / d + b / d + 1,
{
    lemma_fundamental_div_mod(a, d);
    lemma_fundamental_div_mod(b, d);
    vstd::arithmetic::div_mod::lemma_mod_bound(a, d);
    vstd::arithmetic::div_mod::lemma_mod_bound(b, d);
    assert((a / d + b / d) * d == d * (a / d) + d * (b / d)
        && (a / d + b / d + 1) * d == d * (a / d) + d * (b / d) + d)
        by (nonlinear_arith);
    if a % d + b % d < d {
        lemma_fundamental_div_mod_converse(a + b, d, a / d + b / d, a % d + b % d);
    } else {
        lemma_fundamental_div_mod_converse(
            a + b, d, a / d + b / d + 1, a % d + b % d - d);
    }
}

/// The truncating quotient equals the Euclidean quotient, or exceeds
/// it by one on a negative dividend that does not divide evenly.
proof fn lemma_trunc_vs_floor(n: int, d: int)
    requires
        0 < d,
    ensures
        n / d <= tdiv(n, d) <= n / d + 1,
{
    if n < 0 {
        lemma_fundamental_div_mod(n, d);
        vstd::arithmetic::div_mod::lemma_mod_bound(n, d);
        assert((-(n / d)) * d == -(d * (n / d))
            && (-(n / d) - 1) * d == -(d * (n / d)) - d) by (nonlinear_arith);
        if n % d == 0 {
            lemma_fundamental_div_mod_converse(-n, d, -(n / d), 0);
        } else {
            lemma_fundamental_div_mod_converse(-n, d, -(n / d) - 1, d - n % d);
        }
    }
}

/// The fixed-point product is odd: negating one factor negates it.
pub proof fn lemma_fx_mul_neg(a: int, b: int)
    ensures
        spec_fx_mul(-a, b) == -spec_fx_mul(a, b),
{
    assert((-a) * b == -(a * b)) by (nonlinear_arith);
    lemma_tdiv_neg(a * b, FX_ONE as int);
}

/// The fixed-point product of nonnegative factors is nonnegative and
/// monotone in either factor.
pub proof fn lemma_fx_mul_mono(a1: int, a2: int, b: int)
    requires
        0 <= a1 <= a2,
        0 <= b,
    ensures
        0 <= spec_fx_mul(a1, b) <= spec_fx_mul(a2, b),
        spec_fx_mul(b, a1) == spec_fx_mul(a1, b),
        spec_fx_mul(b, a2) == spec_fx_mul(a2, b),
{
    assert(0 <= a1 * b <= a2 * b && a1 * b == b * a1 && a2 * b == b * a2)
        by (nonlinear_arith)
        requires
            0 <= a1 <= a2,
            0 <= b,
    ;
    lemma_tdiv_mono(0, a1 * b, FX_ONE as int);
    lemma_tdiv_mono(a1 * b, a2 * b, FX_ONE as int);
}

/// All products under the given magnitude bounds have their fixed-point
/// product bounded accordingly.
pub proof fn lemma_fx_mul_bound_all(am: int, bm: int)
    requires
        0 <= am,
        0 <= bm,
    ensures
        forall|x: int, y: int|
            -am <= x <= am && -bm <= y <= bm ==> -((am * bm) / (FX_ONE as int))
                <= #[trigger] spec_fx_mul(x, y) <= (am * bm) / (FX_ONE as int),
{
    assert forall|x: int, y: int| -am <= x <= am && -bm <= y <= bm
        implies -((am * bm) / (FX_ONE as int)) <= #[trigger] spec_fx_mul(x, y)
            <= (am * bm) / (FX_ONE as int) by {
        lemma_fx_mul_bound(x, y, am, bm);
    }
}

/// Products of scalars within `FX_LIM` neither overflow `fx_mul` nor
/// exceed 2^60 after scaling down; squares are nonnegative.
pub proof fn lemma_fx_ok_products()
    ensures
        forall|x: int, y: int|
            fx_ok(x) && fx_ok(y) ==> -0x7fff_ffff_ffff_ffff * (FX_ONE as int)
                <= #[trigger] (x * y) <= 0x7fff_ffff_ffff_ffff * (FX_ONE as int),
        forall|x: int, y: int|
            fx_ok(x) && fx_ok(y) ==> -0x1000_0000_0000_0000
                <= #[trigger] spec_fx_mul(x, y) <= 0x1000_0000_0000_0000,
        forall|x: int| 0 <= #[trigger] spec_fx_mul(x, x),
{
    assert forall|x: int, y: int| fx_ok(x) && fx_ok(y)
        implies -0x7fff_ffff_ffff_ffff * (FX_ONE as int) <= #[trigger] (x * y)
            <= 0x7fff_ffff_ffff_ffff * (FX_ONE as int) by {
        lemma_fx_mul_bound(x, y, FX_LIM as int, FX_LIM as int);
    }
    assert forall|x: int, y: int| fx_ok(x) && fx_ok(y)
        implies -0x1000_0000_0000_0000 <= #[trigger] spec_fx_mul(x, y)
            <= 0x1000_0000_0000_0000 by {
        lemma_fx_mul_bound(x, y, FX_LIM as int, FX_LIM as int);
    }
    assert forall|x: int| 0 <= #[trigger] spec_fx_mul(x, x) by {
        assert(0 <= x * x) by (nonlinear_arith);
        lemma_tdiv_mono(0, x * x, FX_ONE as int);
    }
}

/// The fixed-point product, rounding toward zero.
pub fn fx_mul(a: i64, b: i64) -> (r: i64)
    requires
        -0x7fff_ffff_ffff_ffff * (FX_ONE as int) <= a * b
            <= 0x7fff_ffff_ffff_ffff * (FX_ONE as int),
    ensures
        r == spec_fx_mul(a as int, b as int),
{
    proof {
        lemma_mul_i64_fits(a as int, b as int);
        lemma_tdiv_bound(a * b, FX_ONE as int, 0x7fff_ffff_ffff_ffff);
    }
    let p: i128 = (a as i128) * (b as i128);
    let q: i128 = p.checked_div(65536).unwrap();
    q as i64
}

/// The product of two 64-bit integers fits in 128 bits.
proof fn lemma_mul_i64_fits(a: int, b: int)
    requires
        -0x8000_0000_0000_0000 <= a <= 0x7fff_ffff_ffff_ffff,
        -0x8000_0000_0000_0000 <= b <= 0x7fff_ffff_ffff_ffff,
    ensures
        -0x4000_0000_0000_0000_0000_0000_0000_0000 <= a * b
            <= 0x4000_0000_0000_0000_0000_0000_0000_0000,
{
    assert(-0x4000_0000_0000_0000_0000_0000_0000_0000 <= a * b
        <= 0x4000_0000_0000_0000_0000_0000_0000_0000) by (nonlinear_arith)
        requires
            -0x8000_0000_0000_0000 <= a <= 0x7fff_ffff_ffff_ffff,
            -0x8000_0000_0000_0000 <= b <= 0x7fff_ffff_ffff_ffff,
    ;
}

/// The fixed-point quotient, rounding toward zero.  The caller shows
/// that the quotient fits; `fx_div_sat` is the total variant.
pub fn fx_div(a: i64, b: i64) -> (r: i64)
    requires
        b != 0,
        -0x7fff_ffff_ffff_ffff <= spec_fx_div(a as int, b as int)
            <= 0x7fff_ffff_ffff_ffff,
    ensures
        r == spec_fx_div(a as int, b as int),
{
    let p: i128 = (a as i128) * 65536;
    let q: i128 = p.checked_div(b as i128).unwrap();
    q as i64
}

/// The fixed-point quotient, saturated to `FX_SAT`.  Only ratios far
/// outside any geometric use are clamped; within `FX_SAT` the result is
/// the exact truncating quotient, and its sign is always preserved.
pub open spec fn spec_fx_div_sat(a: int, b: int) -> int {
    spec_clamp(spec_fx_div(a, b), -(FX_SAT as int), FX_SAT as int)
}

pub fn fx_div_sat(a: i64, b: i64) -> (r: i64)
    requires
        b != 0,
    ensures
        r == spec_fx_div_sat(a as int, b as int),
{
    let p: i128 = (a as i128) * 65536;
    let q: i128 = p.checked_div(b as i128).unwrap();
    if q > 0x4000_0000_0000 {
        0x4000_0000_0000
    } else if q < -0x4000_0000_0000 {
        -0x4000_0000_0000
    } else {
        q as i64
    }
}

/// Truncating division by a positive divisor, the sign handled
/// explicitly so that the result is `tdiv` exactly.
pub fn tdiv_by(a: i64, d: i64) -> (r: i64)
    requires
        0 < d,
        -0x7fff_ffff_ffff_ffff <= a,
    ensures
        r == tdiv(a as int, d as int),
        a >= 0 ==> 0 <= r <= a,
        a < 0 ==> a <= r <= 0,
{
    proof {
        let m: int = if a >= 0 { a as int } else { -(a as int) };
        lemma_mul_inequality(1, d as int, m);
        vstd::arithmetic::mul::lemma_mul_is_commutative(d as int, m);
        lemma_tdiv_bound(a as int, d as int, m);
        lemma_tdiv_mono(0, m, d as int);
        lemma_tdiv_neg(m, d as int);
    }
    if a >= 0 {
        a / d
    } else {
        let m: i64 = -a;
        -(m / d)
    }
}

/// The fixed-point product, saturated to `FX_SAT`: total, with the
/// exact truncating product whenever it is within the saturation
/// range.
pub open spec fn spec_fx_mul_sat(a: int, b: int) -> int {
    spec_clamp(spec_fx_mul(a, b), -(FX_SAT as int), FX_SAT as int)
}

pub fn fx_mul_sat(a: i64, b: i64) -> (r: i64)
    ensures
        r == spec_fx_mul_sat(a as int, b as int),
{
    proof {
        lemma_mul_i64_fits(a as int, b as int);
        lemma_tdiv_bound(
            a * b, FX_ONE as int, 0x1_0000_0000_0000_0000_0000_0000_0000);
    }
    let p: i128 = (a as i128) * (b as i128);
    let q: i128 = p.checked_div(65536).unwrap();
    if q > 0x4000_0000_0000 {
        0x4000_0000_0000
    } else if q < -0x4000_0000_0000 {
        -0x4000_0000_0000
    } else {
        q as i64
    }
}

/// Clamp to a closed interval.
pub fn fx_clamp(x: i64, lo: i64, hi: i64) -> (r: i64)
    requires
        lo <= hi,
    ensures
        r == spec_clamp(x as int, lo as int, hi as int),
        lo <= r <= hi,
{
    if x < lo {
        lo
    } else if x > hi {
        hi
    } else {
        x
    }
}

/// The smaller of two scalars.
pub fn fx_min(a: i64, b: i64) -> (r: i64)
    ensures
        r == if a as int <= b as int { a as int } else { b as int },
{
    if a <= b { a } else { b }
}

/// The larger of two scalars.
pub fn fx_max(a: i64, b: i64) -> (r: i64)
    ensures
        r == if a as int >= b as int { a as int } else { b as int },
{
    if a >= b { a } else { b }
}

/// The magnitude of a scalar.
pub fn fx_abs(x: i64) -> (r: i64)
    requires
        -0x7fff_ffff_ffff_ffff <= x,
    ensures
        r == if x as int >= 0 { x as int } else { -(x as int) },
{
    if x >= 0 { x } else { -x }
}

/// `r` is the integer square root of `n`.
pub open spec fn is_sqrt(n: int, r: int) -> bool {
    0 <= r && r * r <= n < (r + 1) * (r + 1)
}

/// The integer square root as a spec value, by counting up.
pub open spec fn spec_isqrt(n: nat) -> nat
    decreases n,
{
    if n == 0 {
        0
    } else {
        let p = spec_isqrt((n - 1) as nat);
        if (p + 1) * (p + 1) <= n {
            p + 1
        } else {
            p
        }
    }
}

/// `spec_isqrt` is a square root.
pub proof fn lemma_isqrt_is_sqrt(n: nat)
    ensures
        is_sqrt(n as int, spec_isqrt(n) as int),
    decreases n,
{
    if n > 0 {
        lemma_isqrt_is_sqrt((n - 1) as nat);
        let p = spec_isqrt((n - 1) as nat);
        if (p + 1) * (p + 1) <= n {
            assert((p + 2) * (p + 2) > (p + 1) * (p + 1) + 1) by (nonlinear_arith)
                requires
                    0 <= p,
            ;
        }
    }
}

/// Integer square roots are unique.
pub proof fn lemma_sqrt_unique(n: int, r1: int, r2: int)
    requires
        is_sqrt(n, r1),
        is_sqrt(n, r2),
    ensures
        r1 == r2,
{
    assert(r1 == r2) by (nonlinear_arith)
        requires
            0 <= r1,
            0 <= r2,
            r1 * r1 <= n < (r1 + 1) * (r1 + 1),
            r2 * r2 <= n < (r2 + 1) * (r2 + 1),
    ;
}

/// The integer square root of a 64-bit integer, by bisection.
pub fn isqrt64(n: u64) -> (r: u64)
    ensures
        is_sqrt(n as int, r as int),
        r == spec_isqrt(n as nat),
{
    let mut lo: u64 = 0;
    let mut hi: u64 = 0x1_0000_0000;
    proof {
        assert((0x1_0000_0000 as int) * (0x1_0000_0000 as int) > n as int);
    }
    while lo + 1 < hi
        invariant
            lo < hi <= 0x1_0000_0000,
            (lo as int) * (lo as int) <= n as int,
            (hi as int) * (hi as int) > n as int,
        decreases hi - lo,
    {
        let mid: u64 = lo + (hi - lo) / 2;
        proof {
            assert((mid as int) * (mid as int) <= 0x1_0000_0000 * 0x1_0000_0000)
                by (nonlinear_arith)
                requires
                    0 <= mid as int <= 0x1_0000_0000,
            ;
        }
        if (mid as u128) * (mid as u128) <= n as u128 {
            lo = mid;
        } else {
            hi = mid;
        }
    }
    proof {
        lemma_isqrt_is_sqrt(n as nat);
        lemma_sqrt_unique(n as int, lo as int, spec_isqrt(n as nat) as int);
    }
    lo
}

/// The fixed-point square root of a nonnegative scalar: the integer
/// square root of the scalar scaled up by one unit.
pub fn fx_sqrt(a: i64) -> (r: i64)
    requires
        0 <= a <= 0x7fff_ffff_ffff,
    ensures
        r == spec_isqrt((a * (FX_ONE as int)) as nat),
        is_sqrt(a * (FX_ONE as int), r as int),
        0 <= r,
{
    proof {
        lemma_isqrt_is_sqrt((a * (FX_ONE as int)) as nat);
        let s = spec_isqrt((a * (FX_ONE as int)) as nat);
        assert(s as int <= 0x1_0000_0000_0000) by (nonlinear_arith)
            requires
                is_sqrt(a * (FX_ONE as int), s as int),
                a * (FX_ONE as int) < 0x1_0000_0000_0000 * 0x1_0000_0000_0000,
        ;
    }
    let r = isqrt64((a as u64) * 65536);
    r as i64
}

/// Ceiling division by one unit: the least integer at or above the
/// represented real.
pub fn fx_ceil_units(a: i64) -> (i: i64)
    requires
        -(FX_SAT as int) <= a <= FX_SAT as int,
    ensures
        i == -((-(a as int)) / (FX_ONE as int)),
{
    let f = fx_floor_units(-a);
    proof {
        lemma_div_is_ordered(-(a as int), FX_SAT as int, FX_ONE as int);
        lemma_div_is_ordered(-(FX_SAT as int), -(a as int), FX_ONE as int);
    }
    -f
}

/// Floor division by one unit: the greatest integer at or below the
/// represented real, as used for lattice coordinates.
pub fn fx_floor_units(a: i64) -> (i: i64)
    requires
        -(FX_SAT as int) <= a <= FX_SAT as int,
    ensures
        i == (a as int) / (FX_ONE as int),
{
    if a >= 0 {
        proof {
            lemma_tdiv_bound(a as int, FX_ONE as int, FX_SAT as int);
        }
        a / 65536
    } else {
        let m: i64 = -a;
        let q: i64 = (m + 65535) / 65536;
        proof {
            let d = FX_ONE as int;
            lemma_fundamental_div_mod(m as int, d);
            let q0 = (m as int) / d;
            let r0 = (m as int) % d;
            lemma_div_is_ordered(0, m as int, d);
            lemma_tdiv_bound(m + 65535, d, (FX_SAT as int) / (FX_ONE as int) + 1);
            if r0 == 0 {
                lemma_fundamental_div_mod_converse(m + 65535, d, q0, 65535);
                lemma_fundamental_div_mod_converse(a as int, d, -q0, 0);
            } else {
                lemma_fundamental_div_mod_converse(m + 65535, d, q0 + 1, r0 - 1);
                lemma_fundamental_div_mod_converse(a as int, d, -q0 - 1, d - r0);
            }
        }
        -q
    }
}

} // verus!
