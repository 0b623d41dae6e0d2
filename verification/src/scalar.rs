//! The number model: an exact fixed-point value in micro-units,
//! together with the three non-finite values a diverging simulation
//! can produce. Arithmetic never panics: finite results that leave
//! the representable range saturate to an infinity, and the
//! indeterminate combinations (infinity minus infinity, zero times
//! infinity, zero over zero) yield `NaN`, mirroring how a host's
//! floating-point numbers would behave.

use vstd::prelude::*;

verus! {

/// Number of units that make up 1.0; all `Scalar` values are counted
/// in millionths.
pub const SCALE: i64 = 1_000_000;

/// Largest magnitude a finite value may hold, in units. The range is
/// kept symmetric so that negation of a finite value is always finite.
pub const MAX_UNITS: i64 = i64::MAX;

/// A number: either finite (a signed count of millionths) or one of
/// the non-finite values that arithmetic on degenerate inputs yields.
#[derive(Clone, Copy, Debug, PartialEq, Eq, Structural)]
pub enum Scalar {
    Finite(i64),
    Inf,
    NegInf,
    NaN,
}

/// Absolute value of a mathematical integer.
pub open spec fn abs_i(x: int) -> int {
    if x < 0 { -x } else { x }
}

/// A finite value is well formed when its unit count stays within the
/// symmetric range; every operation of this module only produces such
/// values.
pub open spec fn wf(s: Scalar) -> bool {
    match s {
        Scalar::Finite(u) => -MAX_UNITS <= u,
        _ => true,
    }
}

/// Clamp a mathematical unit count into a `Scalar`: counts beyond the
/// representable range become the infinity of the matching sign.
pub open spec fn sat(v: int) -> Scalar {
    if v > MAX_UNITS as int {
        Scalar::Inf
    } else if v < -(MAX_UNITS as int) {
        Scalar::NegInf
    } else {
        Scalar::Finite(v as i64)
    }
}

/// Unit count of a finite value (meaningful only for `Finite`).
pub open spec fn units_of(s: Scalar) -> int {
    match s {
        Scalar::Finite(u) => u as int,
        _ => 0,
    }
}

/// Whether a value is on the negative side; `NaN` is treated as
/// non-negative (its sign never matters: every rule involving `NaN`
/// yields `NaN` before a sign is consulted).
pub open spec fn is_neg(s: Scalar) -> bool {
    match s {
        Scalar::Finite(u) => u < 0,
        Scalar::NegInf => true,
        _ => false,
    }
}

pub open spec fn spec_is_finite(s: Scalar) -> bool {
    s is Finite
}

pub open spec fn spec_zero() -> Scalar {
    Scalar::Finite(0)
}

pub open spec fn spec_one() -> Scalar {
    Scalar::Finite(SCALE)
}

/// Negation: exact on finite values (the symmetric range makes this
/// total), swaps the infinities, keeps `NaN`.
pub open spec fn spec_neg(a: Scalar) -> Scalar {
    match a {
        Scalar::Finite(u) => sat(-(u as int)),
        Scalar::Inf => Scalar::NegInf,
        Scalar::NegInf => Scalar::Inf,
        Scalar::NaN => Scalar::NaN,
    }
}

/// Addition: `NaN` absorbs, opposite infinities are indeterminate, an
/// infinity otherwise wins, and finite sums saturate.
pub open spec fn spec_plus(a: Scalar, b: Scalar) -> Scalar {
    if a is NaN || b is NaN {
        Scalar::NaN
    } else if a is Finite && b is Finite {
        sat(units_of(a) + units_of(b))
    } else if (a is Inf && b is NegInf) || (a is NegInf && b is Inf) {
        Scalar::NaN
    } else if a is Inf || b is Inf {
        Scalar::Inf
    } else {
        Scalar::NegInf
    }
}

/// Subtraction is addition of the negation, exactly.
pub open spec fn spec_minus(a: Scalar, b: Scalar) -> Scalar {
    spec_plus(a, spec_neg(b))
}

/// Product of two finite unit counts, truncated toward zero: the
/// magnitudes multiply and are divided by `SCALE`, and the sign is the
/// sign of the product.
pub open spec fn mul_units(x: int, y: int) -> int {
    let m = abs_i(x) * abs_i(y) / (SCALE as int);
    if (x < 0) == (y < 0) { m } else { -m }
}

/// Multiplication: `NaN` absorbs, zero times an infinity is
/// indeterminate, an infinity otherwise carries the product's sign,
/// and finite products truncate toward zero and saturate.
pub open spec fn spec_times(a: Scalar, b: Scalar) -> Scalar {
    if a is NaN || b is NaN {
        Scalar::NaN
    } else if a is Finite && b is Finite {
        sat(mul_units(units_of(a), units_of(b)))
    } else if a == spec_zero() || b == spec_zero() {
        Scalar::NaN
    } else if is_neg(a) == is_neg(b) {
        Scalar::Inf
    } else {
        Scalar::NegInf
    }
}

/// Quotient of two finite unit counts, `y` nonzero, truncated toward
/// zero.
pub open spec fn div_units(x: int, y: int) -> int {
    let m = abs_i(x) * (SCALE as int) / abs_i(y);
    if (x < 0) == (y < 0) { m } else { -m }
}

/// Division: `NaN` absorbs, infinity over infinity and zero over zero
/// are indeterminate, a nonzero value over zero is the infinity of its
/// sign, an infinity over a finite value keeps the quotient's sign, a
/// finite value over an infinity is zero, and finite quotients
/// truncate toward zero and saturate.
pub open spec fn spec_div(a: Scalar, b: Scalar) -> Scalar {
    if a is NaN || b is NaN {
        Scalar::NaN
    } else if !(a is Finite) && !(b is Finite) {
        Scalar::NaN
    } else if b == spec_zero() {
        if a == spec_zero() {
            Scalar::NaN
        } else if is_neg(a) {
            Scalar::NegInf
        } else {
            Scalar::Inf
        }
    } else if !(a is Finite) {
        if is_neg(a) == is_neg(b) { Scalar::Inf } else { Scalar::NegInf }
    } else if !(b is Finite) {
        spec_zero()
    } else {
        sat(div_units(units_of(a), units_of(b)))
    }
}

impl Scalar {
    /// Build a value from a signed count of millionths. The one count
    /// outside the symmetric range saturates.
    pub fn from_units(u: i64) -> (r: Scalar)
        ensures
            r == sat(u as int),
    {
        if u == i64::MIN {
            Scalar::NegInf
        } else {
            Scalar::Finite(u)
        }
    }

    pub fn zero() -> (r: Scalar)
        ensures
            r == spec_zero(),
    {
        Scalar::Finite(0)
    }

    pub fn one() -> (r: Scalar)
        ensures
            r == spec_one(),
    {
        Scalar::Finite(SCALE)
    }

    /// Finiteness query: false exactly on the three non-finite values.
    pub fn is_finite(&self) -> (r: bool)
        ensures
            r == spec_is_finite(*self),
    {
        match self {
            Scalar::Finite(_) => true,
            _ => false,
        }
    }

    fn is_nan(&self) -> (r: bool)
        ensures
            r == (*self is NaN),
    {
        match self {
            Scalar::NaN => true,
            _ => false,
        }
    }

    fn is_negative(&self) -> (r: bool)
        ensures
            r == is_neg(*self),
    {
        match self {
            Scalar::Finite(u) => *u < 0,
            Scalar::NegInf => true,
            _ => false,
        }
    }

    pub fn neg(self) -> (r: Scalar)
        ensures
            r == spec_neg(self),
    {
        match self {
            Scalar::Finite(u) => sat_exec(-(u as i128)),
            Scalar::Inf => Scalar::NegInf,
            Scalar::NegInf => Scalar::Inf,
            Scalar::NaN => Scalar::NaN,
        }
    }

    pub fn plus(self, other: Scalar) -> (r: Scalar)
        ensures
            r == spec_plus(self, other),
    {
        match (self, other) {
            (Scalar::Finite(x), Scalar::Finite(y)) => sat_exec(x as i128 + y as i128),
            _ => {
                if self.is_nan() || other.is_nan() {
                    Scalar::NaN
                } else if (self == Scalar::Inf && other == Scalar::NegInf)
                    || (self == Scalar::NegInf && other == Scalar::Inf) {
                    Scalar::NaN
                } else if self == Scalar::Inf || other == Scalar::Inf {
                    Scalar::Inf
                } else {
                    Scalar::NegInf
                }
            }
        }
    }

    pub fn minus(self, other: Scalar) -> (r: Scalar)
        ensures
            r == spec_minus(self, other),
    {
        self.plus(other.neg())
    }

    pub fn times(self, other: Scalar) -> (r: Scalar)
        ensures
            r == spec_times(self, other),
    {
        match (self, other) {
            (Scalar::Finite(x), Scalar::Finite(y)) => mul_fixed(x, y),
            _ => {
                if self.is_nan() || other.is_nan() {
                    Scalar::NaN
                } else if self == Scalar::Finite(0) || other == Scalar::Finite(0) {
                    Scalar::NaN
                } else if self.is_negative() == other.is_negative() {
                    Scalar::Inf
                } else {
                    Scalar::NegInf
                }
            }
        }
    }

    pub fn divided_by(self, other: Scalar) -> (r: Scalar)
        ensures
            r == spec_div(self, other),
    {
        match (self, other) {
            (Scalar::Finite(x), Scalar::Finite(y)) => {
                if y == 0 {
                    if x == 0 {
                        Scalar::NaN
                    } else if x < 0 {
                        Scalar::NegInf
                    } else {
                        Scalar::Inf
                    }
                } else {
                    div_fixed(x, y)
                }
            }
            _ => {
                if self.is_nan() || other.is_nan() {
                    Scalar::NaN
                } else if !self.is_finite() && !other.is_finite() {
                    Scalar::NaN
                } else if !self.is_finite() {
                    if self.is_negative() == other.is_negative() {
                        Scalar::Inf
                    } else {
                        Scalar::NegInf
                    }
                } else {
                    Scalar::Finite(0)
                }
            }
        }
    }
}

/// Clamp a wide intermediate into a `Scalar`.
fn sat_exec(v: i128) -> (r: Scalar)
    ensures
        r == sat(v as int),
{
    if v > MAX_UNITS as i128 {
        Scalar::Inf
    } else if v < -(MAX_UNITS as i128) {
        Scalar::NegInf
    } else {
        Scalar::Finite(v as i64)
    }
}

/// Magnitude of a unit count, widened so that `i64::MIN` is
/// representable.
fn abs_units(x: i64) -> (r: u128)
    ensures
        r == abs_i(x as int),
{
    if x < 0 {
        (-(x as i128)) as u128
    } else {
        x as u128
    }
}

/// Signed saturation of a computed magnitude.
fn signed_sat(neg: bool, q: u128) -> (r: Scalar)
    ensures
        (r == if neg { sat(-(q as int)) } else { sat(q as int) }),
{
    if q > MAX_UNITS as u128 {
        if neg { Scalar::NegInf } else { Scalar::Inf }
    } else if neg {
        Scalar::Finite(-(q as i64))
    } else {
        Scalar::Finite(q as i64)
    }
}

/// Fixed-point product of two finite values.
fn mul_fixed(x: i64, y: i64) -> (r: Scalar)
    ensures
        r == sat(mul_units(x as int, y as int)),
{
    let ax = abs_units(x);
    let ay = abs_units(y);
    proof {
        assert(ax * ay <= 0x8000_0000_0000_0000u128 * 0x8000_0000_0000_0000u128)
            by (nonlinear_arith)
            requires
                ax <= 0x8000_0000_0000_0000u128,
                ay <= 0x8000_0000_0000_0000u128,
        ;
    }
    let q: u128 = (ax * ay) / 1_000_000u128;
    signed_sat((x < 0) != (y < 0), q)
}

/// `r` is the integer square root of `n`: the greatest integer whose
/// square does not exceed `n`.
pub open spec fn is_isqrt(n: int, r: int) -> bool {
    0 <= r && r * r <= n && n < (r + 1) * (r + 1)
}

/// The integer square root of a non-negative integer, as a function;
/// `lemma_isqrt_exists` shows the chosen value satisfies `is_isqrt`.
pub open spec fn spec_isqrt(n: int) -> int {
    choose|r: int| is_isqrt(n, r)
}

/// An integer square root exists for every non-negative integer.
pub proof fn lemma_isqrt_exists(n: int)
    requires
        0 <= n,
    ensures
        is_isqrt(n, spec_isqrt(n)),
    decreases n,
{
    if n == 0 {
        assert(is_isqrt(0, 0));
    } else {
        lemma_isqrt_exists(n - 1);
        let r = spec_isqrt(n - 1);
        if (r + 1) * (r + 1) <= n {
            assert(is_isqrt(n, r + 1)) by (nonlinear_arith)
                requires
                    is_isqrt(n - 1, r),
                    (r + 1) * (r + 1) <= n,
            ;
        } else {
            assert(is_isqrt(n, r));
        }
    }
}

/// At most one integer satisfies the square-root characterisation.
pub proof fn lemma_isqrt_unique(n: int, r1: int, r2: int)
    by (nonlinear_arith)
    requires
        is_isqrt(n, r1),
        is_isqrt(n, r2),
    ensures
        r1 == r2,
{
}

/// The integer square root is monotone.
pub proof fn lemma_isqrt_le(q1: int, q2: int)
    requires
        0 <= q1 <= q2,
    ensures
        spec_isqrt(q1) <= spec_isqrt(q2),
{
    lemma_isqrt_exists(q1);
    lemma_isqrt_exists(q2);
    let r1 = spec_isqrt(q1);
    let r2 = spec_isqrt(q2);
    assert(r1 <= r2) by (nonlinear_arith)
        requires
            is_isqrt(q1, r1),
            is_isqrt(q2, r2),
            q1 <= q2,
    ;
}

/// Any non-negative value whose square is bounded by `q` is bounded by
/// the integer square root of `q`.
pub proof fn lemma_component_le_isqrt(a: int, q: int)
    requires
        0 <= a,
        a * a <= q,
    ensures
        a <= spec_isqrt(q),
{
    lemma_isqrt_exists(q);
    let r = spec_isqrt(q);
    assert(a <= r) by (nonlinear_arith)
        requires
            is_isqrt(q, r),
            0 <= a,
            a * a <= q,
    ;
}

/// Integer square root by bisection over the unit counts' squares.
fn isqrt_u128(n: u128) -> (r: u128)
    ensures
        is_isqrt(n as int, r as int),
        r as int == spec_isqrt(n as int),
{
    let mut lo: u128 = 0;
    let mut hi: u128 = 0x1_0000_0000_0000_0000;
    proof {
        assert(n < hi * hi) by (nonlinear_arith)
            requires
                hi == 0x1_0000_0000_0000_0000u128,
        ;
    }
    while lo + 1 < hi
        invariant
            lo < hi,
            hi <= 0x1_0000_0000_0000_0000,
            lo * lo <= n,
            n < hi * hi,
        decreases hi - lo,
    {
        let mid: u128 = lo + (hi - lo) / 2;
        proof {
            assert(mid * mid < 0x1_0000_0000_0000_0000u128 * 0x1_0000_0000_0000_0000u128)
                by (nonlinear_arith)
                requires
                    mid < 0x1_0000_0000_0000_0000u128,
            ;
        }
        if mid * mid <= n {
            lo = mid;
        } else {
            hi = mid;
        }
    }
    proof {
        lemma_isqrt_exists(n as int);
        lemma_isqrt_unique(n as int, lo as int, spec_isqrt(n as int));
    }
    lo
}

/// The stable hypotenuse of two values: infinite if either is
/// infinite, indeterminate if either of the rest is `NaN`, otherwise
/// the non-negative root of the sum of squares, saturating.
pub open spec fn spec_hypot(a: Scalar, b: Scalar) -> Scalar {
    if a is Inf || a is NegInf || b is Inf || b is NegInf {
        Scalar::Inf
    } else if a is NaN || b is NaN {
        Scalar::NaN
    } else {
        sat(spec_isqrt(units_of(a) * units_of(a) + units_of(b) * units_of(b)))
    }
}

impl Scalar {
    /// Length of the hypotenuse under two finite legs; robust in the
    /// sense that the squares are taken in a width that cannot
    /// overflow.
    pub fn hypot(self, other: Scalar) -> (r: Scalar)
        ensures
            r == spec_hypot(self, other),
    {
        match (self, other) {
            (Scalar::Finite(x), Scalar::Finite(y)) => {
                let ax = abs_units(x);
                let ay = abs_units(y);
                proof {
                    assert(ax * ax + ay * ay <= u128::MAX
                        && ax * ax == (x as int) * (x as int)
                        && ay * ay == (y as int) * (y as int))
                        by (nonlinear_arith)
                        requires
                            ax <= 0x8000_0000_0000_0000u128,
                            ay <= 0x8000_0000_0000_0000u128,
                            ax == abs_i(x as int),
                            ay == abs_i(y as int),
                    ;
                }
                let q: u128 = ax * ax + ay * ay;
                let u = isqrt_u128(q);
                proof {
                    lemma_isqrt_exists(q as int);
                }
                signed_sat(false, u)
            }
            _ => {
                if !self.is_nan() && !self.is_finite() {
                    Scalar::Inf
                } else if !other.is_nan() && !other.is_finite() {
                    Scalar::Inf
                } else {
                    Scalar::NaN
                }
            }
        }
    }
}

/// Fixed-point quotient of two finite values, `y` nonzero.
fn div_fixed(x: i64, y: i64) -> (r: Scalar)
    requires
        y != 0,
    ensures
        r == sat(div_units(x as int, y as int)),
{
    let ax = abs_units(x);
    let ay = abs_units(y);
    let q: u128 = (ax * 1_000_000u128) / ay;
    signed_sat((x < 0) != (y < 0), q)
}

} // verus!
