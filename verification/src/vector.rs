//! Free vectors and positions in three-dimensional space.
//!
//! `Vector` is a directed quantity (a segment axis, a field value, a
//! displacement); `Location` is a point in space.  The two are structurally
//! identical but kept apart so that a position is never summed like a field
//! value.  Component arithmetic is the checked fixed-point arithmetic of
//! `scalar`, and the commutativity and associativity of vector addition are
//! proved below over the exact component model.

use vstd::prelude::*;
use crate::scalar::BOUND;
use crate::scalar::Scalar;
use crate::scalar::chk;
use crate::scalar::in_range;
use crate::scalar::lemma_mul_bounds;
use crate::scalar::lemma_sqrt_unique;
use crate::scalar::mag;
use crate::scalar::s_mul;
use crate::scalar::sqrt_i;
use crate::scalar::isqrt_u128;
use crate::scalar::SCALE;
use crate::trig::s_cos;
use crate::trig::s_sin;
use vstd::arithmetic::div_mod::lemma_div_multiples_vanish;

verus! {

/// A directed three-component quantity.
#[derive(Clone, Copy, Debug, PartialEq, Eq, Structural)]
pub struct Vector {
    pub x: Scalar,
    pub y: Scalar,
    pub z: Scalar,
}

/// A point in space.
#[derive(Clone, Copy, Debug, PartialEq, Eq, Structural)]
pub struct Location {
    pub x: Scalar,
    pub y: Scalar,
    pub z: Scalar,
}

/// Component-wise sum of two component triples: the mathematical vector
/// addition, total and exact.
pub open spec fn vadd(a: (int, int, int), b: (int, int, int)) -> (int, int, int) {
    (a.0 + b.0, a.1 + b.1, a.2 + b.2)
}

/// Checked vector addition: the component-wise sum when every component
/// stays representable, nothing otherwise.
pub open spec fn s_vadd(a: (int, int, int), b: (int, int, int)) -> Option<(int, int, int)> {
    if in_range(a.0 + b.0) && in_range(a.1 + b.1) && in_range(a.2 + b.2) {
        Some(vadd(a, b))
    } else {
        None
    }
}

/// Exact value of the Euclidean norm in the fixed-point model: the integer
/// square root of the sum of squared unit counts.
pub open spec fn s_abs(v: (int, int, int)) -> Option<int> {
    chk(sqrt_i(v.0 * v.0 + v.1 * v.1 + v.2 * v.2))
}

/// Exact value of the polar constructor: `x = a cos(theta) cos(phi)`,
/// `y = a cos(theta) sin(phi)`, `z = a sin(theta)`, with the fixed-point
/// cosine, sine and product, associated from the left.
pub open spec fn s_from_polar(a: int, phi: int, theta: int) -> Option<(int, int, int)> {
    match s_mul(a, s_cos(theta)) {
        None => None,
        Some(m) => match s_mul(m, s_cos(phi)) {
            None => None,
            Some(x) => match s_mul(m, s_sin(phi)) {
                None => None,
                Some(y) => match s_mul(a, s_sin(theta)) {
                    None => None,
                    Some(z) => Some((x, y, z)),
                },
            },
        },
    }
}

/// Component triple of an optional vector.
pub open spec fn ovval(o: Option<Vector>) -> Option<(int, int, int)> {
    match o {
        Some(v) => Some(v.val()),
        None => None,
    }
}

/// Vector addition is commutative: the exact component sums agree in either
/// order, for arbitrary component triples.
pub proof fn lemma_vadd_commutative(a: (int, int, int), b: (int, int, int))
    ensures
        vadd(a, b) == vadd(b, a),
{
}

/// Vector addition is associative: grouping does not change the exact
/// component sums, for arbitrary component triples.
pub proof fn lemma_vadd_associative(a: (int, int, int), b: (int, int, int), c: (int, int, int))
    ensures
        vadd(vadd(a, b), c) == vadd(a, vadd(b, c)),
{
}

/// The checked addition is commutative as well: representability of the sum
/// does not depend on the order of the operands.
pub proof fn lemma_s_vadd_commutative(a: (int, int, int), b: (int, int, int))
    ensures
        s_vadd(a, b) == s_vadd(b, a),
{
}

/// The checked addition, where defined, is exactly the mathematical
/// component-wise sum.  `add` and `accumulate` are both specified against
/// `s_vadd`, so one application of `accumulate` stores exactly what `add`
/// returns.
pub proof fn lemma_s_vadd_exact(a: (int, int, int), b: (int, int, int))
    ensures
        s_vadd(a, b) matches Some(v) ==> v == vadd(a, b),
{
}

/// Squares are nonnegative.
proof fn lemma_square_nonneg(a: int)
    ensures
        0 <= a * a,
{
    assert(0 <= a * a) by (nonlinear_arith);
}

/// Rescaling a product with the scale itself is exact: `(a * SCALE) / SCALE`
/// truncates nothing.
proof fn lemma_mul_scale_exact(a: int)
    ensures
        s_mul(a, SCALE as int) == chk(a),
{
    let s = SCALE as int;
    if a >= 0 {
        assert(0 <= a * s) by (nonlinear_arith)
            requires
                0 <= a,
                0 < s,
        ;
        lemma_div_multiples_vanish(a, s);
        assert(s * a == a * s);
    } else {
        assert(a * s < 0 && -(a * s) == (-a) * s) by (nonlinear_arith)
            requires
                a < 0,
                0 < s,
        ;
        lemma_div_multiples_vanish(-a, s);
        assert(s * (-a) == (-a) * s);
    }
}

/// The integer square root of a perfect square is the magnitude of its
/// root.
proof fn lemma_sqrt_of_square(a: int)
    ensures
        sqrt_i(a * a) == mag(a),
{
    assert(mag(a) * mag(a) == a * a && a * a < (mag(a) + 1) * (mag(a) + 1)) by (nonlinear_arith);
    lemma_sqrt_unique(a * a, mag(a));
}

/// The polar constructor is exact along the X axis: a zero azimuth and a
/// zero elevation give exactly `(a, 0, 0)`, and the norm of that vector is
/// exactly the magnitude of the amplitude.  For general angles the truncated
/// polynomials make closeness of the norm to `|a|` a numeric fact, exercised
/// by the tests rather than claimed by the model.
pub proof fn lemma_polar_axis_norm(a: int)
    requires
        in_range(a),
    ensures
        s_from_polar(a, 0, 0) == Some((a, 0int, 0int)),
        s_abs((a, 0int, 0int)) == Some(mag(a)),
{
    assert(s_cos(0) == SCALE as int);
    assert(s_sin(0) == 0);
    lemma_mul_scale_exact(a);
    assert(a * 0 == 0) by (nonlinear_arith);
    assert(s_mul(a, 0) == Some(0int));
    lemma_sqrt_of_square(a);
    assert(a * a + 0 * 0 + 0 * 0 == a * a);
}

impl Vector {
    /// The component triple as mathematical integers (unit counts).
    pub open spec fn val(self) -> (int, int, int) {
        (self.x.val(), self.y.val(), self.z.val())
    }

    /// All three components lie in the representable range.
    pub open spec fn wf(self) -> bool {
        self.x.wf() && self.y.wf() && self.z.wf()
    }

    /// Direct Cartesian construction; no validation.
    pub fn new(x: Scalar, y: Scalar, z: Scalar) -> (r: Vector)
        ensures
            r.val() == (x.val(), y.val(), z.val()),
    {
        Vector { x, y, z }
    }

    /// The zero vector.
    pub fn zero() -> (r: Vector)
        ensures
            r.val() == (0int, 0int, 0int),
            r.wf(),
    {
        Vector { x: Scalar::zero(), y: Scalar::zero(), z: Scalar::zero() }
    }

    /// Build a vector from an amplitude, an azimuth `phi` in the X-Y plane
    /// measured from the X axis, and an elevation `theta` measured from the
    /// X-Y plane toward the Z axis.  `None` when a component leaves the
    /// representable range.
    pub fn from_polar(amplitude: Scalar, phi: Scalar, theta: Scalar) -> (r: Option<Vector>)
        requires
            amplitude.wf(),
            phi.wf(),
            theta.wf(),
        ensures
            ovval(r) == s_from_polar(amplitude.val(), phi.val(), theta.val()),
            r matches Some(v) ==> v.wf(),
    {
        let m: Scalar = match amplitude.mul(theta.cos()) {
            Some(m) => m,
            None => {
                return None;
            },
        };
        let x: Scalar = match m.mul(phi.cos()) {
            Some(x) => x,
            None => {
                return None;
            },
        };
        let y: Scalar = match m.mul(phi.sin()) {
            Some(y) => y,
            None => {
                return None;
            },
        };
        let z: Scalar = match amplitude.mul(theta.sin()) {
            Some(z) => z,
            None => {
                return None;
            },
        };
        Some(Vector { x, y, z })
    }

    /// Euclidean norm `sqrt(x^2 + y^2 + z^2)` in the fixed-point model;
    /// `None` when it leaves the representable range.
    pub fn abs(&self) -> (r: Option<Scalar>)
        requires
            self.wf(),
        ensures
            match r {
                Some(s) => s_abs(self.val()) == Some(s.val()) && s.wf(),
                None => s_abs(self.val()) == None::<int>,
            },
    {
        proof {
            lemma_mul_bounds(self.x.val(), self.x.val(), BOUND as int, BOUND as int);
            lemma_mul_bounds(self.y.val(), self.y.val(), BOUND as int, BOUND as int);
            lemma_mul_bounds(self.z.val(), self.z.val(), BOUND as int, BOUND as int);
            lemma_square_nonneg(self.x.val());
            lemma_square_nonneg(self.y.val());
            lemma_square_nonneg(self.z.val());
        }
        let xu: i128 = self.x.units() as i128;
        let yu: i128 = self.y.units() as i128;
        let zu: i128 = self.z.units() as i128;
        let s: i128 = xu * xu + yu * yu + zu * zu;
        let q: u128 = isqrt_u128(s as u128);
        proof {
            lemma_sqrt_unique(s as int, q as int);
        }
        if q > BOUND as u128 {
            None
        } else {
            Some(Scalar::from_units(q as i64))
        }
    }

    /// Component-wise sum, producing a new vector; `None` when a component
    /// sum leaves the representable range.
    pub fn add(self, other: Vector) -> (r: Option<Vector>)
        requires
            self.wf(),
            other.wf(),
        ensures
            ovval(r) == s_vadd(self.val(), other.val()),
            r matches Some(v) ==> v.wf(),
    {
        let x: Option<Scalar> = self.x.add(other.x);
        let y: Option<Scalar> = self.y.add(other.y);
        let z: Option<Scalar> = self.z.add(other.z);
        match (x, y, z) {
            (Some(x), Some(y), Some(z)) => Some(Vector { x, y, z }),
            _ => None,
        }
    }

    /// In-place component-wise addition: when the sum is representable it
    /// stores exactly what `add` returns and reports `true`; otherwise it
    /// leaves the target untouched and reports `false`.
    pub fn accumulate(&mut self, other: Vector) -> (r: bool)
        requires
            old(self).wf(),
            other.wf(),
        ensures
            r == (s_vadd(old(self).val(), other.val()) matches Some(_)),
            r ==> final(self).val() == vadd(old(self).val(), other.val()) && final(self).wf(),
            !r ==> *final(self) == *old(self),
    {
        match self.add(other) {
            Some(v) => {
                *self = v;
                true
            },
            None => false,
        }
    }
}

impl Location {
    /// The component triple as mathematical integers (unit counts).
    pub open spec fn val(self) -> (int, int, int) {
        (self.x.val(), self.y.val(), self.z.val())
    }

    /// All three components lie in the representable range.
    pub open spec fn wf(self) -> bool {
        self.x.wf() && self.y.wf() && self.z.wf()
    }

    /// Direct construction of a point.
    pub fn new(x: Scalar, y: Scalar, z: Scalar) -> (r: Location)
        ensures
            r.val() == (x.val(), y.val(), z.val()),
    {
        Location { x, y, z }
    }
}

} // verus!
