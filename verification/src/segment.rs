//! A finite straight current-carrying wire segment and its induced field.
//!
//! The segment starts at `start`, runs along `axis` for `length` units and
//! carries unit current.  `axis` is deliberately not normalized: its
//! magnitude enters the closed-form solution twice, once through the
//! projection `a = 2 (r0 . axis) / |axis|` and once through the cross
//! product, exactly as the formula is stated.  Construction rejects a
//! zero axis and a negative length; a query whose geometry is singular
//! (vanishing discriminant `4 b - a^2`, negative radicand) is reported as
//! `None`, the fixed-point analogue of an undefined IEEE result, and the
//! contracts state exactly when that happens.

use vstd::prelude::*;
use crate::scalar::Scalar;
use crate::scalar::in_range;
use crate::scalar::oval;
use crate::scalar::s_add;
use crate::scalar::s_div;
use crate::scalar::s_mul;
use crate::scalar::s_sqrt;
use crate::scalar::s_sub;
use crate::vector::Location;
use crate::vector::Vector;
use crate::vector::s_abs;

verus! {

/// Fixed-point value of `mu0 / (4 pi)` in SI units: `1e-7`, i.e. 100
/// billionths.
pub const MU0_OVER_4PI_UNITS: i64 = 100;

/// Construction error: the segment's axis is the zero vector or its length
/// is negative, so the field formula is undefined everywhere.
#[derive(Clone, Copy, Debug, PartialEq, Eq, Structural)]
pub struct DegenerateSegment;

/// A straight wire segment carrying unit current.
#[derive(Clone, Copy, Debug, PartialEq, Eq, Structural)]
pub struct CurrentSgmt {
    start: Location,
    axis: Vector,
    length: Scalar,
}

/// Checked dot product of two component triples, with the products rescaled
/// one by one and summed left to right.
pub open spec fn s_dot(u: (int, int, int), v: (int, int, int)) -> Option<int> {
    match s_mul(u.0, v.0) {
        None => None,
        Some(px) => match s_mul(u.1, v.1) {
            None => None,
            Some(py) => match s_mul(u.2, v.2) {
                None => None,
                Some(pz) => match s_add(px, py) {
                    None => None,
                    Some(s1) => s_add(s1, pz),
                },
            },
        },
    }
}

/// Exact value of the antiderivative `2 (2x - a) / ((4b - a^2) sqrt(x^2 - ax + b))`
/// in checked fixed-point arithmetic, evaluated exactly as written: `None`
/// when the radicand is negative, the denominator vanishes, or a step leaves
/// the representable range.
pub open spec fn s_intres(x: int, a: int, b: int) -> Option<int> {
    match s_add(x, x) {
        None => None,
        Some(dx) => match s_sub(dx, a) {
            None => None,
            Some(n1) => match s_add(n1, n1) {
                None => None,
                Some(num) => match s_add(b, b) {
                    None => None,
                    Some(b2) => match s_add(b2, b2) {
                        None => None,
                        Some(b4) => match s_mul(a, a) {
                            None => None,
                            Some(aa) => match s_sub(b4, aa) {
                                None => None,
                                Some(d1) => match s_sub(x, a) {
                                    None => None,
                                    Some(r1) => match s_mul(x, r1) {
                                        None => None,
                                        Some(r2) => match s_add(r2, b) {
                                            None => None,
                                            Some(rad) => match s_sqrt(rad) {
                                                None => None,
                                                Some(root) => match s_mul(d1, root) {
                                                    None => None,
                                                    Some(den) => s_div(num, den),
                                                },
                                            },
                                        },
                                    },
                                },
                            },
                        },
                    },
                },
            },
        },
    }
}

/// One component of the scaled cross product: `m * (p - q)` where `p` and
/// `q` are the two rescaled products of the component formula.
pub open spec fn s_cross_term(m: int, p: Option<int>, q: Option<int>) -> Option<int> {
    match p {
        None => None,
        Some(p) => match q {
            None => None,
            Some(q) => match s_sub(p, q) {
                None => None,
                Some(c) => s_mul(m, c),
            },
        },
    }
}

/// The scaled cross product `m * (axis x r0)`, component by component.
pub open spec fn s_scaled_cross(m: int, a: (int, int, int), r: (int, int, int)) -> Option<
    (int, int, int),
> {
    match s_cross_term(m, s_mul(a.1, r.2), s_mul(a.2, r.1)) {
        None => None,
        Some(cx) => match s_cross_term(m, s_mul(a.2, r.0), s_mul(a.0, r.2)) {
            None => None,
            Some(cy) => match s_cross_term(m, s_mul(a.0, r.1), s_mul(a.1, r.0)) {
                None => None,
                Some(cz) => Some((cx, cy, cz)),
            },
        },
    }
}

/// Exact value of the induced field of a segment at a query point, in
/// checked fixed-point arithmetic:
/// `r0` is the displacement from the segment start to the point,
/// `a = 2 (r0 . axis) / |axis|`, `b = |r0|^2`, the definite integral is
/// `intres(length, a, b) - intres(0, a, b)`, and the result is
/// `mu0/(4 pi)` times that integral times `axis x r0`.
#[verifier::opaque]
pub open spec fn s_induced(
    start: (int, int, int),
    axis: (int, int, int),
    len: int,
    p: (int, int, int),
) -> Option<(int, int, int)> {
    match s_sub(p.0, start.0) {
        None => None,
        Some(r0x) => match s_sub(p.1, start.1) {
            None => None,
            Some(r0y) => match s_sub(p.2, start.2) {
                None => None,
                Some(r0z) => {
                    let r0 = (r0x, r0y, r0z);
                    match s_abs(axis) {
                        None => None,
                        Some(n) => match s_dot(r0, axis) {
                            None => None,
                            Some(dot) => match s_add(dot, dot) {
                                None => None,
                                Some(dd) => match s_div(dd, n) {
                                    None => None,
                                    Some(a) => match s_dot(r0, r0) {
                                        None => None,
                                        Some(b) => match s_intres(len, a, b) {
                                            None => None,
                                            Some(i1) => match s_intres(0, a, b) {
                                                None => None,
                                                Some(i0) => match s_sub(i1, i0) {
                                                    None => None,
                                                    Some(dl) => match s_mul(
                                                        MU0_OVER_4PI_UNITS as int,
                                                        dl,
                                                    ) {
                                                        None => None,
                                                        Some(m) => s_scaled_cross(m, axis, r0),
                                                    },
                                                },
                                            },
                                        },
                                    },
                                },
                            },
                        },
                    }
                },
            },
        },
    }
}

/// A defined contribution is representable: every component of a `Some`
/// result of `s_induced` lies in range, since the last step of each
/// component is itself a checked product.
pub proof fn lemma_induced_in_range(
    start: (int, int, int),
    axis: (int, int, int),
    len: int,
    p: (int, int, int),
)
    ensures
        s_induced(start, axis, len, p) matches Some(c) ==> in_range(c.0) && in_range(c.1)
            && in_range(c.2),
{
    reveal(s_induced);
}

/// Reflecting the whole configuration through the origin — start point,
/// axis and query point all negated — leaves the induced field unchanged:
/// the displacement and the axis both flip sign, and signs cancel in the
/// projection, in the squared norm and in the cross product.  Two segments
/// that are point reflections of each other therefore contribute equal
/// fields at the centre of symmetry.
pub proof fn lemma_induced_point_reflection(
    start: (int, int, int),
    axis: (int, int, int),
    len: int,
    p: (int, int, int),
)
    ensures
        s_induced(
            (-start.0, -start.1, -start.2),
            (-axis.0, -axis.1, -axis.2),
            len,
            (-p.0, -p.1, -p.2),
        ) == s_induced(start, axis, len, p),
{
    reveal(s_induced);
    let d0 = p.0 - start.0;
    let d1 = p.1 - start.1;
    let d2 = p.2 - start.2;
    assert((-p.0) - (-start.0) == -d0 && (-p.1) - (-start.1) == -d1 && (-p.2) - (-start.2) == -d2);
    assert((-axis.0) * (-axis.0) == axis.0 * axis.0) by (nonlinear_arith);
    assert((-axis.1) * (-axis.1) == axis.1 * axis.1) by (nonlinear_arith);
    assert((-axis.2) * (-axis.2) == axis.2 * axis.2) by (nonlinear_arith);
    assert((-d0) * (-axis.0) == d0 * axis.0) by (nonlinear_arith);
    assert((-d1) * (-axis.1) == d1 * axis.1) by (nonlinear_arith);
    assert((-d2) * (-axis.2) == d2 * axis.2) by (nonlinear_arith);
    assert((-d0) * (-d0) == d0 * d0) by (nonlinear_arith);
    assert((-d1) * (-d1) == d1 * d1) by (nonlinear_arith);
    assert((-d2) * (-d2) == d2 * d2) by (nonlinear_arith);
    assert((-axis.1) * (-d2) == axis.1 * d2) by (nonlinear_arith);
    assert((-axis.2) * (-d1) == axis.2 * d1) by (nonlinear_arith);
    assert((-axis.2) * (-d0) == axis.2 * d0) by (nonlinear_arith);
    assert((-axis.0) * (-d2) == axis.0 * d2) by (nonlinear_arith);
    assert((-axis.0) * (-d1) == axis.0 * d1) by (nonlinear_arith);
    assert((-axis.1) * (-d0) == axis.1 * d0) by (nonlinear_arith);
}

/// Checked dot product over `Scalar` components.
fn dot(ux: Scalar, uy: Scalar, uz: Scalar, vx: Scalar, vy: Scalar, vz: Scalar) -> (r: Option<
    Scalar,
>)
    requires
        ux.wf(),
        uy.wf(),
        uz.wf(),
        vx.wf(),
        vy.wf(),
        vz.wf(),
    ensures
        oval(r) == s_dot((ux.val(), uy.val(), uz.val()), (vx.val(), vy.val(), vz.val())),
        r matches Some(v) ==> v.wf(),
{
    let px: Scalar = match ux.mul(vx) {
        Some(v) => v,
        None => {
            return None;
        },
    };
    let py: Scalar = match uy.mul(vy) {
        Some(v) => v,
        None => {
            return None;
        },
    };
    let pz: Scalar = match uz.mul(vz) {
        Some(v) => v,
        None => {
            return None;
        },
    };
    let s1: Scalar = match px.add(py) {
        Some(v) => v,
        None => {
            return None;
        },
    };
    s1.add(pz)
}

/// Evaluate the antiderivative at `x`, exactly as `s_intres` states it.
fn intres(x: Scalar, a: Scalar, b: Scalar) -> (r: Option<Scalar>)
    requires
        x.wf(),
        a.wf(),
        b.wf(),
    ensures
        oval(r) == s_intres(x.val(), a.val(), b.val()),
        r matches Some(v) ==> v.wf(),
{
    let dx: Scalar = match x.add(x) {
        Some(v) => v,
        None => {
            return None;
        },
    };
    let n1: Scalar = match dx.sub(a) {
        Some(v) => v,
        None => {
            return None;
        },
    };
    let num: Scalar = match n1.add(n1) {
        Some(v) => v,
        None => {
            return None;
        },
    };
    let b2: Scalar = match b.add(b) {
        Some(v) => v,
        None => {
            return None;
        },
    };
    let b4: Scalar = match b2.add(b2) {
        Some(v) => v,
        None => {
            return None;
        },
    };
    let aa: Scalar = match a.mul(a) {
        Some(v) => v,
        None => {
            return None;
        },
    };
    let d1: Scalar = match b4.sub(aa) {
        Some(v) => v,
        None => {
            return None;
        },
    };
    let r1: Scalar = match x.sub(a) {
        Some(v) => v,
        None => {
            return None;
        },
    };
    let r2: Scalar = match x.mul(r1) {
        Some(v) => v,
        None => {
            return None;
        },
    };
    let rad: Scalar = match r2.add(b) {
        Some(v) => v,
        None => {
            return None;
        },
    };
    let root: Scalar = match rad.sqrt() {
        Some(v) => v,
        None => {
            return None;
        },
    };
    let den: Scalar = match d1.mul(root) {
        Some(v) => v,
        None => {
            return None;
        },
    };
    num.div(den)
}

/// One scaled cross-product component `m * (p - q)`.
fn cross_term(m: Scalar, p: Option<Scalar>, q: Option<Scalar>) -> (r: Option<Scalar>)
    requires
        m.wf(),
        p matches Some(v) ==> v.wf(),
        q matches Some(v) ==> v.wf(),
    ensures
        oval(r) == s_cross_term(m.val(), oval(p), oval(q)),
        r matches Some(v) ==> v.wf(),
{
    let pv: Scalar = match p {
        Some(v) => v,
        None => {
            return None;
        },
    };
    let qv: Scalar = match q {
        Some(v) => v,
        None => {
            return None;
        },
    };
    let c: Scalar = match pv.sub(qv) {
        Some(v) => v,
        None => {
            return None;
        },
    };
    m.mul(c)
}

impl CurrentSgmt {
    /// Start point of the segment, as unit counts.
    pub closed spec fn s_start(self) -> (int, int, int) {
        self.start.val()
    }

    /// Axis of the segment, as unit counts.
    pub closed spec fn s_axis(self) -> (int, int, int) {
        self.axis.val()
    }

    /// Length of the segment, as a unit count.
    pub closed spec fn s_len(self) -> int {
        self.length.val()
    }

    /// Validity: components representable, axis nonzero, length nonnegative.
    pub open spec fn wf(self) -> bool {
        &&& in_range(self.s_start().0)
        &&& in_range(self.s_start().1)
        &&& in_range(self.s_start().2)
        &&& in_range(self.s_axis().0)
        &&& in_range(self.s_axis().1)
        &&& in_range(self.s_axis().2)
        &&& in_range(self.s_len())
        &&& self.s_axis() != (0int, 0int, 0int)
        &&& self.s_len() >= 0
    }

    /// Build a segment, rejecting degenerate geometry at construction: a
    /// zero axis or a negative length yields `DegenerateSegment`, anything
    /// else yields exactly the segment described.
    pub fn new(start: Location, axis: Vector, length: Scalar) -> (r: Result<
        CurrentSgmt,
        DegenerateSegment,
    >)
        requires
            start.wf(),
            axis.wf(),
            length.wf(),
        ensures
            r matches Err(_) <==> (axis.val() == (0int, 0int, 0int) || length.val() < 0),
            r matches Ok(s) ==> s.s_start() == start.val() && s.s_axis() == axis.val()
                && s.s_len() == length.val() && s.wf(),
    {
        if axis.x.units() == 0 && axis.y.units() == 0 && axis.z.units() == 0 {
            return Err(DegenerateSegment);
        }
        if length.units() < 0 {
            return Err(DegenerateSegment);
        }
        Ok(CurrentSgmt { start, axis, length })
    }

    /// Read the start point back.
    pub fn start(&self) -> (r: Location)
        ensures
            r.val() == self.s_start(),
    {
        self.start
    }

    /// Read the axis back.
    pub fn axis(&self) -> (r: Vector)
        ensures
            r.val() == self.s_axis(),
    {
        self.axis
    }

    /// Read the length back.
    pub fn length(&self) -> (r: Scalar)
        ensures
            r.val() == self.s_len(),
    {
        self.length
    }

    /// The magnetic field this segment induces at `pnt`, by the closed-form
    /// Biot-Savart solution for a finite straight segment, evaluated exactly
    /// as `s_induced` states it.  `None` reports a singular or out-of-range
    /// configuration; the evaluation itself is pure.
    pub fn induced_field(&self, pnt: &Location) -> (r: Option<Vector>)
        requires
            self.wf(),
            pnt.wf(),
        ensures
            crate::vector::ovval(r) == s_induced(self.s_start(), self.s_axis(), self.s_len(), pnt.val()),
            r matches Some(v) ==> v.wf(),
    {
        proof {
            reveal(s_induced);
        }
        let r0x: Scalar = match pnt.x.sub(self.start.x) {
            Some(v) => v,
            None => {
                return None;
            },
        };
        let r0y: Scalar = match pnt.y.sub(self.start.y) {
            Some(v) => v,
            None => {
                return None;
            },
        };
        let r0z: Scalar = match pnt.z.sub(self.start.z) {
            Some(v) => v,
            None => {
                return None;
            },
        };
        let n: Scalar = match self.axis.abs() {
            Some(v) => v,
            None => {
                return None;
            },
        };
        let dot_ra: Scalar = match dot(r0x, r0y, r0z, self.axis.x, self.axis.y, self.axis.z) {
            Some(v) => v,
            None => {
                return None;
            },
        };
        let dd: Scalar = match dot_ra.add(dot_ra) {
            Some(v) => v,
            None => {
                return None;
            },
        };
        let a: Scalar = match dd.div(n) {
            Some(v) => v,
            None => {
                return None;
            },
        };
        let b: Scalar = match dot(r0x, r0y, r0z, r0x, r0y, r0z) {
            Some(v) => v,
            None => {
                return None;
            },
        };
        let i1: Scalar = match intres(self.length, a, b) {
            Some(v) => v,
            None => {
                return None;
            },
        };
        let i0: Scalar = match intres(Scalar::zero(), a, b) {
            Some(v) => v,
            None => {
                return None;
            },
        };
        let dl: Scalar = match i1.sub(i0) {
            Some(v) => v,
            None => {
                return None;
            },
        };
        let m: Scalar = match Scalar::from_units(MU0_OVER_4PI_UNITS).mul(dl) {
            Some(v) => v,
            None => {
                return None;
            },
        };
        let cx: Scalar = match cross_term(m, self.axis.y.mul(r0z), self.axis.z.mul(r0y)) {
            Some(v) => v,
            None => {
                return None;
            },
        };
        let cy: Scalar = match cross_term(m, self.axis.z.mul(r0x), self.axis.x.mul(r0z)) {
            Some(v) => v,
            None => {
                return None;
            },
        };
        let cz: Scalar = match cross_term(m, self.axis.x.mul(r0y), self.axis.y.mul(r0x)) {
            Some(v) => v,
            None => {
                return None;
            },
        };
        Some(Vector { x: cx, y: cy, z: cz })
    }
}

} // verus!
