//! Fixed-point real arithmetic.
//!
//! A `Scalar` stores a real quantity as a signed count of billionths
//! (`units / SCALE`).  Every operation is checked: a result whose magnitude
//! would leave the representable range comes back as `None` instead of
//! wrapping or saturating, and division by zero and square roots of negative
//! numbers are reported the same way.  The spec functions `s_add`, `s_sub`,
//! `s_mul`, `s_div` and `s_sqrt` state the exact value of each operation:
//! products and quotients truncate toward zero, and the square root is the
//! integer square root of the scaled operand.

use vstd::prelude::*;

verus! {

/// Number of fixed-point units in one whole unit: a `Scalar` carries nine
/// fractional decimal digits.
pub const SCALE: i64 = 1_000_000_000;

/// Largest magnitude, in units, that a `Scalar` may hold (one billion whole
/// units).  The symmetric bound keeps every intermediate product of two
/// in-range operands inside `i128`.
pub const BOUND: i64 = 1_000_000_000_000_000_000;

/// A real quantity in fixed-point form.
#[derive(Clone, Copy, Debug, PartialEq, Eq, Structural)]
pub struct Scalar {
    units: i64,
}

/// Magnitude of an integer.
pub open spec fn mag(x: int) -> int {
    if x < 0 {
        -x
    } else {
        x
    }
}

/// Whether a unit count lies in the representable range.
pub open spec fn in_range(x: int) -> bool {
    -(BOUND as int) <= x <= BOUND as int
}

/// Range check applied to the mathematical result of every operation.
pub open spec fn chk(x: int) -> Option<int> {
    if in_range(x) {
        Some(x)
    } else {
        None
    }
}

/// Division truncating toward zero, as the hardware performs it.
pub open spec fn tdiv(a: int, b: int) -> int {
    if (a < 0) != (b < 0) {
        -(mag(a) / mag(b))
    } else {
        mag(a) / mag(b)
    }
}

/// Exact value of checked fixed-point addition.
pub open spec fn s_add(a: int, b: int) -> Option<int> {
    chk(a + b)
}

/// Exact value of checked fixed-point subtraction.
pub open spec fn s_sub(a: int, b: int) -> Option<int> {
    chk(a - b)
}

/// Exact value of checked fixed-point multiplication: the product of the
/// unit counts, rescaled with truncation toward zero.
pub open spec fn s_mul(a: int, b: int) -> Option<int> {
    chk(tdiv(a * b, SCALE as int))
}

/// Exact value of checked fixed-point division.
pub open spec fn s_div(a: int, b: int) -> Option<int> {
    if b == 0 {
        None
    } else {
        chk(tdiv(a * (SCALE as int), b))
    }
}

/// `r` is the integer square root of `n`.
pub open spec fn is_sqrt(n: int, r: int) -> bool {
    &&& 0 <= r
    &&& r * r <= n
    &&& n < (r + 1) * (r + 1)
}

/// The integer square root (floor of the real square root) of `n`.
pub open spec fn sqrt_i(n: int) -> int {
    choose|r: int| is_sqrt(n, r)
}

/// Exact value of the checked fixed-point square root.
pub open spec fn s_sqrt(a: int) -> Option<int> {
    if a < 0 {
        None
    } else {
        chk(sqrt_i(a * (SCALE as int)))
    }
}

/// Unit count of an optional scalar, for stating contracts of checked
/// operations.
pub open spec fn oval(o: Option<Scalar>) -> Option<int> {
    match o {
        Some(s) => Some(s.val()),
        None => None,
    }
}

/// Bounded factors have a bounded product.
pub proof fn lemma_mul_bounds(a: int, b: int, am: int, bm: int)
    requires
        -am <= a <= am,
        -bm <= b <= bm,
        0 <= am,
        0 <= bm,
    ensures
        -(am * bm) <= a * b <= am * bm,
{
    assert(-(am * bm) <= a * b <= am * bm) by (nonlinear_arith)
        requires
            -am <= a <= am,
            -bm <= b <= bm,
            0 <= am,
            0 <= bm,
    ;
}

/// The integer square root is unique, so any witness equals `sqrt_i`.
pub proof fn lemma_sqrt_unique(n: int, r: int)
    requires
        is_sqrt(n, r),
    ensures
        sqrt_i(n) == r,
{
    assert(exists|x: int| is_sqrt(n, x)) by {
        assert(is_sqrt(n, r));
    }
    let s = sqrt_i(n);
    assert(is_sqrt(n, s));
    assert(s == r) by (nonlinear_arith)
        requires
            0 <= r,
            r * r <= n,
            n < (r + 1) * (r + 1),
            0 <= s,
            s * s <= n,
            n < (s + 1) * (s + 1),
    ;
}

/// An integer square root of a number below `k * k` stays below `k`.
pub proof fn lemma_sqrt_bound(n: int, r: int, k: int)
    requires
        is_sqrt(n, r),
        0 <= k,
        n < k * k,
    ensures
        r < k,
{
    assert(r < k) by (nonlinear_arith)
        requires
            0 <= r,
            r * r <= n,
            0 <= k,
            n < k * k,
    ;
}

impl Scalar {
    /// The unit count as a mathematical integer.
    pub closed spec fn val(self) -> int {
        self.units as int
    }

    /// The unit count lies in the representable range.
    pub open spec fn wf(self) -> bool {
        in_range(self.val())
    }

    /// Build a scalar from a raw unit count (billionths of a whole unit).
    pub fn from_units(units: i64) -> (r: Scalar)
        requires
            in_range(units as int),
        ensures
            r.val() == units as int,
            r.wf(),
    {
        Scalar { units }
    }

    /// Read the raw unit count back.
    pub fn units(&self) -> (r: i64)
        ensures
            r as int == self.val(),
    {
        self.units
    }

    /// The zero quantity.
    pub fn zero() -> (r: Scalar)
        ensures
            r.val() == 0,
            r.wf(),
    {
        Scalar { units: 0 }
    }

    /// Checked fixed-point addition.
    pub fn add(self, other: Scalar) -> (r: Option<Scalar>)
        requires
            self.wf(),
            other.wf(),
        ensures
            oval(r) == s_add(self.val(), other.val()),
            r matches Some(v) ==> v.wf(),
    {
        let s: i128 = self.units as i128 + other.units as i128;
        if -(BOUND as i128) <= s && s <= BOUND as i128 {
            Some(Scalar { units: s as i64 })
        } else {
            None
        }
    }

    /// Checked fixed-point subtraction.
    pub fn sub(self, other: Scalar) -> (r: Option<Scalar>)
        requires
            self.wf(),
            other.wf(),
        ensures
            oval(r) == s_sub(self.val(), other.val()),
            r matches Some(v) ==> v.wf(),
    {
        let s: i128 = self.units as i128 - other.units as i128;
        if -(BOUND as i128) <= s && s <= BOUND as i128 {
            Some(Scalar { units: s as i64 })
        } else {
            None
        }
    }

    /// Checked fixed-point multiplication, truncating toward zero.
    pub fn mul(self, other: Scalar) -> (r: Option<Scalar>)
        requires
            self.wf(),
            other.wf(),
        ensures
            oval(r) == s_mul(self.val(), other.val()),
            r matches Some(v) ==> v.wf(),
    {
        let a: i128 = self.units as i128;
        let b: i128 = other.units as i128;
        proof {
            lemma_mul_bounds(a as int, b as int, BOUND as int, BOUND as int);
        }
        let p: i128 = a * b;
        let neg: bool = p < 0;
        let m: u128 = if p < 0 {
            (-p) as u128
        } else {
            p as u128
        };
        let q: u128 = m / (SCALE as u128);
        if q > BOUND as u128 {
            assert(mag(tdiv(a as int * b as int, SCALE as int)) > BOUND as int);
            None
        } else {
            let qi: i64 = q as i64;
            let units: i64 = if neg {
                -qi
            } else {
                qi
            };
            assert(units as int == tdiv(a as int * b as int, SCALE as int));
            Some(Scalar { units })
        }
    }

    /// Checked fixed-point division, truncating toward zero; `None` for a
    /// zero divisor or an out-of-range quotient.
    pub fn div(self, other: Scalar) -> (r: Option<Scalar>)
        requires
            self.wf(),
            other.wf(),
        ensures
            oval(r) == s_div(self.val(), other.val()),
            r matches Some(v) ==> v.wf(),
    {
        if other.units == 0 {
            return None;
        }
        proof {
            lemma_mul_bounds(self.units as int, SCALE as int, BOUND as int, SCALE as int);
        }
        let a: i128 = self.units as i128 * SCALE as i128;
        let neg: bool = (a < 0) != (other.units < 0);
        let m: u128 = if a < 0 {
            (-a) as u128
        } else {
            a as u128
        };
        let d: u128 = if other.units < 0 {
            (-(other.units as i128)) as u128
        } else {
            other.units as u128
        };
        let q: u128 = m / d;
        if q > BOUND as u128 {
            assert(mag(tdiv(self.val() * SCALE as int, other.val())) > BOUND as int);
            None
        } else {
            let qi: i64 = q as i64;
            let units: i64 = if neg {
                -qi
            } else {
                qi
            };
            assert(units as int == tdiv(self.val() * SCALE as int, other.val()));
            Some(Scalar { units })
        }
    }

    /// Checked fixed-point square root: the integer square root of the
    /// rescaled unit count; `None` for a negative operand.
    pub fn sqrt(self) -> (r: Option<Scalar>)
        requires
            self.wf(),
        ensures
            oval(r) == s_sqrt(self.val()),
            r matches Some(v) ==> v.wf(),
    {
        if self.units < 0 {
            return None;
        }
        proof {
            lemma_mul_bounds(self.units as int, SCALE as int, BOUND as int, SCALE as int);
        }
        let m: u128 = self.units as u128 * SCALE as u128;
        let q: u128 = isqrt_u128(m);
        proof {
            lemma_sqrt_unique(m as int, q as int);
            lemma_sqrt_bound(m as int, q as int, BOUND as int);
        }
        Some(Scalar { units: q as i64 })
    }
}

/// Integer square root by bisection.
pub fn isqrt_u128(n: u128) -> (r: u128)
    ensures
        is_sqrt(n as int, r as int),
{
    let mut lo: u128 = 0;
    let mut hi: u128 = 0xFFFF_FFFF_FFFF_FFFF;
    proof {
        assert((hi as int + 1) * (hi as int + 1) > n as int) by (nonlinear_arith)
            requires
                hi == 0xFFFF_FFFF_FFFF_FFFFu128,
                n <= u128::MAX,
        ;
    }
    while lo < hi
        invariant
            lo <= hi,
            hi <= 0xFFFF_FFFF_FFFF_FFFF,
            (lo as int) * (lo as int) <= n as int,
            (n as int) < (hi as int + 1) * (hi as int + 1),
        decreases hi - lo,
    {
        let mid: u128 = lo + (hi - lo + 1) / 2;
        proof {
            assert((mid as int) * (mid as int) <= u128::MAX as int) by (nonlinear_arith)
                requires
                    mid <= 0xFFFF_FFFF_FFFF_FFFFu128,
            ;
        }
        if mid * mid <= n {
            lo = mid;
        } else {
            proof {
                lemma_sqrt_step(n as int, mid as int);
            }
            hi = mid - 1;
        }
    }
    lo
}

/// If `mid * mid` exceeds `n`, every root of `n` lies below `mid`.
proof fn lemma_sqrt_step(n: int, mid: int)
    requires
        0 <= mid,
        n < mid * mid,
    ensures
        n < (mid - 1 + 1) * (mid - 1 + 1),
{
}

} // verus!
