//! Fixed-point cosine and sine for the polar vector constructor.
//!
//! The argument is reduced modulo one turn, folded into the first octant by
//! the usual symmetries, and evaluated there with truncated Taylor
//! polynomials.  The spec functions `s_cos` and `s_sin` state the exact
//! integer value of each step, so the contracts pin the results down to the
//! unit; how close those polynomials come to the real cosine and sine is a
//! numeric fact exercised by the tests, not a claim of the contracts.

use vstd::prelude::*;
use crate::scalar::SCALE;
use crate::scalar::Scalar;
use crate::scalar::in_range;
use crate::scalar::lemma_mul_bounds;
use crate::scalar::mag;
use vstd::arithmetic::div_mod::lemma_div_is_ordered;
use vstd::arithmetic::div_mod::lemma_div_pos_is_pos;

verus! {

/// One half turn, in fixed-point units.
pub const PI_UNITS: i64 = 3_141_592_654;

/// One full turn: exactly `2 * PI_UNITS`, so the folding identities below
/// hold without a rounding correction.
pub const TWO_PI_UNITS: i64 = 6_283_185_308;

/// A quarter turn: exactly `PI_UNITS / 2`.
pub const HALF_PI_UNITS: i64 = 1_570_796_327;

/// An eighth of a turn, the threshold between the two Taylor kernels.
pub const QUARTER_PI_UNITS: i64 = 785_398_163;

/// Magnitude bound that every trigonometric result respects; it is loose,
/// far below `BOUND`, and only serves well-formedness of downstream
/// arithmetic.
pub const TRIG_BOUND: i64 = 20_000_000_000;

/// The angle folded into `[0, TWO_PI_UNITS)`, congruent to `x` modulo one
/// turn.
pub open spec fn reduce_angle(x: int) -> int {
    let m = mag(x) % (TWO_PI_UNITS as int);
    if x < 0 && m != 0 {
        TWO_PI_UNITS as int - m
    } else {
        m
    }
}

/// Truncated Taylor polynomial of the cosine on the first octant.
pub open spec fn cos_poly(t: int) -> int {
    let t2 = (t * t) / (SCALE as int);
    let t4 = (t2 * t2) / (SCALE as int);
    let t6 = (t4 * t2) / (SCALE as int);
    let t8 = (t4 * t4) / (SCALE as int);
    SCALE as int - t2 / 2 + t4 / 24 - t6 / 720 + t8 / 40320
}

/// Truncated Taylor polynomial of the sine on the first octant.
pub open spec fn sin_poly(t: int) -> int {
    let t2 = (t * t) / (SCALE as int);
    let t3 = (t2 * t) / (SCALE as int);
    let t5 = (t3 * t2) / (SCALE as int);
    let t7 = (t5 * t2) / (SCALE as int);
    t - t3 / 6 + t5 / 120 - t7 / 5040
}

/// Cosine on the first quadrant: past the octant boundary it is the sine of
/// the complementary angle.
pub open spec fn cos_quadrant(t: int) -> int {
    if t > QUARTER_PI_UNITS as int {
        sin_poly(HALF_PI_UNITS as int - t)
    } else {
        cos_poly(t)
    }
}

/// Sine on the first quadrant.
pub open spec fn sin_quadrant(t: int) -> int {
    if t > QUARTER_PI_UNITS as int {
        cos_poly(HALF_PI_UNITS as int - t)
    } else {
        sin_poly(t)
    }
}

/// Exact value of the fixed-point cosine for any angle.
pub open spec fn s_cos(x: int) -> int {
    let r = reduce_angle(x);
    let r1 = if r > PI_UNITS as int {
        TWO_PI_UNITS as int - r
    } else {
        r
    };
    if r1 > HALF_PI_UNITS as int {
        -cos_quadrant(PI_UNITS as int - r1)
    } else {
        cos_quadrant(r1)
    }
}

/// Exact value of the fixed-point sine for any angle.
pub open spec fn s_sin(x: int) -> int {
    let r = reduce_angle(x);
    if r > PI_UNITS as int {
        -sin_half_turn(r - PI_UNITS as int)
    } else {
        sin_half_turn(r)
    }
}

/// Sine on the first half turn.
pub open spec fn sin_half_turn(r: int) -> int {
    if r > HALF_PI_UNITS as int {
        sin_quadrant(PI_UNITS as int - r)
    } else {
        sin_quadrant(r)
    }
}

/// The folded angle is the Euclidean remainder of the angle by one turn:
/// `reduce_angle` computes `x` modulo `TWO_PI_UNITS`.
pub proof fn lemma_reduce_angle_is_mod(x: int)
    ensures
        reduce_angle(x) == x % (TWO_PI_UNITS as int),
{
    let m = TWO_PI_UNITS as int;
    if x < 0 {
        let q = (-x) / m;
        let k = (-x) % m;
        vstd::arithmetic::div_mod::lemma_fundamental_div_mod(-x, m);
        assert(x == m * (-q) + (-k));
        vstd::arithmetic::div_mod::lemma_mod_multiples_vanish(-q, -k, m);
        assert(x % m == (-k) % m);
        if k != 0 {
            vstd::arithmetic::div_mod::lemma_mod_add_multiples_vanish(-k, m);
            assert((m - k) % m == (-k) % m);
            vstd::arithmetic::div_mod::lemma_small_mod((m - k) as nat, m as nat);
        } else {
            vstd::arithmetic::div_mod::lemma_small_mod(0nat, m as nat);
        }
    }
}

/// Negating an angle reflects its folded form across the turn boundary.
pub proof fn lemma_reduce_neg(x: int)
    ensures
        reduce_angle(-x) == if reduce_angle(x) == 0 {
            0int
        } else {
            TWO_PI_UNITS as int - reduce_angle(x)
        },
{
    assert(mag(-x) == mag(x));
}

/// The cosine is even: `cos(-x) == cos(x)` exactly, for every angle.
pub proof fn lemma_cos_even(x: int)
    ensures
        s_cos(-x) == s_cos(x),
{
    lemma_reduce_neg(x);
}

/// The truncated sine polynomial vanishes at zero.
proof fn lemma_sin_poly_zero()
    ensures
        sin_poly(0) == 0,
{
    vstd::arithmetic::div_mod::lemma_div_of0(SCALE as int);
    vstd::arithmetic::div_mod::lemma_div_of0(6);
    vstd::arithmetic::div_mod::lemma_div_of0(120);
    vstd::arithmetic::div_mod::lemma_div_of0(5040);
}

/// On the first half turn the sine is symmetric about the quarter turn.
proof fn lemma_sin_half_reflect(t: int)
    requires
        0 <= t <= PI_UNITS as int,
    ensures
        sin_half_turn(PI_UNITS as int - t) == sin_half_turn(t),
{
}

/// The sine is odd: `sin(-x) == -sin(x)` exactly, for every angle.
pub proof fn lemma_sin_odd(x: int)
    ensures
        s_sin(-x) == -s_sin(x),
{
    lemma_reduce_neg(x);
    lemma_sin_poly_zero();
    let h = PI_UNITS as int;
    let r = reduce_angle(x);
    if r == 0 {
    } else if r < h {
        lemma_sin_half_reflect(r);
    } else if r == h {
        lemma_sin_half_reflect(h);
    } else {
        lemma_sin_half_reflect(r - h);
    }
}

/// Cosine and sine are periodic with one turn: shifting the angle by
/// `TWO_PI_UNITS` changes nothing.
pub proof fn lemma_trig_periodic(x: int)
    ensures
        s_cos(x + TWO_PI_UNITS as int) == s_cos(x),
        s_sin(x + TWO_PI_UNITS as int) == s_sin(x),
{
    let m = TWO_PI_UNITS as int;
    lemma_reduce_angle_is_mod(x);
    lemma_reduce_angle_is_mod(x + m);
    vstd::arithmetic::div_mod::lemma_mod_add_multiples_vanish(x, m);
}

/// Rescaling product of two small nonnegative fixed-point values.
fn mul_rescale(a: u64, b: u64) -> (r: u64)
    requires
        a <= 1_000_000_000,
        b <= 1_000_000_000,
    ensures
        r as int == (a as int * b as int) / (SCALE as int),
        r <= 1_000_000_000,
{
    proof {
        lemma_mul_bounds(a as int, b as int, 1_000_000_000, 1_000_000_000);
    }
    let p: u128 = a as u128 * b as u128;
    let q: u128 = p / (SCALE as u128);
    proof {
        lemma_div_is_ordered(p as int, 1_000_000_000_000_000_000, SCALE as int);
        lemma_div_pos_is_pos(p as int, SCALE as int);
    }
    q as u64
}

/// Evaluate `cos_poly` on the first octant.
fn cos_poly_x(t: u64) -> (r: i64)
    requires
        t <= QUARTER_PI_UNITS as u64 + 1,
    ensures
        r as int == cos_poly(t as int),
        0 <= r <= TRIG_BOUND,
{
    let t2: u64 = mul_rescale(t, t);
    let t4: u64 = mul_rescale(t2, t2);
    let t6: u64 = mul_rescale(t4, t2);
    let t8: u64 = mul_rescale(t4, t4);
    proof {
        lemma_div_pos_is_pos(t2 as int, 2);
        lemma_div_is_ordered(t2 as int, 4_000_000_000, 2);
        lemma_div_pos_is_pos(t4 as int, 24);
        lemma_div_is_ordered(t4 as int, 4_000_000_000, 24);
        lemma_div_pos_is_pos(t6 as int, 720);
        lemma_div_is_ordered(t6 as int, 4_000_000_000, 720);
        lemma_div_pos_is_pos(t8 as int, 40320);
        lemma_div_is_ordered(t8 as int, 4_000_000_000, 40320);
    }
    SCALE - (t2 / 2) as i64 + (t4 / 24) as i64 - (t6 / 720) as i64 + (t8 / 40320) as i64
}

/// Evaluate `sin_poly` on the first octant.
fn sin_poly_x(t: u64) -> (r: i64)
    requires
        t <= QUARTER_PI_UNITS as u64 + 1,
    ensures
        r as int == sin_poly(t as int),
        -TRIG_BOUND <= r <= TRIG_BOUND,
{
    let t2: u64 = mul_rescale(t, t);
    let t3: u64 = mul_rescale(t2, t);
    let t5: u64 = mul_rescale(t3, t2);
    let t7: u64 = mul_rescale(t5, t2);
    proof {
        lemma_div_pos_is_pos(t3 as int, 6);
        lemma_div_is_ordered(t3 as int, 4_000_000_000, 6);
        lemma_div_pos_is_pos(t5 as int, 120);
        lemma_div_is_ordered(t5 as int, 4_000_000_000, 120);
        lemma_div_pos_is_pos(t7 as int, 5040);
        lemma_div_is_ordered(t7 as int, 4_000_000_000, 5040);
    }
    t as i64 - (t3 / 6) as i64 + (t5 / 120) as i64 - (t7 / 5040) as i64
}

/// Evaluate `cos_quadrant` on the first quadrant.
fn cos_quadrant_x(t: u64) -> (r: i64)
    requires
        t <= HALF_PI_UNITS as u64,
    ensures
        r as int == cos_quadrant(t as int),
        -TRIG_BOUND <= r <= TRIG_BOUND,
{
    if t > QUARTER_PI_UNITS as u64 {
        sin_poly_x(HALF_PI_UNITS as u64 - t)
    } else {
        cos_poly_x(t)
    }
}

/// Evaluate `sin_quadrant` on the first quadrant.
fn sin_quadrant_x(t: u64) -> (r: i64)
    requires
        t <= HALF_PI_UNITS as u64,
    ensures
        r as int == sin_quadrant(t as int),
        -TRIG_BOUND <= r <= TRIG_BOUND,
{
    if t > QUARTER_PI_UNITS as u64 {
        cos_poly_x(HALF_PI_UNITS as u64 - t)
    } else {
        sin_poly_x(t)
    }
}

/// Fold an arbitrary in-range angle into `[0, TWO_PI_UNITS)`.
fn reduce_angle_x(x: i64) -> (r: u64)
    requires
        in_range(x as int),
    ensures
        r as int == reduce_angle(x as int),
        r < TWO_PI_UNITS as u64,
{
    let m: u64 = if x < 0 {
        (-x) as u64 % TWO_PI_UNITS as u64
    } else {
        x as u64 % TWO_PI_UNITS as u64
    };
    if x < 0 && m != 0 {
        TWO_PI_UNITS as u64 - m
    } else {
        m
    }
}

/// Fixed-point cosine of an angle given in units of billionths of a radian.
pub fn cos_units(x: i64) -> (r: i64)
    requires
        in_range(x as int),
    ensures
        r as int == s_cos(x as int),
        -TRIG_BOUND <= r <= TRIG_BOUND,
{
    let red: u64 = reduce_angle_x(x);
    let r1: u64 = if red > PI_UNITS as u64 {
        TWO_PI_UNITS as u64 - red
    } else {
        red
    };
    if r1 > HALF_PI_UNITS as u64 {
        -cos_quadrant_x(PI_UNITS as u64 - r1)
    } else {
        cos_quadrant_x(r1)
    }
}

/// Fixed-point sine of an angle given in units of billionths of a radian.
pub fn sin_units(x: i64) -> (r: i64)
    requires
        in_range(x as int),
    ensures
        r as int == s_sin(x as int),
        -TRIG_BOUND <= r <= TRIG_BOUND,
{
    let red: u64 = reduce_angle_x(x);
    if red > PI_UNITS as u64 {
        -sin_half_turn_x(red - PI_UNITS as u64)
    } else {
        sin_half_turn_x(red)
    }
}

/// Evaluate `sin_half_turn` on the first half turn.
fn sin_half_turn_x(r: u64) -> (res: i64)
    requires
        r <= PI_UNITS as u64,
    ensures
        res as int == sin_half_turn(r as int),
        -TRIG_BOUND <= res <= TRIG_BOUND,
{
    if r > HALF_PI_UNITS as u64 {
        sin_quadrant_x(PI_UNITS as u64 - r)
    } else {
        sin_quadrant_x(r)
    }
}

impl Scalar {
    /// The cosine of this quantity read as an angle in radians.
    pub fn cos(self) -> (r: Scalar)
        requires
            self.wf(),
        ensures
            r.val() == s_cos(self.val()),
            r.wf(),
    {
        Scalar::from_units(cos_units(self.units()))
    }

    /// The sine of this quantity read as an angle in radians.
    pub fn sin(self) -> (r: Scalar)
        requires
            self.wf(),
        ensures
            r.val() == s_sin(self.val()),
            r.wf(),
    {
        Scalar::from_units(sin_units(self.units()))
    }
}

} // verus!
