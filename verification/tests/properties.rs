use std::f64::consts;

use magnetite::CurrentSgmt;
use magnetite::DegenerateSegment;
use magnetite::Field;
use magnetite::Location;
use magnetite::Scalar;
use magnetite::Vector;

fn fx(v: f64) -> Scalar {
    Scalar::from_units((v * 1e9).round() as i64)
}

fn to_f64(s: Scalar) -> f64 {
    s.units() as f64 / 1e9
}

/// The norm of a polar-constructed vector is the amplitude's magnitude,
/// within tolerance, across amplitudes and angles of both signs.
#[test]
fn abs_of_polar_vector() {
    let cases: Vec<(f64, f64, f64)> = vec![
        (1.0, 0.0, 0.0),
        (1.0, 0.3, 1.2),
        (2.5, -1.0, 2.0),
        (-3.0, consts::PI / 4.0, consts::PI / 6.0),
        (0.5, 5.0, -2.5),
        (10.0, consts::PI, consts::PI / 2.0),
    ];
    for (a, phi, theta) in cases {
        let v = Vector::from_polar(fx(a), fx(phi), fx(theta)).unwrap();
        let n = v.abs().unwrap();
        assert!((to_f64(n) - a.abs()).abs() < 1e-5);
    }
}

/// Exact polar constructions along the axes.
#[test]
fn polar_exact_on_axes() {
    assert_eq!(
        Vector::new(fx(2.0), fx(0.0), fx(0.0)),
        Vector::from_polar(fx(2.0), fx(0.0), fx(0.0)).unwrap(),
    );
    assert_eq!(
        Vector::new(fx(-2.0), fx(0.0), fx(0.0)),
        Vector::from_polar(fx(-2.0), fx(0.0), fx(0.0)).unwrap(),
    );
}

/// Vector addition is commutative and associative on concrete values, and
/// `accumulate` agrees with `add`.
#[test]
fn addition_laws_concrete() {
    let a = Vector::new(fx(1.25), fx(-2.0), fx(3.5));
    let b = Vector::new(fx(-0.75), fx(4.0), fx(0.125));
    let c = Vector::new(fx(10.0), fx(-20.0), fx(0.0));
    assert_eq!(a.add(b).unwrap(), b.add(a).unwrap());
    assert_eq!(a.add(b).unwrap().add(c).unwrap(), a.add(b.add(c).unwrap()).unwrap());
    let mut acc = a;
    assert!(acc.accumulate(b));
    assert_eq!(acc, a.add(b).unwrap());
}

/// An empty field evaluates to the zero vector at every point tried.
#[test]
fn empty_field_is_zero() {
    let field = Field::new();
    let zero = Vector::new(fx(0.0), fx(0.0), fx(0.0));
    assert_eq!(zero, field.eval_at_pnt(Location::new(fx(0.0), fx(0.0), fx(0.0))).unwrap());
    assert_eq!(zero, field.eval_at_pnt(Location::new(fx(12.5), fx(-3.0), fx(700.0))).unwrap());
    assert_eq!(0, field.len());
}

/// A zero axis or a negative length is rejected at construction.
#[test]
fn degenerate_segment_rejected() {
    let zero_axis = CurrentSgmt::new(
        Location::new(fx(0.0), fx(0.0), fx(0.0)),
        Vector::new(fx(0.0), fx(0.0), fx(0.0)),
        fx(1.0),
    );
    assert_eq!(zero_axis.unwrap_err(), DegenerateSegment);
    let negative_length = CurrentSgmt::new(
        Location::new(fx(0.0), fx(0.0), fx(0.0)),
        Vector::new(fx(1.0), fx(0.0), fx(0.0)),
        fx(-1.0),
    );
    assert_eq!(negative_length.unwrap_err(), DegenerateSegment);
    let fine = CurrentSgmt::new(
        Location::new(fx(0.0), fx(0.0), fx(0.0)),
        Vector::new(fx(1.0), fx(0.0), fx(0.0)),
        fx(0.0),
    );
    assert!(fine.is_ok());
}

/// A query point on the carrying line makes the discriminant `4b - a^2`
/// vanish; the evaluation reports the singularity instead of a number.
#[test]
fn singular_geometry_is_undefined() {
    let sgmt = CurrentSgmt::new(
        Location::new(fx(0.0), fx(0.0), fx(0.0)),
        Vector::new(fx(1.0), fx(0.0), fx(0.0)),
        fx(1.0),
    )
        .unwrap();
    assert!(sgmt.induced_field(&Location::new(fx(2.0), fx(0.0), fx(0.0))).is_none());
}

/// One poisoned contribution poisons the whole superposition.
#[test]
fn singular_segment_poisons_field() {
    let mut field = Field::new();
    field.add_segment(
        CurrentSgmt::new(
            Location::new(fx(-500.0), fx(0.0), fx(0.0)),
            Vector::new(fx(1.0), fx(0.0), fx(0.0)),
            fx(1000.0),
        )
            .unwrap(),
    );
    field.add_segment(
        CurrentSgmt::new(
            Location::new(fx(0.0), fx(0.0), fx(0.0)),
            Vector::new(fx(1.0), fx(0.0), fx(0.0)),
            fx(1.0),
        )
            .unwrap(),
    );
    // the second segment runs through the query point's line
    assert!(field.eval_at_pnt(Location::new(fx(2.0), fx(0.0), fx(0.0))).is_none());
    assert_eq!(2, field.len());
}

/// Shifting an angle by exactly one turn of fixed-point units changes the
/// polar construction not at all.
#[test]
fn polar_periodicity_exact() {
    let two_pi_units: i64 = 6_283_185_308;
    let phi = fx(0.7);
    let phi_shifted = Scalar::from_units(phi.units() + two_pi_units);
    let theta = fx(-1.1);
    let theta_shifted = Scalar::from_units(theta.units() - two_pi_units);
    assert_eq!(
        Vector::from_polar(fx(2.0), phi, theta).unwrap(),
        Vector::from_polar(fx(2.0), phi_shifted, theta).unwrap(),
    );
    assert_eq!(
        Vector::from_polar(fx(2.0), phi, theta).unwrap(),
        Vector::from_polar(fx(2.0), phi, theta_shifted).unwrap(),
    );
}

/// The cosine is even and the sine odd, so negating the azimuth keeps the
/// X component exactly and negates the Y component exactly.
#[test]
fn polar_azimuth_parity_exact() {
    let pos = Vector::from_polar(fx(1.0), fx(0.8), fx(0.0)).unwrap();
    let neg = Vector::from_polar(fx(1.0), fx(-0.8), fx(0.0)).unwrap();
    assert_eq!(pos.x, neg.x);
    assert_eq!(pos.y.units(), -neg.y.units());
    assert_eq!(pos.z, neg.z);
}

/// Two segments that are point reflections of each other induce exactly the
/// same field at the centre of symmetry.
#[test]
fn point_reflection_contributes_equally() {
    let one = CurrentSgmt::new(
        Location::new(fx(-500.0), fx(-1.0), fx(0.0)),
        Vector::new(fx(1.0), fx(0.0), fx(0.0)),
        fx(100.0),
    )
        .unwrap();
    let other = CurrentSgmt::new(
        Location::new(fx(500.0), fx(1.0), fx(0.0)),
        Vector::new(fx(-1.0), fx(0.0), fx(0.0)),
        fx(100.0),
    )
        .unwrap();
    let origin = Location::new(fx(0.0), fx(0.0), fx(0.0));
    assert_eq!(one.induced_field(&origin), other.induced_field(&origin));
}

/// Exact fixed-point arithmetic at the scalar level: truncation toward
/// zero, checked overflow, and the integer square root.
#[test]
fn scalar_arithmetic_exact() {
    // 1.5 * 2.5 = 3.75 exactly
    assert_eq!(fx(3.75), fx(1.5).mul(fx(2.5)).unwrap());
    // 1 / 3 truncates toward zero at the ninth digit
    assert_eq!(333_333_333, fx(1.0).div(fx(3.0)).unwrap().units());
    // -1 / 3 truncates toward zero, not toward minus infinity
    assert_eq!(-333_333_333, fx(-1.0).div(fx(3.0)).unwrap().units());
    // sqrt(4) = 2 exactly
    assert_eq!(fx(2.0), fx(4.0).sqrt().unwrap());
    // division by zero and the root of a negative number are undefined
    assert!(fx(1.0).div(fx(0.0)).is_none());
    assert!(fx(-1.0).sqrt().is_none());
}

/// Sums that would leave the representable range are reported, and a failed
/// `accumulate` leaves its target untouched.
#[test]
fn overflow_is_checked() {
    let big = Scalar::from_units(1_000_000_000_000_000_000);
    assert!(big.add(Scalar::from_units(1)).is_none());
    let huge = Vector::new(big, fx(0.0), fx(0.0));
    let mut acc = huge;
    assert!(!acc.accumulate(Vector::new(fx(1.0), fx(0.0), fx(0.0))));
    assert_eq!(acc, huge);
    assert!(huge.add(huge).is_none());
}

/// The segment keeps exactly what it was built from, and the field keeps
/// its segments in insertion order.
#[test]
fn construction_is_exact() {
    let sgmt = CurrentSgmt::new(
        Location::new(fx(1.0), fx(2.0), fx(3.0)),
        Vector::new(fx(0.0), fx(0.5), fx(0.0)),
        fx(7.0),
    )
        .unwrap();
    assert_eq!(Vector::new(fx(0.0), fx(0.5), fx(0.0)), sgmt.axis());
    assert_eq!(fx(7.0), sgmt.length());
    assert_eq!(fx(1.0), sgmt.start().x);
    let mut field = Field::new();
    field.add_segment(sgmt);
    assert_eq!(fx(7.0), field.segment(0).length());
}
