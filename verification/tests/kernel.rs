use std::f64::consts;

use magnetite::CurrentSgmt;
use magnetite::Field;
use magnetite::Location;
use magnetite::Scalar;
use magnetite::Vector;

/// Convert a floating-point quantity to the library's fixed-point form
/// (billionths, rounded to the nearest unit).
fn fx(v: f64) -> Scalar {
    Scalar::from_units((v * 1e9).round() as i64)
}

/// Read a fixed-point quantity back as a floating-point number.
fn to_f64(s: Scalar) -> f64 {
    s.units() as f64 / 1e9
}

/// Component-wise comparison with the customary 1e-5 tolerance.
fn comp_vectors(v1: &Vector, v2: &Vector) -> bool {
    (to_f64(v1.x) - to_f64(v2.x)).abs() < 1e-5 && (to_f64(v1.y) - to_f64(v2.y)).abs() < 1e-5
        && (to_f64(v1.z) - to_f64(v2.z)).abs() < 1e-5
}

#[test]
fn polar() {
    assert_eq!(
        Vector::new(fx(1.0), fx(0.0), fx(0.0)),
        Vector::from_polar(fx(1.0), fx(0.0), fx(0.0)).unwrap(),
    );
    assert!(comp_vectors(
        &Vector::new(fx(6.0_f64.sqrt() / 4.0), fx(6.0_f64.sqrt() / 4.0), fx(0.5)),
        &Vector::from_polar(fx(1.0), fx(consts::PI / 4.0), fx(consts::PI / 6.0)).unwrap(),
    ));
}

#[test]
fn add() {
    assert_eq!(
        Vector::new(fx(2.0), fx(3.0), fx(4.0)),
        Vector::new(fx(1.0), fx(2.0), fx(3.0)).add(Vector::new(fx(1.0), fx(1.0), fx(1.0)))
            .unwrap(),
    );
}

#[test]
fn add_eq() {
    let mut v1 = Vector::new(fx(1.0), fx(1.0), fx(1.0));
    let v2 = Vector::new(fx(10.0), fx(20.0), fx(30.0));
    assert!(v1.accumulate(v2));
    assert_eq!(Vector::new(fx(11.0), fx(21.0), fx(31.0)), v1);
}

#[test]
fn induced() {
    let sgmt = CurrentSgmt::new(
        Location::new(fx(-500.0), fx(0.0), fx(0.0)),
        Vector::new(fx(1.0), fx(0.0), fx(0.0)),
        fx(1000.0),
    )
        .unwrap();
    // calculate by infinite wire approximation
    let v1 = Vector::new(fx(0.0), fx(0.0), fx(4.0 * consts::PI * 1e-7 / (2.0 * consts::PI)));
    // calculate by Biot-Savart
    let v2 = sgmt.induced_field(&Location::new(fx(0.0), fx(1.0), fx(0.0))).unwrap();
    assert!(comp_vectors(&v1, &v2));
}

#[test]
fn more_pnts() {
    let mut b_field = Field::new();
    b_field.add_segment(
        CurrentSgmt::new(
            Location::new(fx(-500.0), fx(-1.0), fx(0.0)),
            Vector::new(fx(1.0), fx(0.0), fx(0.0)),
            fx(100.0),
        )
            .unwrap(),
    );
    b_field.add_segment(
        CurrentSgmt::new(
            Location::new(fx(500.0), fx(1.0), fx(0.0)),
            Vector::new(fx(-1.0), fx(0.0), fx(0.0)),
            fx(100.0),
        )
            .unwrap(),
    );
    assert!(comp_vectors(
        &b_field.eval_at_pnt(Location::new(fx(0.0), fx(0.0), fx(0.0))).unwrap(),
        &Vector::new(fx(0.0), fx(0.0), fx(0.0)),
    ));
}
