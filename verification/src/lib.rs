//! Magnetostatic field of straight current-carrying wire segments.
//!
//! The library evaluates the closed-form Biot-Savart solution for a finite
//! straight segment carrying unit current, and sums the contributions of a
//! whole collection of segments at arbitrary points in space.
//!
//! Every quantity is carried in a fixed-point representation: a [`Scalar`]
//! is a signed count of billionths of a unit.  That choice gives every
//! arithmetic step an exact mathematical meaning — truncating products and
//! quotients, integer square roots, polynomial cosine and sine — so each
//! operation, and the whole evaluation pipeline above them, carries a
//! contract that pins its result down exactly.  Where the real-valued
//! formula is undefined (a zero axis, a vanishing discriminant, a negative
//! radicand) or a value leaves the representable range, the result is
//! `None` rather than a poisoned number, and the contracts state exactly
//! when that happens.
//!
//! Modules, leaves first: [`scalar`] holds the checked fixed-point
//! arithmetic, [`trig`] the cosine and sine for the polar constructor,
//! [`vector`] the three-component vectors and positions with their addition
//! laws, [`segment`] the single-segment field solution, and [`field`] the
//! superposition over an ordered collection of segments.

pub mod scalar;
pub mod trig;
pub mod vector;
pub mod segment;
pub mod field;

pub use scalar::Scalar;
pub use vector::Location;
pub use vector::Vector;
pub use segment::CurrentSgmt;
pub use segment::DegenerateSegment;
pub use field::Field;
