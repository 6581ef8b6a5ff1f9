//! Exact three-dimensional linear algebra over machine integers.
//!
//! Vectors of three and four components and four-by-four matrices hold `i32`
//! scalars. Every operation is specified over mathematical integers: its
//! contract names the exact result, and asks only that this result can be
//! stored again; a test such as `product_fits` tells beforehand whether it
//! can. The library holds the operations of the ring: sums, differences,
//! products, and what is built from them. What divides by a length or takes
//! the cosine of an angle has no result in whole numbers and is left to the
//! caller, who computes in floating point: rotations take a cosine and a
//! sine, and the frame of a camera keeps its axes at their exact lengths.
//!
//! The module `algebra` holds the mathematical model, `laws` the theorems
//! that relate the operations to one another, and `expansion` the dot
//! product written out for computing by hand.

pub mod algebra;
pub mod expansion;
pub mod laws;
pub mod matrix;
pub mod scalar;
pub mod vector;

pub use matrix::Mat4;
pub use vector::{Vec3, Vec4};
