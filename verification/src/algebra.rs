//! The mathematical model: vectors are sequences of integers, matrices are
//! sequences of four rows of four integers, and every operation of the library
//! is a function on them.

use vstd::prelude::*;

verus! {

/// The sum of the first `n` componentwise products of `a` and `b`.
pub open spec fn dot_prefix(a: Seq<int>, b: Seq<int>, n: nat) -> int
    decreases n,
{
    if n == 0 {
        0
    } else {
        dot_prefix(a, b, (n - 1) as nat) + a[n - 1] * b[n - 1]
    }
}

/// The dot product: the sum of `a[i] * b[i]` over every component.
pub open spec fn dot(a: Seq<int>, b: Seq<int>) -> int {
    dot_prefix(a, b, a.len())
}

/// The componentwise sum.
pub open spec fn vec_add(a: Seq<int>, b: Seq<int>) -> Seq<int> {
    Seq::new(a.len(), |i: int| a[i] + b[i])
}

/// The componentwise difference.
pub open spec fn vec_sub(a: Seq<int>, b: Seq<int>) -> Seq<int> {
    Seq::new(a.len(), |i: int| a[i] - b[i])
}

/// The vector `a` with every component multiplied by `k`.
pub open spec fn vec_scale(k: int, a: Seq<int>) -> Seq<int> {
    Seq::new(a.len(), |i: int| k * a[i])
}

/// The vector of `n` zeros.
pub open spec fn zero_vector(n: nat) -> Seq<int> {
    Seq::new(n, |i: int| 0int)
}

/// The cross product of two vectors of three components.
pub open spec fn cross(a: Seq<int>, b: Seq<int>) -> Seq<int> {
    seq![a[1] * b[2] - a[2] * b[1], a[2] * b[0] - a[0] * b[2], a[0] * b[1] - a[1] * b[0]]
}

/// Whether `m` has four rows of four entries each.
pub open spec fn is_matrix(m: Seq<Seq<int>>) -> bool {
    m.len() == 4 && forall|i: int| 0 <= i < 4 ==> (#[trigger] m[i]).len() == 4
}

/// Column `j` of a matrix, read from the top row down.
pub open spec fn column(m: Seq<Seq<int>>, j: int) -> Seq<int> {
    Seq::new(4, |k: int| m[k][j])
}

/// The matrix product: entry `[i][j]` is the dot product of row `i` of `a`
/// with column `j` of `b`.
pub open spec fn mat_mul(a: Seq<Seq<int>>, b: Seq<Seq<int>>) -> Seq<Seq<int>> {
    Seq::new(4, |i: int| Seq::new(4, |j: int| dot(a[i], column(b, j))))
}

/// The product of a matrix with a column vector: component `i` is the dot
/// product of row `i` of `m` with `v`.
pub open spec fn mat_apply(m: Seq<Seq<int>>, v: Seq<int>) -> Seq<int> {
    Seq::new(4, |i: int| dot(m[i], v))
}

/// The transpose: row `i` of the result is column `i` of `m`.
pub open spec fn transpose(m: Seq<Seq<int>>) -> Seq<Seq<int>> {
    Seq::new(4, |i: int| column(m, i))
}

/// The point with the three coordinates of `v`, in homogeneous form: a
/// vector of four components whose last is one.
pub open spec fn point(v: Seq<int>) -> Seq<int> {
    seq![v[0], v[1], v[2], 1]
}

/// The matrix whose entries are all zero.
pub open spec fn zero_matrix() -> Seq<Seq<int>> {
    Seq::new(4, |i: int| Seq::new(4, |j: int| 0int))
}

/// The matrix with ones on the diagonal and zeros elsewhere.
pub open spec fn identity() -> Seq<Seq<int>> {
    Seq::new(4, |i: int| Seq::new(4, |j: int| if i == j { 1int } else { 0int }))
}

/// The diagonal matrix that scales the three axes by `x`, `y` and `z`.
pub open spec fn scaling(x: int, y: int, z: int) -> Seq<Seq<int>> {
    seq![
        seq![x, 0, 0, 0],
        seq![0, y, 0, 0],
        seq![0, 0, z, 0],
        seq![0, 0, 0, 1],
    ]
}

/// The identity with the offset `(x, y, z)` in its last column.
pub open spec fn translation(x: int, y: int, z: int) -> Seq<Seq<int>> {
    seq![
        seq![1, 0, 0, x],
        seq![0, 1, 0, y],
        seq![0, 0, 1, z],
        seq![0, 0, 0, 1],
    ]
}

/// The rotation about the first axis through the angle whose cosine is `c` and
/// whose sine is `s`. It is a rotation where `c * c + s * s == 1`, which in
/// whole numbers holds of the four quarter turns only; for other pairs it
/// also scales the plane of the second and third axes, by the square root
/// of that sum.
pub open spec fn rotation_x(c: int, s: int) -> Seq<Seq<int>> {
    seq![
        seq![1, 0, 0, 0],
        seq![0, c, -s, 0],
        seq![0, s, c, 0],
        seq![0, 0, 0, 1],
    ]
}

/// The rotation about the second axis through the angle whose cosine is `c` and
/// whose sine is `s`. It is a rotation where `c * c + s * s == 1`, which in
/// whole numbers holds of the four quarter turns only; for other pairs it
/// also scales the plane of the third and first axes, by the square root
/// of that sum.
pub open spec fn rotation_y(c: int, s: int) -> Seq<Seq<int>> {
    seq![
        seq![c, 0, s, 0],
        seq![0, 1, 0, 0],
        seq![-s, 0, c, 0],
        seq![0, 0, 0, 1],
    ]
}

/// The rotation about the third axis through the angle whose cosine is `c` and
/// whose sine is `s`. It is a rotation where `c * c + s * s == 1`, which in
/// whole numbers holds of the four quarter turns only; for other pairs it
/// also scales the plane of the first and second axes, by the square root
/// of that sum.
pub open spec fn rotation_z(c: int, s: int) -> Seq<Seq<int>> {
    seq![
        seq![c, -s, 0, 0],
        seq![s, c, 0, 0],
        seq![0, 0, 1, 0],
        seq![0, 0, 0, 1],
    ]
}

/// The depth axis of a camera at `eye` that looks toward `center`: it points
/// from the target back to the camera.
pub open spec fn depth_axis(eye: Seq<int>, center: Seq<int>) -> Seq<int> {
    vec_sub(eye, center)
}

/// The right axis of the camera: perpendicular to `up` and to the depth axis.
pub open spec fn right_axis(eye: Seq<int>, center: Seq<int>, up: Seq<int>) -> Seq<int> {
    cross(up, depth_axis(eye, center))
}

/// The corrected up axis of the camera: perpendicular to the depth axis and
/// to the right axis, whatever angle `up` made with the line of sight.
pub open spec fn up_axis(eye: Seq<int>, center: Seq<int>, up: Seq<int>) -> Seq<int> {
    cross(depth_axis(eye, center), right_axis(eye, center, up))
}

/// The frame of a camera, with its axes at their exact lengths. Its first
/// three columns are the right, up and depth axes; its last row holds, for
/// each axis, the negated dot product of the axis with `eye`. A view matrix
/// is this frame with each column divided by the length of its axis, which
/// whole numbers cannot hold.
pub open spec fn view_frame(eye: Seq<int>, center: Seq<int>, up: Seq<int>) -> Seq<Seq<int>> {
    let x = right_axis(eye, center, up);
    let y = up_axis(eye, center, up);
    let z = depth_axis(eye, center);
    seq![
        seq![x[0], y[0], z[0], 0],
        seq![x[1], y[1], z[1], 0],
        seq![x[2], y[2], z[2], 0],
        seq![-dot(x, eye), -dot(y, eye), -dot(z, eye), 1],
    ]
}

} // verus!
