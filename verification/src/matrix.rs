//! Four-by-four matrices.

use crate::algebra;
use crate::scalar::{
    all_representable, fits, ints, narrow, product_limit, representable, rows_representable,
    wide_dot, wide_product,
};
use crate::vector::{Vec3, Vec4};
use vstd::prelude::*;

verus! {

/// A matrix of four rows and four columns, indexed `[row][column]`.
#[derive(Copy, Clone, Debug, PartialEq, Eq)]
pub struct Mat4(pub [[i32; 4]; 4]);

impl View for Mat4 {
    type V = Seq<Seq<int>>;

    open spec fn view(&self) -> Seq<Seq<int>> {
        Seq::new(4, |i: int| ints(self.0[i]@))
    }
}

impl Mat4 {
    /// The matrix that holds the four rows of `m`, whose entries must be
    /// representable.
    pub open spec fn from_ints(m: Seq<Seq<int>>) -> Mat4 {
        Mat4(
            [
                Vec4::from_ints(m[0]).0,
                Vec4::from_ints(m[1]).0,
                Vec4::from_ints(m[2]).0,
                Vec4::from_ints(m[3]).0,
            ],
        )
    }

    /// A matrix is determined by its view.
    pub proof fn lemma_view_determines(self)
        ensures
            algebra::is_matrix(self@),
            rows_representable(self@),
            Mat4::from_ints(self@) == self,
    {
        let m = Mat4::from_ints(self@);
        assert forall|i: int| 0 <= i < 4 implies #[trigger] m.0[i] == self.0[i] by {
            assert(m.0[i] =~= self.0[i]);
        }
        assert(m.0 =~= self.0);
    }

    /// The zero matrix.
    pub fn zero() -> (r: Self)
        ensures
            r@ == algebra::zero_matrix(),
    {
        let r = Mat4([[0, 0, 0, 0], [0, 0, 0, 0], [0, 0, 0, 0], [0, 0, 0, 0]]);
        assert(r@ =~~= algebra::zero_matrix());
        r
    }

    /// The identity matrix.
    pub fn identity() -> (r: Self)
        ensures
            r@ == algebra::identity(),
    {
        let r = Mat4([[1, 0, 0, 0], [0, 1, 0, 0], [0, 0, 1, 0], [0, 0, 0, 1]]);
        assert(r@ =~~= algebra::identity());
        r
    }

    /// The matrix that scales the three axes by the given factors.
    pub fn scale(x: i32, y: i32, z: i32) -> (r: Self)
        ensures
            r@ == algebra::scaling(x as int, y as int, z as int),
    {
        let r = Mat4([[x, 0, 0, 0], [0, y, 0, 0], [0, 0, z, 0], [0, 0, 0, 1]]);
        assert(r@ =~~= algebra::scaling(x as int, y as int, z as int));
        r
    }

    /// The matrix that moves a point by the given offset.
    pub fn translate(x: i32, y: i32, z: i32) -> (r: Self)
        ensures
            r@ == algebra::translation(x as int, y as int, z as int),
    {
        let r = Mat4([[1, 0, 0, x], [0, 1, 0, y], [0, 0, 1, z], [0, 0, 0, 1]]);
        assert(r@ =~~= algebra::translation(x as int, y as int, z as int));
        r
    }

    /// The rotation about the first axis by the angle whose cosine and sine
    /// are given. It takes the cosine and the sine, not the angle: the
    /// caller computes them. In whole numbers only the four quarter turns
    /// `(1, 0)`, `(0, 1)`, `(-1, 0)` and `(0, -1)` are a cosine and a sine;
    /// for every other pair the matrix also scales the plane of the
    /// rotation, by the square root of `cos * cos + sin * sin`.
    pub fn rotate_x(cos: i32, sin: i32) -> (r: Self)
        requires
            representable(-sin),
        ensures
            r@ == algebra::rotation_x(cos as int, sin as int),
    {
        let r = Mat4([[1, 0, 0, 0], [0, cos, -sin, 0], [0, sin, cos, 0], [0, 0, 0, 1]]);
        assert(r@ =~~= algebra::rotation_x(cos as int, sin as int));
        r
    }

    /// The rotation about the second axis by the angle whose cosine and sine
    /// are given. It takes the cosine and the sine, not the angle: the
    /// caller computes them. In whole numbers only the four quarter turns
    /// `(1, 0)`, `(0, 1)`, `(-1, 0)` and `(0, -1)` are a cosine and a sine;
    /// for every other pair the matrix also scales the plane of the
    /// rotation, by the square root of `cos * cos + sin * sin`.
    pub fn rotate_y(cos: i32, sin: i32) -> (r: Self)
        requires
            representable(-sin),
        ensures
            r@ == algebra::rotation_y(cos as int, sin as int),
    {
        let r = Mat4([[cos, 0, sin, 0], [0, 1, 0, 0], [-sin, 0, cos, 0], [0, 0, 0, 1]]);
        assert(r@ =~~= algebra::rotation_y(cos as int, sin as int));
        r
    }

    /// The rotation about the third axis by the angle whose cosine and sine
    /// are given. It takes the cosine and the sine, not the angle: the
    /// caller computes them. In whole numbers only the four quarter turns
    /// `(1, 0)`, `(0, 1)`, `(-1, 0)` and `(0, -1)` are a cosine and a sine;
    /// for every other pair the matrix also scales the plane of the
    /// rotation, by the square root of `cos * cos + sin * sin`.
    pub fn rotate_z(cos: i32, sin: i32) -> (r: Self)
        requires
            representable(-sin),
        ensures
            r@ == algebra::rotation_z(cos as int, sin as int),
    {
        let r = Mat4([[cos, -sin, 0, 0], [sin, cos, 0, 0], [0, 0, 1, 0], [0, 0, 0, 1]]);
        assert(r@ =~~= algebra::rotation_z(cos as int, sin as int));
        r
    }

    /// Entry `[i][j]` of the matrix product `self * other`, in a type wide
    /// enough to hold it whatever the entries are.
    pub fn wide_entry(self, other: Mat4, i: usize, j: usize) -> (r: i128)
        requires
            i < 4,
            j < 4,
        ensures
            r == algebra::mat_mul(self@, other@)[i as int][j as int],
    {
        let mut acc: i128 = 0;
        for k in 0usize..4
            invariant
                i < 4,
                j < 4,
                acc == algebra::dot_prefix(
                    self@[i as int],
                    algebra::column(other@, j as int),
                    k as nat,
                ),
                -(k * product_limit()) <= acc <= k * product_limit(),
        {
            acc = acc + wide_product(self.0[i][k], other.0[k][j]);
        }
        acc
    }

    /// Whether every entry of the product `self * other` can be stored, as
    /// `multiply` requires.
    pub fn product_fits(self, other: Mat4) -> (b: bool)
        ensures
            b == rows_representable(algebra::mat_mul(self@, other@)),
    {
        let ghost product = algebra::mat_mul(self@, other@);
        for i in 0usize..4
            invariant
                product == algebra::mat_mul(self@, other@),
                forall|p: int| 0 <= p < i ==> all_representable(#[trigger] product[p]),
        {
            for j in 0usize..4
                invariant
                    i < 4,
                    product == algebra::mat_mul(self@, other@),
                    forall|p: int| 0 <= p < i ==> all_representable(#[trigger] product[p]),
                    forall|q: int| 0 <= q < j ==> representable(#[trigger] product[i as int][q]),
            {
                if !fits(self.wide_entry(other, i, j)) {
                    proof {
                        if rows_representable(product) {
                            assert(all_representable(product[i as int]));
                            assert(representable(product[i as int][j as int]));
                        }
                    }
                    return false;
                }
            }
            assert(all_representable(product[i as int]));
        }
        true
    }

    /// Whether every component of the product with the column vector `v` can
    /// be stored, as `apply` requires.
    pub fn image_fits(self, v: Vec4) -> (b: bool)
        ensures
            b == all_representable(algebra::mat_apply(self@, v@)),
    {
        let ghost image = algebra::mat_apply(self@, v@);
        for i in 0usize..4
            invariant
                image == algebra::mat_apply(self@, v@),
                forall|k: int| 0 <= k < i ==> representable(#[trigger] image[k]),
        {
            if !fits(wide_dot(&self.0[i], &v.0)) {
                assert(!representable(image[i as int]));
                return false;
            }
        }
        true
    }

    /// Whether every entry of the frame of the camera can be stored, as
    /// `view_frame` requires.
    pub fn frame_fits(eye: Vec3, center: Vec3, up: Vec3) -> (b: bool)
        ensures
            b == rows_representable(algebra::view_frame(eye@, center@, up@)),
    {
        let ghost m = algebra::view_frame(eye@, center@, up@);
        proof {
            if rows_representable(m) {
                assert(all_representable(m[0]) && all_representable(m[1]) && all_representable(
                    m[2],
                ) && all_representable(m[3]));
                assert(representable(m[0][0]) && representable(m[0][1]) && representable(m[0][2]));
                assert(representable(m[1][0]) && representable(m[1][1]) && representable(m[1][2]));
                assert(representable(m[2][0]) && representable(m[2][1]) && representable(m[2][2]));
                assert(representable(m[3][0]) && representable(m[3][1]) && representable(m[3][2]));
            }
        }
        if !eye.difference_fits(center) {
            return false;
        }
        let z: Vec3 = eye.sub(center);
        if !up.cross_fits(z) {
            return false;
        }
        let x: Vec3 = up.cross(z);
        if !z.cross_fits(x) {
            return false;
        }
        let y: Vec3 = z.cross(x);
        let tx: i128 = -wide_dot(&x.0, &eye.0);
        let ty: i128 = -wide_dot(&y.0, &eye.0);
        let tz: i128 = -wide_dot(&z.0, &eye.0);
        if fits(tx) && fits(ty) && fits(tz) {
            assert(all_representable(m[0]) && all_representable(m[1]) && all_representable(m[2])
                && all_representable(m[3]));
            true
        } else {
            false
        }
    }

    /// The matrix product `self * other`.
    pub fn multiply(self, other: Mat4) -> (r: Mat4)
        requires
            rows_representable(algebra::mat_mul(self@, other@)),
        ensures
            r@ == algebra::mat_mul(self@, other@),
    {
        let ghost product = algebra::mat_mul(self@, other@);
        let mut result = Mat4::zero();
        for i in 0usize..4
            invariant
                product == algebra::mat_mul(self@, other@),
                rows_representable(product),
                forall|p: int, q: int|
                    0 <= p < i && 0 <= q < 4 ==> #[trigger] result.0[p][q] == product[p][q],
        {
            for j in 0usize..4
                invariant
                    i < 4,
                    product == algebra::mat_mul(self@, other@),
                    rows_representable(product),
                    forall|p: int, q: int|
                        0 <= p < i && 0 <= q < 4 ==> #[trigger] result.0[p][q] == product[p][q],
                    forall|q: int|
                        0 <= q < j ==> #[trigger] result.0[i as int][q] == product[i as int][q],
            {
                let acc: i128 = self.wide_entry(other, i, j);
                assert(all_representable(product[i as int]));
                assert(representable(product[i as int][j as int]));
                result.0[i][j] = narrow(acc);
            }
        }
        assert(result@ =~~= product);
        result
    }

    /// The product of the matrix with the column vector `v`.
    pub fn apply(self, v: Vec4) -> (r: Vec4)
        requires
            all_representable(algebra::mat_apply(self@, v@)),
        ensures
            r@ == algebra::mat_apply(self@, v@),
    {
        let ghost image = algebra::mat_apply(self@, v@);
        let mut result = Vec4::zero();
        for i in 0usize..4
            invariant
                image == algebra::mat_apply(self@, v@),
                all_representable(image),
                forall|k: int| 0 <= k < i ==> result.0[k] == image[k],
        {
            let entry: i128 = wide_dot(&self.0[i], &v.0);
            assert(representable(image[i as int]));
            result.0[i] = narrow(entry);
        }
        assert(result@ =~= image);
        result
    }

    /// The frame of a camera at `eye` that looks toward `center`, with `up` as
    /// the vertical direction: the view matrix before its axes are divided by
    /// their lengths.
    ///
    /// The depth axis is `eye - center`, the right axis the cross product of
    /// `up` with the depth axis, and the up axis the cross product of the
    /// depth axis with the right axis, so that the three are perpendicular to
    /// one another even where `up` is not perpendicular to the line of sight.
    /// The axes are the columns of the upper left block; the last row holds
    /// the negated dot product of each axis with `eye`. The axes keep their
    /// exact lengths, which are whole numbers for few cameras only: a caller
    /// that wants the view matrix divides column `j` by the length of axis
    /// `j`, in floating point.
    pub fn view_frame(eye: Vec3, center: Vec3, up: Vec3) -> (r: Mat4)
        requires
            rows_representable(algebra::view_frame(eye@, center@, up@)),
        ensures
            r@ == algebra::view_frame(eye@, center@, up@),
    {
        let ghost m = algebra::view_frame(eye@, center@, up@);
        proof {
            assert(all_representable(m[0]) && all_representable(m[1]) && all_representable(m[2])
                && all_representable(m[3]));
            assert(representable(m[0][0]) && representable(m[0][1]) && representable(m[0][2]));
            assert(representable(m[1][0]) && representable(m[1][1]) && representable(m[1][2]));
            assert(representable(m[2][0]) && representable(m[2][1]) && representable(m[2][2]));
            assert(representable(m[3][0]) && representable(m[3][1]) && representable(m[3][2]));
        }
        let z: Vec3 = eye.sub(center);
        let x: Vec3 = up.cross(z);
        let y: Vec3 = z.cross(x);
        let r = Mat4(
            [
                [x.0[0], y.0[0], z.0[0], 0],
                [x.0[1], y.0[1], z.0[1], 0],
                [x.0[2], y.0[2], z.0[2], 0],
                [
                    narrow(-wide_dot(&x.0, &eye.0)),
                    narrow(-wide_dot(&y.0, &eye.0)),
                    narrow(-wide_dot(&z.0, &eye.0)),
                    1,
                ],
            ],
        );
        assert(r@ =~~= m);
        r
    }

    /// The entry in row `i` and column `j`.
    pub fn get(&self, i: usize, j: usize) -> (r: i32)
        requires
            i < 4,
            j < 4,
        ensures
            r == self@[i as int][j as int],
    {
        self.0[i][j]
    }

    /// Replaces the entry in row `i` and column `j` by `value`.
    pub fn set(&mut self, i: usize, j: usize, value: i32)
        requires
            i < 4,
            j < 4,
        ensures
            final(self)@ == old(self)@.update(
                i as int,
                old(self)@[i as int].update(j as int, value as int),
            ),
    {
        self.0[i][j] = value;
        assert(self@ =~~= old(self)@.update(
            i as int,
            old(self)@[i as int].update(j as int, value as int),
        ));
    }
}

/// The operator form of `Mat4::multiply`.
impl core::ops::Mul<Mat4> for Mat4 {
    type Output = Mat4;

    fn mul(self, other: Mat4) -> (r: Mat4) {
        let r = self.multiply(other);
        proof {
            r.lemma_view_determines();
        }
        r
    }
}

impl vstd::std_specs::ops::MulSpecImpl<Mat4> for Mat4 {
    open spec fn obeys_mul_spec() -> bool {
        true
    }

    open spec fn mul_req(self, other: Mat4) -> bool {
        rows_representable(algebra::mat_mul(self@, other@))
    }

    open spec fn mul_spec(self, other: Mat4) -> Mat4 {
        Mat4::from_ints(algebra::mat_mul(self@, other@))
    }
}

/// The operator form of `Mat4::apply`.
impl core::ops::Mul<Vec4> for Mat4 {
    type Output = Vec4;

    fn mul(self, v: Vec4) -> (r: Vec4) {
        let r = self.apply(v);
        proof {
            r.lemma_view_determines();
        }
        r
    }
}

impl vstd::std_specs::ops::MulSpecImpl<Vec4> for Mat4 {
    open spec fn obeys_mul_spec() -> bool {
        true
    }

    open spec fn mul_req(self, v: Vec4) -> bool {
        all_representable(algebra::mat_apply(self@, v@))
    }

    open spec fn mul_spec(self, v: Vec4) -> Vec4 {
        Vec4::from_ints(algebra::mat_apply(self@, v@))
    }
}

/// Row `i` of the matrix, so that `m[i][j]` reads the entry in row `i` and
/// column `j`.
impl core::ops::Index<usize> for Mat4 {
    type Output = [i32; 4];

    fn index(&self, i: usize) -> (r: &[i32; 4])
        ensures
            ints(r@) == self@[i as int],
    {
        &self.0[i]
    }
}

impl vstd::std_specs::core::IndexSpecImpl<usize> for Mat4 {
    open spec fn index_req(&self, i: &usize) -> bool {
        *i < 4
    }
}

} // verus!
