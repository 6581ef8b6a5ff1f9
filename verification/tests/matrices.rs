use linalg::{Mat4, Vec3, Vec4};

fn sample_a() -> Mat4 {
    Mat4([[1, 2, 3, 4], [5, 6, 7, 8], [9, 10, 11, 12], [13, 14, 15, 16]])
}

fn sample_b() -> Mat4 {
    Mat4([[2, 0, -1, 3], [1, 1, 0, -2], [0, 4, 5, 1], [-3, 2, 1, 0]])
}

fn sample_c() -> Mat4 {
    Mat4([[0, 1, 0, 2], [3, 0, -1, 0], [1, 1, 1, 1], [0, -2, 0, 4]])
}

#[test]
fn zero_matrix_holds_zeros() {
    assert_eq!(Mat4::zero(), Mat4([[0; 4]; 4]));
}

#[test]
fn identity_has_ones_on_the_diagonal() {
    assert_eq!(
        Mat4::identity(),
        Mat4([[1, 0, 0, 0], [0, 1, 0, 0], [0, 0, 1, 0], [0, 0, 0, 1]])
    );
}

#[test]
fn scale_is_diagonal() {
    assert_eq!(
        Mat4::scale(2, -3, 5),
        Mat4([[2, 0, 0, 0], [0, -3, 0, 0], [0, 0, 5, 0], [0, 0, 0, 1]])
    );
}

#[test]
fn translate_fills_the_last_column() {
    assert_eq!(
        Mat4::translate(7, -8, 9),
        Mat4([[1, 0, 0, 7], [0, 1, 0, -8], [0, 0, 1, 9], [0, 0, 0, 1]])
    );
}

#[test]
fn rotations_have_the_standard_layout() {
    assert_eq!(
        Mat4::rotate_x(3, 4),
        Mat4([[1, 0, 0, 0], [0, 3, -4, 0], [0, 4, 3, 0], [0, 0, 0, 1]])
    );
    assert_eq!(
        Mat4::rotate_y(3, 4),
        Mat4([[3, 0, 4, 0], [0, 1, 0, 0], [-4, 0, 3, 0], [0, 0, 0, 1]])
    );
    assert_eq!(
        Mat4::rotate_z(3, 4),
        Mat4([[3, -4, 0, 0], [4, 3, 0, 0], [0, 0, 1, 0], [0, 0, 0, 1]])
    );
}

#[test]
fn rotation_by_no_angle_is_identity() {
    assert_eq!(Mat4::rotate_x(1, 0), Mat4::identity());
    assert_eq!(Mat4::rotate_y(1, 0), Mat4::identity());
    assert_eq!(Mat4::rotate_z(1, 0), Mat4::identity());
}

#[test]
fn quarter_turns_are_right_handed() {
    let x = Vec4([1, 0, 0, 1]);
    let y = Vec4([0, 1, 0, 1]);
    let z = Vec4([0, 0, 1, 1]);
    assert_eq!(Mat4::rotate_z(0, 1).apply(x), y);
    assert_eq!(Mat4::rotate_x(0, 1).apply(y), z);
    assert_eq!(Mat4::rotate_y(0, 1).apply(z), x);
}

#[test]
fn rotate_z_undone_by_opposite_angle() {
    let turns = [(1, 0), (0, 1), (-1, 0), (0, -1)];
    for (c, s) in turns {
        assert_eq!(Mat4::rotate_z(c, s).multiply(Mat4::rotate_z(c, -s)), Mat4::identity());
        assert_eq!(Mat4::rotate_z(c, -s).multiply(Mat4::rotate_z(c, s)), Mat4::identity());
        assert_eq!(Mat4::rotate_x(c, s).multiply(Mat4::rotate_x(c, -s)), Mat4::identity());
        assert_eq!(Mat4::rotate_y(c, s).multiply(Mat4::rotate_y(c, -s)), Mat4::identity());
    }
}

#[test]
fn rotations_compose_by_angle_sum() {
    // (3, 4) and (5, 12) are cosine and sine scaled by 5 and by 13.
    let (c1, s1, c2, s2) = (3, 4, 5, 12);
    let (c, s) = (c1 * c2 - s1 * s2, s1 * c2 + c1 * s2);
    assert_eq!((c, s), (-33, 56));
    assert_eq!(Mat4::rotate_z(c1, s1).multiply(Mat4::rotate_z(c2, s2)), Mat4::rotate_z(c, s));
    assert_eq!(Mat4::rotate_x(c1, s1).multiply(Mat4::rotate_x(c2, s2)), Mat4::rotate_x(c, s));
    assert_eq!(Mat4::rotate_y(c1, s1).multiply(Mat4::rotate_y(c2, s2)), Mat4::rotate_y(c, s));
}

#[test]
fn quarter_turn_preserves_length() {
    let v = Vec4([3, -4, 12, 1]);
    for m in [Mat4::rotate_x(0, -1), Mat4::rotate_y(0, 1), Mat4::rotate_z(-1, 0)] {
        assert_eq!(m.apply(v).length_squared(), v.length_squared());
    }
    assert_eq!(Mat4::rotate_z(0, 1).apply(v), Vec4([4, 3, 12, 1]));
}

#[test]
fn multiply_has_row_by_column_entries() {
    assert_eq!(
        sample_a().multiply(sample_b()),
        Mat4([
            [-8, 22, 18, 2],
            [-8, 50, 38, 10],
            [-8, 78, 58, 18],
            [-8, 106, 78, 26],
        ])
    );
    assert_eq!(
        sample_b().multiply(sample_a()),
        Mat4([
            [32, 36, 40, 44],
            [-20, -20, -20, -20],
            [78, 88, 98, 108],
            [16, 16, 16, 16],
        ])
    );
}

#[test]
fn multiply_is_not_commutative() {
    assert_ne!(sample_a().multiply(sample_b()), sample_b().multiply(sample_a()));
    let t = Mat4::translate(1, 2, 3);
    let s = Mat4::scale(2, 2, 2);
    assert_eq!(
        t.multiply(s),
        Mat4([[2, 0, 0, 1], [0, 2, 0, 2], [0, 0, 2, 3], [0, 0, 0, 1]])
    );
    assert_eq!(
        s.multiply(t),
        Mat4([[2, 0, 0, 2], [0, 2, 0, 4], [0, 0, 2, 6], [0, 0, 0, 1]])
    );
}

#[test]
fn identity_is_neutral_on_both_sides() {
    for m in [sample_a(), sample_b(), sample_c(), Mat4::zero()] {
        assert_eq!(Mat4::identity().multiply(m), m);
        assert_eq!(m.multiply(Mat4::identity()), m);
    }
}

#[test]
fn multiply_is_associative() {
    let (a, b, c) = (sample_a(), sample_b(), sample_c());
    assert_eq!(a.multiply(b).multiply(c), a.multiply(b.multiply(c)));
}

#[test]
fn multiply_keeps_intermediate_products_exact() {
    let a = Mat4([[65536, 65536, 0, 0], [0, 1, 0, 0], [0, 0, 1, 0], [0, 0, 0, 1]]);
    let b = Mat4([[65536, 0, 0, 0], [-65536, 1, 0, 0], [0, 0, 1, 0], [0, 0, 0, 1]]);
    assert_eq!(
        a.multiply(b),
        Mat4([[0, 65536, 0, 0], [-65536, 1, 0, 0], [0, 0, 1, 0], [0, 0, 0, 1]])
    );
}

#[test]
fn apply_has_row_by_vector_components() {
    assert_eq!(sample_a().apply(Vec4([1, -1, 2, -2])), Vec4([-3, -3, -3, -3]));
    assert_eq!(sample_b().apply(Vec4([1, 2, 3, 4])), Vec4([11, -5, 27, 4]));
    assert_eq!(Mat4::zero().apply(Vec4([1, 2, 3, 4])), Vec4::zero());
    assert_eq!(Mat4::identity().apply(Vec4([1, 2, 3, 4])), Vec4([1, 2, 3, 4]));
}

#[test]
fn apply_of_product_is_successive_application() {
    let (a, b) = (sample_a(), sample_b());
    let v = Vec4([2, -3, 5, 1]);
    assert_eq!(a.multiply(b).apply(v), a.apply(b.apply(v)));
    assert_eq!(a.apply(b.apply(v)), Vec4([10, 34, 58, 82]));
}

#[test]
fn operators_agree_with_methods() {
    let (a, b) = (sample_a(), sample_b());
    let v = Vec4([2, -3, 5, 1]);
    assert_eq!(a * b, a.multiply(b));
    assert_eq!(a * v, a.apply(v));
}

#[test]
fn scale_multiplies_each_axis() {
    assert_eq!(Mat4::scale(2, 3, 4).apply(Vec4([5, 6, 7, 1])), Vec4([10, 18, 28, 1]));
    assert_eq!(Mat4::scale(2, 3, 4).apply(Vec4([5, 6, 7, 0])), Vec4([10, 18, 28, 0]));
    assert_eq!(Mat4::scale(-1, 0, 1).apply(Vec4([5, 6, 7, 9])), Vec4([-5, 0, 7, 9]));
}

#[test]
fn translate_moves_points_and_not_directions() {
    assert_eq!(Mat4::translate(1, 2, 3).apply(Vec4([10, 20, 30, 1])), Vec4([11, 22, 33, 1]));
    assert_eq!(Mat4::translate(1, 2, 3).apply(Vec4([10, 20, 30, 0])), Vec4([10, 20, 30, 0]));
}

#[test]
fn get_reads_row_then_column() {
    let m = sample_a();
    assert_eq!(m.get(0, 0), 1);
    assert_eq!(m.get(0, 3), 4);
    assert_eq!(m.get(3, 0), 13);
    assert_eq!(m.get(2, 1), 10);
}

#[test]
fn set_replaces_one_entry() {
    let mut m = Mat4::zero();
    m.set(1, 2, 7);
    assert_eq!(m, Mat4([[0, 0, 0, 0], [0, 0, 7, 0], [0, 0, 0, 0], [0, 0, 0, 0]]));
    m.set(3, 0, -1);
    assert_eq!(m, Mat4([[0, 0, 0, 0], [0, 0, 7, 0], [0, 0, 0, 0], [-1, 0, 0, 0]]));
}

fn transposed_apply(m: Mat4, p: Vec3) -> Vec4 {
    let mut t = Mat4::zero();
    for i in 0..4 {
        for j in 0..4 {
            t.set(i, j, m.get(j, i));
        }
    }
    t.apply(Vec4([p.get(0), p.get(1), p.get(2), 1]))
}

#[test]
fn view_frame_along_first_axis() {
    let eye = Vec3([1, 0, 0]);
    let m = Mat4::view_frame(eye, Vec3([0, 0, 0]), Vec3([0, 0, 1]));
    assert_eq!(m, Mat4([[0, 0, 1, 0], [1, 0, 0, 0], [0, 1, 0, 0], [0, 0, -1, 1]]));

    // The upper left block is orthonormal.
    let rows = [
        Vec3([m.get(0, 0), m.get(0, 1), m.get(0, 2)]),
        Vec3([m.get(1, 0), m.get(1, 1), m.get(1, 2)]),
        Vec3([m.get(2, 0), m.get(2, 1), m.get(2, 2)]),
    ];
    for i in 0..3 {
        for j in 0..3 {
            assert_eq!(rows[i].dot(rows[j]), if i == j { 1 } else { 0 });
        }
    }

    // The camera itself lands on the origin.
    assert_eq!(transposed_apply(m, eye), Vec4([0, 0, 0, 1]));
}

#[test]
fn view_frame_builds_axes_from_cross_products() {
    let eye = Vec3([4, 5, 6]);
    let center = Vec3([1, 1, 1]);
    let up = Vec3([0, 1, 1]);
    let z = eye.sub(center);
    let x = up.cross(z);
    let y = z.cross(x);
    assert_eq!(z, Vec3([3, 4, 5]));
    assert_eq!(x, Vec3([1, 3, -3]));
    assert_eq!(y, Vec3([-27, 14, 5]));
    let m = Mat4::view_frame(eye, center, up);
    assert_eq!(
        m,
        Mat4([[1, -27, 3, 0], [3, 14, 4, 0], [-3, 5, 5, 0], [-1, 8, -62, 1]])
    );
}

#[test]
fn view_frame_axes_are_orthogonal_for_slanted_up() {
    let eye = Vec3([4, 5, 6]);
    let center = Vec3([1, 1, 1]);
    let m = Mat4::view_frame(eye, center, Vec3([0, 1, 1]));
    let x = Vec3([m.get(0, 0), m.get(1, 0), m.get(2, 0)]);
    let y = Vec3([m.get(0, 1), m.get(1, 1), m.get(2, 1)]);
    let z = Vec3([m.get(0, 2), m.get(1, 2), m.get(2, 2)]);
    assert_eq!(x.dot(y), 0);
    assert_eq!(x.dot(z), 0);
    assert_eq!(y.dot(z), 0);
}

#[test]
fn view_frame_places_camera_and_target() {
    let eye = Vec3([4, 5, 6]);
    let center = Vec3([1, 1, 1]);
    let m = Mat4::view_frame(eye, center, Vec3([0, 1, 1]));
    assert_eq!(transposed_apply(m, eye), Vec4([0, 0, 0, 1]));
    assert_eq!(transposed_apply(m, center), Vec4([0, 0, -50, 1]));
}

#[test]
fn view_frame_degenerates_where_up_follows_the_line_of_sight() {
    let m = Mat4::view_frame(Vec3([0, 0, 5]), Vec3([0, 0, 0]), Vec3([0, 0, 1]));
    assert_eq!(m, Mat4([[0, 0, 0, 0], [0, 0, 0, 0], [0, 0, 5, 0], [0, 0, -25, 1]]));
    let n = Mat4::view_frame(Vec3([1, 2, 3]), Vec3([1, 2, 3]), Vec3([0, 1, 0]));
    assert_eq!(n, Mat4([[0, 0, 0, 0], [0, 0, 0, 0], [0, 0, 0, 0], [0, 0, 0, 1]]));
}

#[test]
fn index_reads_row_then_column() {
    let m = sample_a();
    assert_eq!(m[0], [1, 2, 3, 4]);
    assert_eq!(m[3], [13, 14, 15, 16]);
    assert_eq!(m[0][3], 4);
    assert_eq!(m[3][0], 13);
    assert_eq!(m[2][1], 10);
}

#[test]
fn view_frame_up_axis_length_is_product_of_the_others() {
    let m = Mat4::view_frame(Vec3([4, 5, 6]), Vec3([1, 1, 1]), Vec3([0, 1, 1]));
    let x = Vec3([m.get(0, 0), m.get(1, 0), m.get(2, 0)]);
    let y = Vec3([m.get(0, 1), m.get(1, 1), m.get(2, 1)]);
    let z = Vec3([m.get(0, 2), m.get(1, 2), m.get(2, 2)]);
    assert_eq!(y.length_squared(), 950);
    assert_eq!(y.length_squared(), z.length_squared() * x.length_squared());
}

#[test]
fn product_fits_tells_when_multiply_may_be_called() {
    assert!(sample_a().product_fits(sample_b()));
    let a = Mat4([[65536, 65536, 0, 0], [0, 1, 0, 0], [0, 0, 1, 0], [0, 0, 0, 1]]);
    let b = Mat4([[65536, 0, 0, 0], [-65536, 1, 0, 0], [0, 0, 1, 0], [0, 0, 0, 1]]);
    assert!(a.product_fits(b));
    assert!(!a.product_fits(a));
    assert!(!b.product_fits(b));
    let c = Mat4([[1, 0, 0, 0], [0, 1, 0, 0], [0, 0, 1, 0], [0, 0, 0, 46341]]);
    assert!(!c.product_fits(c));
    let d = Mat4([[1, 0, 0, 0], [0, 1, 0, 0], [0, 0, 1, 0], [0, 0, 0, 46340]]);
    assert!(d.product_fits(d));
    assert_eq!(d.multiply(d).get(3, 3), 2147395600);
}

#[test]
fn wide_entry_is_exact() {
    let m = Mat4([[i32::MIN; 4]; 4]);
    assert_eq!(m.wide_entry(m, 2, 1), 4 * (1i128 << 62));
    assert_eq!(sample_a().wide_entry(sample_b(), 1, 2), 38);
    assert_eq!(sample_a().wide_entry(sample_b(), 3, 3), 26);
}

#[test]
fn image_fits_tells_when_apply_may_be_called() {
    assert!(sample_a().image_fits(Vec4([1, -1, 2, -2])));
    let m = Mat4::scale(65536, 1, 1);
    assert!(m.image_fits(Vec4([32767, 0, 0, 1])));
    assert!(!m.image_fits(Vec4([32768, 0, 0, 1])));
    assert!(m.image_fits(Vec4([-32768, 0, 0, 1])));
    let t = Mat4::translate(0, 0, i32::MAX);
    assert!(t.image_fits(Vec4([0, 0, 0, 1])));
    assert!(!t.image_fits(Vec4([0, 0, 1, 1])));
}

#[test]
fn rotation_and_its_opposite_scale_the_plane() {
    // (3, 4) is five times a cosine and a sine: the plane is scaled by 25.
    assert_eq!(Mat4::rotate_z(3, 4).multiply(Mat4::rotate_z(3, -4)), Mat4::scale(25, 25, 1));
    assert_eq!(Mat4::rotate_z(3, -4).multiply(Mat4::rotate_z(3, 4)), Mat4::scale(25, 25, 1));
    assert_eq!(Mat4::rotate_x(3, 4).multiply(Mat4::rotate_x(3, -4)), Mat4::scale(1, 25, 25));
    assert_eq!(Mat4::rotate_y(3, 4).multiply(Mat4::rotate_y(3, -4)), Mat4::scale(25, 1, 25));
    assert_eq!(Mat4::rotate_z(0, 0).multiply(Mat4::rotate_z(0, 0)), Mat4::scale(0, 0, 1));
}

#[test]
fn apply_is_linear() {
    let m = sample_b();
    let v = Vec4([1, 2, 3, 4]);
    let w = Vec4([-5, 6, -7, 8]);
    assert_eq!(m.apply(v.add(w)), m.apply(v).add(m.apply(w)));
    assert_eq!(m.apply(v.add(w)), Vec4([32, -20, 24, 24]));
    let tripled = Vec4([3, 6, 9, 12]);
    let image = m.apply(v);
    assert_eq!(m.apply(tripled), Vec4([3 * image[0], 3 * image[1], 3 * image[2], 3 * image[3]]));
}

#[test]
fn translations_and_scalings_compose() {
    assert_eq!(
        Mat4::translate(1, 2, 3).multiply(Mat4::translate(10, -20, 30)),
        Mat4::translate(11, -18, 33)
    );
    assert_eq!(
        Mat4::scale(2, 3, 4).multiply(Mat4::scale(5, -6, 7)),
        Mat4::scale(10, -18, 28)
    );
}
