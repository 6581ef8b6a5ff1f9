use linalg::scalar::{fits, narrow, negation_fits, wide_dot, wide_product};
use linalg::{Vec3, Vec4};

#[test]
fn zero_vectors_hold_zeros() {
    assert_eq!(Vec3::zero(), Vec3([0, 0, 0]));
    assert_eq!(Vec4::zero(), Vec4([0, 0, 0, 0]));
}

#[test]
fn dot_sums_componentwise_products() {
    assert_eq!(Vec3([1, 2, 3]).dot(Vec3([4, -5, 6])), 12);
    assert_eq!(Vec4([1, 2, 3, 4]).dot(Vec4([5, 6, 7, 8])), 70);
    assert_eq!(Vec3([7, 8, 9]).dot(Vec3::zero()), 0);
}

#[test]
fn dot_is_commutative() {
    let a = Vec3([3, -7, 11]);
    let b = Vec3([-2, 5, 13]);
    assert_eq!(a.dot(b), b.dot(a));
    assert_eq!(a.dot(b), 102);
    let c = Vec4([1, -1, 2, -2]);
    let d = Vec4([9, 8, 7, 6]);
    assert_eq!(c.dot(d), d.dot(c));
    assert_eq!(c.dot(d), 3);
}

#[test]
fn dot_distributes_over_sum() {
    let a = Vec3([1, 2, 3]);
    let b = Vec3([-4, 5, -6]);
    let c = Vec3([7, -8, 9]);
    assert_eq!(a.add(b).dot(c), a.dot(c) + b.dot(c));
    assert_eq!(a.add(b).dot(c), -104);
}

#[test]
fn dot_keeps_intermediate_products_exact() {
    // Each product exceeds the range of a component; the sum does not.
    let a = Vec3([65536, 65536, 1]);
    let b = Vec3([65536, -65536, 5]);
    assert_eq!(a.dot(b), 5);
    let c = Vec4([i32::MAX, i32::MIN, i32::MAX, i32::MIN]);
    let d = Vec4([i32::MAX, i32::MAX, -i32::MAX, -i32::MAX]);
    assert_eq!(c.dot(d), 0);
}

#[test]
fn wide_dot_holds_what_a_component_cannot() {
    let a = [i32::MIN, i32::MIN, i32::MIN, i32::MIN];
    assert_eq!(wide_dot(&a, &a), 4 * (1i128 << 62));
    assert_eq!(wide_dot(&[], &[]), 0);
    assert_eq!(wide_dot(&[3, 4], &[5, 6]), 39);
    let long = [2; 9];
    assert_eq!(wide_dot(&long, &long), 36);
}

#[test]
fn wide_product_is_exact() {
    assert_eq!(wide_product(i32::MIN, i32::MIN), 1i128 << 62);
    assert_eq!(wide_product(i32::MAX, i32::MIN), -((1i128 << 62) - (1i128 << 31)));
    assert_eq!(wide_product(-3, 7), -21);
    assert_eq!(wide_product(0, i32::MAX), 0);
}

#[test]
fn narrow_keeps_the_value() {
    assert_eq!(narrow(0), 0);
    assert_eq!(narrow(2147483647), i32::MAX);
    assert_eq!(narrow(-2147483648), i32::MIN);
    assert_eq!(narrow(-17), -17);
}

#[test]
fn length_squared_is_dot_with_self() {
    assert_eq!(Vec3([3, 4, 12]).length_squared(), 169);
    assert_eq!(Vec4([1, 2, 3, 4]).length_squared(), 30);
    assert_eq!(Vec3([-3, -4, 0]).length_squared(), 25);
}

#[test]
fn length_squared_is_zero_for_zero_vector_only() {
    assert_eq!(Vec3::zero().length_squared(), 0);
    assert_eq!(Vec4::zero().length_squared(), 0);
    assert!(Vec3([0, 0, 1]).length_squared() > 0);
    assert!(Vec3([0, -1, 0]).length_squared() > 0);
    assert!(Vec4([0, 0, 0, -1]).length_squared() > 0);
}

#[test]
fn add_and_sub_are_componentwise() {
    assert_eq!(Vec3([1, 2, 3]).add(Vec3([10, 20, 30])), Vec3([11, 22, 33]));
    assert_eq!(Vec3([1, 2, 3]).sub(Vec3([10, 20, 30])), Vec3([-9, -18, -27]));
    assert_eq!(Vec4([1, 2, 3, 4]).add(Vec4([4, 3, 2, 1])), Vec4([5, 5, 5, 5]));
    assert_eq!(Vec4([1, 2, 3, 4]).sub(Vec4([4, 3, 2, 1])), Vec4([-3, -1, 1, 3]));
}

#[test]
fn add_and_sub_operators_agree_with_methods() {
    let a = Vec3([5, -6, 7]);
    let b = Vec3([-1, 2, -3]);
    assert_eq!(a + b, a.add(b));
    assert_eq!(a - b, a.sub(b));
    assert_eq!(a + b, Vec3([4, -4, 4]));
    assert_eq!(a - b, Vec3([6, -8, 10]));
    let c = Vec4([1, 1, 1, 1]);
    let d = Vec4([2, 3, 4, 5]);
    assert_eq!(c + d, Vec4([3, 4, 5, 6]));
    assert_eq!(c - d, Vec4([-1, -2, -3, -4]));
}

#[test]
fn add_reaches_the_limits_of_a_component() {
    let a = Vec3([i32::MAX - 1, i32::MIN + 1, 0]);
    let b = Vec3([1, -1, i32::MIN]);
    assert_eq!(a.add(b), Vec3([i32::MAX, i32::MIN, i32::MIN]));
    let c = Vec3([-1, 0, i32::MIN]);
    let d = Vec3([i32::MAX, i32::MAX, -1]);
    assert_eq!(c.sub(d), Vec3([i32::MIN, -i32::MAX, i32::MIN + 1]));
}

#[test]
fn vector_sum_laws_on_values() {
    let a = Vec3([1, -2, 3]);
    let b = Vec3([40, 50, -60]);
    let c = Vec3([-7, 8, 9]);
    assert_eq!(a.add(b), b.add(a));
    assert_eq!(a.add(b).add(c), a.add(b.add(c)));
    assert_eq!(a.add(Vec3::zero()), a);
    assert_eq!(a.add(b).sub(b), a);
    assert_eq!(a.sub(a), Vec3::zero());
}

#[test]
fn cross_of_axes() {
    let x = Vec3([1, 0, 0]);
    let y = Vec3([0, 1, 0]);
    let z = Vec3([0, 0, 1]);
    assert_eq!(x.cross(y), z);
    assert_eq!(y.cross(z), x);
    assert_eq!(z.cross(x), y);
    assert_eq!(y.cross(x), Vec3([0, 0, -1]));
}

#[test]
fn cross_has_the_standard_components() {
    assert_eq!(Vec3([1, 2, 3]).cross(Vec3([4, 5, 6])), Vec3([-3, 6, -3]));
    assert_eq!(Vec3([2, -3, 5]).cross(Vec3([-7, 11, 13])), Vec3([-94, -61, 1]));
}

#[test]
fn cross_is_orthogonal_to_both() {
    let a = Vec3([2, -3, 5]);
    let b = Vec3([-7, 11, 13]);
    let c = a.cross(b);
    assert_eq!(c.dot(a), 0);
    assert_eq!(c.dot(b), 0);
}

#[test]
fn cross_is_anticommutative() {
    let a = Vec3([2, -3, 5]);
    let b = Vec3([-7, 11, 13]);
    assert_eq!(a.cross(b), Vec3::zero().sub(b.cross(a)));
}

#[test]
fn cross_is_zero_for_parallel_vectors() {
    let a = Vec3([2, -4, 6]);
    assert_eq!(a.cross(Vec3([-3, 6, -9])), Vec3::zero());
    assert_eq!(a.cross(a), Vec3::zero());
    assert_eq!(a.cross(Vec3::zero()), Vec3::zero());
    assert_eq!(Vec3::zero().cross(a), Vec3::zero());
    assert_ne!(a.cross(Vec3([2, -4, 7])), Vec3::zero());
}

#[test]
fn cross_keeps_intermediate_products_exact() {
    // Both products of the first component exceed the range of a component.
    let a = Vec3([0, 65536, 65536]);
    let b = Vec3([0, 65537, 65536]);
    assert_eq!(a.cross(b), Vec3([-65536, 0, 0]));
    let c = Vec3([0, 65536, 0]);
    let d = Vec3([0, 0, 32767]);
    assert_eq!(c.cross(d), Vec3([2147418112, 0, 0]));
}

#[test]
fn get_reads_each_component() {
    let v = Vec3([7, 8, 9]);
    assert_eq!(v.get(0), 7);
    assert_eq!(v.get(1), 8);
    assert_eq!(v.get(2), 9);
    let w = Vec4([1, 2, 3, 4]);
    assert_eq!(w.get(0), 1);
    assert_eq!(w.get(3), 4);
}

#[test]
fn set_replaces_one_component() {
    let mut v = Vec3([7, 8, 9]);
    v.set(1, -1);
    assert_eq!(v, Vec3([7, -1, 9]));
    v.set(0, 5);
    v.set(2, 6);
    assert_eq!(v, Vec3([5, -1, 6]));
    let mut w = Vec4::zero();
    w.set(3, 1);
    assert_eq!(w, Vec4([0, 0, 0, 1]));
}

#[test]
fn index_reads_each_component() {
    let v = Vec3([7, 8, 9]);
    assert_eq!(v[0], 7);
    assert_eq!(v[1], 8);
    assert_eq!(v[2], 9);
    let w = Vec4([1, 2, 3, 4]);
    assert_eq!(w[0], 1);
    assert_eq!(w[3], 4);
}

#[test]
fn cross_length_from_lengths_and_dot() {
    let a = Vec3([2, -3, 5]);
    let b = Vec3([-7, 11, 13]);
    let c = a.cross(b);
    assert_eq!(c.length_squared(), 12558);
    assert_eq!(
        c.length_squared(),
        a.length_squared() * b.length_squared() - a.dot(b) * a.dot(b)
    );
}

#[test]
fn fits_tells_what_a_component_holds() {
    assert!(fits(0));
    assert!(fits(2147483647));
    assert!(fits(-2147483648));
    assert!(!fits(2147483648));
    assert!(!fits(-2147483649));
    assert!(!fits(i128::MAX));
    assert!(!fits(i128::MIN));
    assert!(negation_fits(0));
    assert!(negation_fits(i32::MAX));
    assert!(negation_fits(i32::MIN + 1));
    assert!(!negation_fits(i32::MIN));
}

#[test]
fn sum_and_difference_fit_within_the_limits() {
    let a = Vec3([i32::MAX - 1, i32::MIN + 1, 0]);
    let b = Vec3([1, -1, i32::MIN]);
    assert!(a.sum_fits(b));
    assert!(!a.sum_fits(Vec3([2, 0, 0])));
    assert!(!a.sum_fits(Vec3([0, -2, 0])));
    assert!(!Vec3([0, 0, -1]).sum_fits(b));
    let c = Vec3([-1, 0, i32::MIN]);
    let d = Vec3([i32::MAX, i32::MAX, -1]);
    assert!(c.difference_fits(d));
    // The third difference is one more than a component holds.
    assert!(!Vec3([-1, 0, i32::MAX]).difference_fits(d));
    assert!(!Vec3([-2, 0, 0]).difference_fits(d));
    let e = Vec4([0, 0, 0, i32::MAX]);
    assert!(e.sum_fits(Vec4([1, 2, 3, 0])));
    assert!(!e.sum_fits(Vec4([0, 0, 0, 1])));
    assert!(e.difference_fits(Vec4([0, 0, 0, 1])));
    assert!(!e.difference_fits(Vec4([0, 0, 0, -1])));
}

#[test]
fn dot_fits_within_the_limits() {
    assert!(Vec3([1, 2, 3]).dot_fits(Vec3([4, 5, 6])));
    assert!(Vec3([65536, 65536, 1]).dot_fits(Vec3([65536, -65536, 5])));
    assert!(!Vec3([65536, 0, 0]).dot_fits(Vec3([32768, 0, 0])));
    assert!(Vec3([65536, 0, 0]).dot_fits(Vec3([-32768, 0, 0])));
    assert!(Vec3([46340, 0, 0]).dot_fits(Vec3([46340, 0, 0])));
    assert!(!Vec3([46341, 0, 0]).dot_fits(Vec3([46341, 0, 0])));
    assert!(Vec4([1, 1, 1, 46340]).dot_fits(Vec4([1, 1, 1, 46340])));
    assert!(!Vec4([0, 0, 0, i32::MIN]).dot_fits(Vec4([0, 0, 0, i32::MIN])));
}

#[test]
fn cross_fits_within_the_limits() {
    assert!(Vec3([1, 2, 3]).cross_fits(Vec3([4, 5, 6])));
    assert!(Vec3([0, 65536, 65536]).cross_fits(Vec3([0, 65537, 65536])));
    assert!(Vec3([0, 65536, 0]).cross_fits(Vec3([0, 0, 32767])));
    assert!(!Vec3([0, 65536, 0]).cross_fits(Vec3([0, 0, 32768])));
    assert!(Vec3([0, 65536, 0]).cross_fits(Vec3([0, 0, -32768])));
    assert!(Vec3([65536, 0, 0]).cross_fits(Vec3([0, 0, 32768])));
    assert!(!Vec3([65536, 0, 0]).cross_fits(Vec3([0, 32768, 0])));
}

#[test]
fn cross_is_bilinear() {
    let a = Vec3([1, -2, 3]);
    let b = Vec3([4, 5, -6]);
    let c = Vec3([-7, 8, 9]);
    assert_eq!(a.add(b).cross(c), a.cross(c).add(b.cross(c)));
    assert_eq!(c.cross(a.add(b)), c.cross(a).add(c.cross(b)));
    assert_eq!(a.add(b).cross(c), Vec3([51, -24, 61]));
    let doubled = Vec3([2, -4, 6]);
    let product = a.cross(b);
    assert_eq!(doubled.cross(b), Vec3([2 * product[0], 2 * product[1], 2 * product[2]]));
    assert_eq!(b.cross(doubled), Vec3([-2 * product[0], -2 * product[1], -2 * product[2]]));
}
