//! Theorems that relate the operations of the library to one another. Each is
//! stated over the mathematical model, and so holds of the views of all
//! vectors and matrices.

use crate::algebra::{
    column, cross, depth_axis, dot, dot_prefix, identity, is_matrix, mat_apply, mat_mul, point,
    right_axis, rotation_x, rotation_y, rotation_z, scaling, translation, transpose, up_axis,
    vec_add, vec_scale, vec_sub, view_frame, zero_vector,
};
use crate::expansion::{lemma_dot_of_four, lemma_dot_of_three, lemma_dot_of_values};
use vstd::arithmetic::mul::lemma_mul_is_associative;
use vstd::prelude::*;

verus! {

/// A sum of four terms times a factor is the sum of the four products.
proof fn lemma_sum_times(x0: int, x1: int, x2: int, x3: int, y: int)
    by (nonlinear_arith)
    ensures
        (x0 + x1 + x2 + x3) * y == x0 * y + x1 * y + x2 * y + x3 * y,
{
}

/// A factor times a sum of four terms is the sum of the four products.
proof fn lemma_times_sum(y: int, x0: int, x1: int, x2: int, x3: int)
    by (nonlinear_arith)
    ensures
        y * (x0 + x1 + x2 + x3) == y * x0 + y * x1 + y * x2 + y * x3,
{
}

/// The square of a difference.
proof fn lemma_square_of_difference(p: int, q: int)
    by (nonlinear_arith)
    ensures
        (p - q) * (p - q) == p * p - 2 * (p * q) + q * q,
{
}

/// The product of two sums of three terms is the sum of the nine products.
proof fn lemma_product_of_sums(x0: int, x1: int, x2: int, y0: int, y1: int, y2: int)
    by (nonlinear_arith)
    ensures
        (x0 + x1 + x2) * (y0 + y1 + y2) == x0 * y0 + x0 * y1 + x0 * y2 + x1 * y0 + x1 * y1 + x1
            * y2 + x2 * y0 + x2 * y1 + x2 * y2,
{
}

/// The product of two squares is the square of the product.
proof fn lemma_product_of_squares(x: int, y: int)
    by (nonlinear_arith)
    ensures
        (x * x) * (y * y) == (x * y) * (x * y),
{
}

/// In a product of two products, the second factors may change places.
proof fn lemma_exchange_factors(x: int, y: int, u: int, v: int)
    by (nonlinear_arith)
    ensures
        (x * y) * (u * v) == (x * v) * (u * y),
{
}

/// Two translations compose to the translation by the sum of their offsets,
/// and two scalings to the scaling by the products of their factors.
pub proof fn lemma_translations_and_scalings_compose(
    a: int,
    b: int,
    c: int,
    x: int,
    y: int,
    z: int,
)
    ensures
        mat_mul(translation(a, b, c), translation(x, y, z)) == translation(a + x, b + y, c + z),
        mat_mul(scaling(a, b, c), scaling(x, y, z)) == scaling(a * x, b * y, c * z),
{
    let t = translation(a, b, c);
    let u = translation(x, y, z);
    lemma_dot_of_values(t[0], column(u, 0), 1, 0, 0, a, 1, 0, 0, 0);
    lemma_dot_of_values(t[0], column(u, 1), 1, 0, 0, a, 0, 1, 0, 0);
    lemma_dot_of_values(t[0], column(u, 2), 1, 0, 0, a, 0, 0, 1, 0);
    lemma_dot_of_values(t[0], column(u, 3), 1, 0, 0, a, x, y, z, 1);
    lemma_dot_of_values(t[1], column(u, 0), 0, 1, 0, b, 1, 0, 0, 0);
    lemma_dot_of_values(t[1], column(u, 1), 0, 1, 0, b, 0, 1, 0, 0);
    lemma_dot_of_values(t[1], column(u, 2), 0, 1, 0, b, 0, 0, 1, 0);
    lemma_dot_of_values(t[1], column(u, 3), 0, 1, 0, b, x, y, z, 1);
    lemma_dot_of_values(t[2], column(u, 0), 0, 0, 1, c, 1, 0, 0, 0);
    lemma_dot_of_values(t[2], column(u, 1), 0, 0, 1, c, 0, 1, 0, 0);
    lemma_dot_of_values(t[2], column(u, 2), 0, 0, 1, c, 0, 0, 1, 0);
    lemma_dot_of_values(t[2], column(u, 3), 0, 0, 1, c, x, y, z, 1);
    lemma_dot_of_values(t[3], column(u, 0), 0, 0, 0, 1, 1, 0, 0, 0);
    lemma_dot_of_values(t[3], column(u, 1), 0, 0, 0, 1, 0, 1, 0, 0);
    lemma_dot_of_values(t[3], column(u, 2), 0, 0, 0, 1, 0, 0, 1, 0);
    lemma_dot_of_values(t[3], column(u, 3), 0, 0, 0, 1, x, y, z, 1);
    assert(mat_mul(t, u) =~~= translation(a + x, b + y, c + z));
    let s = scaling(a, b, c);
    let r = scaling(x, y, z);
    lemma_dot_of_values(s[0], column(r, 0), a, 0, 0, 0, x, 0, 0, 0);
    lemma_dot_of_values(s[0], column(r, 1), a, 0, 0, 0, 0, y, 0, 0);
    lemma_dot_of_values(s[0], column(r, 2), a, 0, 0, 0, 0, 0, z, 0);
    lemma_dot_of_values(s[0], column(r, 3), a, 0, 0, 0, 0, 0, 0, 1);
    lemma_dot_of_values(s[1], column(r, 0), 0, b, 0, 0, x, 0, 0, 0);
    lemma_dot_of_values(s[1], column(r, 1), 0, b, 0, 0, 0, y, 0, 0);
    lemma_dot_of_values(s[1], column(r, 2), 0, b, 0, 0, 0, 0, z, 0);
    lemma_dot_of_values(s[1], column(r, 3), 0, b, 0, 0, 0, 0, 0, 1);
    lemma_dot_of_values(s[2], column(r, 0), 0, 0, c, 0, x, 0, 0, 0);
    lemma_dot_of_values(s[2], column(r, 1), 0, 0, c, 0, 0, y, 0, 0);
    lemma_dot_of_values(s[2], column(r, 2), 0, 0, c, 0, 0, 0, z, 0);
    lemma_dot_of_values(s[2], column(r, 3), 0, 0, c, 0, 0, 0, 0, 1);
    lemma_dot_of_values(s[3], column(r, 0), 0, 0, 0, 1, x, 0, 0, 0);
    lemma_dot_of_values(s[3], column(r, 1), 0, 0, 0, 1, 0, y, 0, 0);
    lemma_dot_of_values(s[3], column(r, 2), 0, 0, 0, 1, 0, 0, z, 0);
    lemma_dot_of_values(s[3], column(r, 3), 0, 0, 0, 1, 0, 0, 0, 1);
    assert(mat_mul(s, r) =~~= scaling(a * x, b * y, c * z));
}

/// Negation moves out of a product, from either factor.
proof fn lemma_negated_factor(x: int, y: int)
    by (nonlinear_arith)
    ensures
        (-x) * y == -(x * y),
        x * (-y) == -(x * y),
{
}

/// A partial sum of squares is never negative, and zero exactly when every
/// component that it covers is zero.
pub proof fn lemma_dot_prefix_self(v: Seq<int>, n: nat)
    requires
        n <= v.len(),
    ensures
        dot_prefix(v, v, n) >= 0,
        dot_prefix(v, v, n) == 0 <==> (forall|k: int| 0 <= k < n ==> v[k] == 0),
    decreases n,
{
    if n > 0 {
        lemma_dot_prefix_self(v, (n - 1) as nat);
        let x = v[n - 1];
        assert(x * x >= 0 && (x * x == 0 <==> x == 0)) by (nonlinear_arith);
    }
}

/// The dot product of a vector with itself is never negative, and zero for
/// the zero vector alone.
pub proof fn lemma_dot_self(v: Seq<int>)
    ensures
        dot(v, v) >= 0,
        dot(v, v) == 0 <==> v == zero_vector(v.len()),
{
    lemma_dot_prefix_self(v, v.len());
    if dot(v, v) == 0 {
        assert(v =~= zero_vector(v.len()));
    }
}

/// Partial dot products do not depend on the order of the two vectors.
pub proof fn lemma_dot_prefix_commutative(a: Seq<int>, b: Seq<int>, n: nat)
    ensures
        dot_prefix(a, b, n) == dot_prefix(b, a, n),
    decreases n,
{
    if n > 0 {
        lemma_dot_prefix_commutative(a, b, (n - 1) as nat);
        assert(a[n - 1] * b[n - 1] == b[n - 1] * a[n - 1]) by (nonlinear_arith);
    }
}

/// The dot product is commutative.
pub proof fn lemma_dot_commutative(a: Seq<int>, b: Seq<int>)
    requires
        a.len() == b.len(),
    ensures
        dot(a, b) == dot(b, a),
{
    lemma_dot_prefix_commutative(a, b, a.len());
}

/// Partial dot products distribute over the sum of vectors.
pub proof fn lemma_dot_prefix_distributes(a: Seq<int>, b: Seq<int>, c: Seq<int>, n: nat)
    requires
        n <= a.len(),
    ensures
        dot_prefix(vec_add(a, b), c, n) == dot_prefix(a, c, n) + dot_prefix(b, c, n),
    decreases n,
{
    if n > 0 {
        lemma_dot_prefix_distributes(a, b, c, (n - 1) as nat);
        let x = a[n - 1];
        let y = b[n - 1];
        let z = c[n - 1];
        assert((x + y) * z == x * z + y * z) by (nonlinear_arith);
    }
}

/// The dot product is linear in its first argument: it distributes over the
/// sum of vectors. By commutativity the same holds of the second argument.
pub proof fn lemma_dot_distributes(a: Seq<int>, b: Seq<int>, c: Seq<int>)
    requires
        a.len() == b.len(),
    ensures
        dot(vec_add(a, b), c) == dot(a, c) + dot(b, c),
{
    lemma_dot_prefix_distributes(a, b, c, a.len());
}

/// Partial dot products take a common factor of the first vector out.
pub proof fn lemma_dot_prefix_scales(k: int, a: Seq<int>, b: Seq<int>, n: nat)
    requires
        n <= a.len(),
    ensures
        dot_prefix(vec_scale(k, a), b, n) == k * dot_prefix(a, b, n),
    decreases n,
{
    if n > 0 {
        lemma_dot_prefix_scales(k, a, b, (n - 1) as nat);
        let x = a[n - 1];
        let y = b[n - 1];
        let rest = dot_prefix(a, b, (n - 1) as nat);
        assert(k * rest + (k * x) * y == k * (rest + x * y)) by (nonlinear_arith);
    }
}

/// The dot product is homogeneous in its first argument: a common factor of
/// the components moves out. With `lemma_dot_distributes` and commutativity
/// this makes the dot product bilinear.
pub proof fn lemma_dot_scales(k: int, a: Seq<int>, b: Seq<int>)
    ensures
        dot(vec_scale(k, a), b) == k * dot(a, b),
{
    lemma_dot_prefix_scales(k, a, b, a.len());
}

/// The sum of vectors is commutative and associative, and subtracting a
/// vector undoes adding it.
pub proof fn lemma_vector_sum(a: Seq<int>, b: Seq<int>, c: Seq<int>)
    requires
        a.len() == b.len(),
        b.len() == c.len(),
    ensures
        vec_add(a, b) == vec_add(b, a),
        vec_add(vec_add(a, b), c) == vec_add(a, vec_add(b, c)),
        vec_add(a, zero_vector(a.len())) == a,
        vec_sub(vec_add(a, b), b) == a,
        vec_sub(a, a) == zero_vector(a.len()),
{
    assert(vec_add(a, b) =~= vec_add(b, a));
    assert(vec_add(vec_add(a, b), c) =~= vec_add(a, vec_add(b, c)));
    assert(vec_add(a, zero_vector(a.len())) =~= a);
    assert(vec_sub(vec_add(a, b), b) =~= a);
    assert(vec_sub(a, a) =~= zero_vector(a.len()));
}

/// The cross product of two vectors is perpendicular to both of them.
pub proof fn lemma_cross_orthogonal(a: Seq<int>, b: Seq<int>)
    requires
        a.len() == 3,
        b.len() == 3,
    ensures
        dot(cross(a, b), a) == 0,
        dot(cross(a, b), b) == 0,
{
    let c = cross(a, b);
    lemma_dot_of_three(c, a);
    lemma_dot_of_three(c, b);
    let (a0, a1, a2) = (a[0], a[1], a[2]);
    let (b0, b1, b2) = (b[0], b[1], b[2]);
    assert((a1 * b2 - a2 * b1) * a0 + (a2 * b0 - a0 * b2) * a1 + (a0 * b1 - a1 * b0) * a2 == 0)
        by (nonlinear_arith);
    assert((a1 * b2 - a2 * b1) * b0 + (a2 * b0 - a0 * b2) * b1 + (a0 * b1 - a1 * b0) * b2 == 0)
        by (nonlinear_arith);
}

/// The squared length of a cross product is the product of the squared
/// lengths of the two vectors less the square of their dot product.
pub proof fn lemma_cross_length(a: Seq<int>, b: Seq<int>)
    requires
        a.len() == 3,
        b.len() == 3,
    ensures
        dot(cross(a, b), cross(a, b)) == dot(a, a) * dot(b, b) - dot(a, b) * dot(a, b),
{
    let c = cross(a, b);
    lemma_dot_of_three(c, c);
    lemma_dot_of_three(a, a);
    lemma_dot_of_three(b, b);
    lemma_dot_of_three(a, b);
    let (a0, a1, a2) = (a[0], a[1], a[2]);
    let (b0, b1, b2) = (b[0], b[1], b[2]);
    // The square of each component of the cross product.
    lemma_square_of_difference(a1 * b2, a2 * b1);
    lemma_square_of_difference(a2 * b0, a0 * b2);
    lemma_square_of_difference(a0 * b1, a1 * b0);
    // The product of the two squared lengths, term by term.
    lemma_product_of_sums(a0 * a0, a1 * a1, a2 * a2, b0 * b0, b1 * b1, b2 * b2);
    lemma_product_of_squares(a0, b0);
    lemma_product_of_squares(a0, b1);
    lemma_product_of_squares(a0, b2);
    lemma_product_of_squares(a1, b0);
    lemma_product_of_squares(a1, b1);
    lemma_product_of_squares(a1, b2);
    lemma_product_of_squares(a2, b0);
    lemma_product_of_squares(a2, b1);
    lemma_product_of_squares(a2, b2);
    // The square of the dot product, term by term.
    lemma_product_of_sums(a0 * b0, a1 * b1, a2 * b2, a0 * b0, a1 * b1, a2 * b2);
    lemma_exchange_factors(a0, b0, a1, b1);
    lemma_exchange_factors(a0, b0, a2, b2);
    lemma_exchange_factors(a1, b1, a2, b2);
}

/// A common factor of either vector moves out of the cross product.
pub proof fn lemma_cross_scales(k: int, a: Seq<int>, b: Seq<int>)
    requires
        a.len() == 3,
        b.len() == 3,
    ensures
        cross(vec_scale(k, a), b) == vec_scale(k, cross(a, b)),
        cross(a, vec_scale(k, b)) == vec_scale(k, cross(a, b)),
{
    let (a0, a1, a2) = (a[0], a[1], a[2]);
    let (b0, b1, b2) = (b[0], b[1], b[2]);
    assert((k * a1) * b2 - (k * a2) * b1 == k * (a1 * b2 - a2 * b1) && (k * a2) * b0 - (k * a0)
        * b2 == k * (a2 * b0 - a0 * b2) && (k * a0) * b1 - (k * a1) * b0 == k * (a0 * b1 - a1
        * b0)) by (nonlinear_arith);
    assert(a1 * (k * b2) - a2 * (k * b1) == k * (a1 * b2 - a2 * b1) && a2 * (k * b0) - a0 * (k
        * b2) == k * (a2 * b0 - a0 * b2) && a0 * (k * b1) - a1 * (k * b0) == k * (a0 * b1 - a1
        * b0)) by (nonlinear_arith);
    assert(cross(vec_scale(k, a), b) =~= vec_scale(k, cross(a, b)));
    assert(cross(a, vec_scale(k, b)) =~= vec_scale(k, cross(a, b)));
}

/// The cross product distributes over the sum of vectors, in either
/// argument. With `lemma_cross_scales` this makes it bilinear.
pub proof fn lemma_cross_distributes(a: Seq<int>, b: Seq<int>, c: Seq<int>)
    requires
        a.len() == 3,
        b.len() == 3,
        c.len() == 3,
    ensures
        cross(vec_add(a, b), c) == vec_add(cross(a, c), cross(b, c)),
        cross(c, vec_add(a, b)) == vec_add(cross(c, a), cross(c, b)),
{
    let (a0, a1, a2) = (a[0], a[1], a[2]);
    let (b0, b1, b2) = (b[0], b[1], b[2]);
    let (c0, c1, c2) = (c[0], c[1], c[2]);
    assert((a1 + b1) * c2 - (a2 + b2) * c1 == (a1 * c2 - a2 * c1) + (b1 * c2 - b2 * c1) && (a2
        + b2) * c0 - (a0 + b0) * c2 == (a2 * c0 - a0 * c2) + (b2 * c0 - b0 * c2) && (a0 + b0) * c1
        - (a1 + b1) * c0 == (a0 * c1 - a1 * c0) + (b0 * c1 - b1 * c0)) by (nonlinear_arith);
    assert(c1 * (a2 + b2) - c2 * (a1 + b1) == (c1 * a2 - c2 * a1) + (c1 * b2 - c2 * b1) && c2 * (a0
        + b0) - c0 * (a2 + b2) == (c2 * a0 - c0 * a2) + (c2 * b0 - c0 * b2) && c0 * (a1 + b1) - c1
        * (a0 + b0) == (c0 * a1 - c1 * a0) + (c0 * b1 - c1 * b0)) by (nonlinear_arith);
    assert(cross(vec_add(a, b), c) =~= vec_add(cross(a, c), cross(b, c)));
    assert(cross(c, vec_add(a, b)) =~= vec_add(cross(c, a), cross(c, b)));
}

/// The cross product is anticommutative: exchanging the two vectors negates
/// every component.
pub proof fn lemma_cross_anticommutative(a: Seq<int>, b: Seq<int>)
    requires
        a.len() == 3,
        b.len() == 3,
    ensures
        cross(a, b) == vec_sub(zero_vector(3), cross(b, a)),
{
    let (a0, a1, a2) = (a[0], a[1], a[2]);
    let (b0, b1, b2) = (b[0], b[1], b[2]);
    assert(a1 * b2 - a2 * b1 == 0 - (b1 * a2 - b2 * a1)) by (nonlinear_arith);
    assert(a2 * b0 - a0 * b2 == 0 - (b2 * a0 - b0 * a2)) by (nonlinear_arith);
    assert(a0 * b1 - a1 * b0 == 0 - (b0 * a1 - b1 * a0)) by (nonlinear_arith);
    assert(cross(a, b) =~= vec_sub(zero_vector(3), cross(b, a)));
}

/// Whether two vectors of three components are parallel: some multiple of
/// one equals some multiple of the other, the two factors not both zero.
/// The zero vector is parallel to every vector.
pub open spec fn parallel(a: Seq<int>, b: Seq<int>) -> bool {
    exists|s: int, t: int|
        (s != 0 || t != 0) && #[trigger] scaled_alike(a, b, s, t)
}

/// Whether `s` times `a` equals `t` times `b`, component by component.
pub open spec fn scaled_alike(a: Seq<int>, b: Seq<int>, s: int, t: int) -> bool {
    s * a[0] == t * b[0] && s * a[1] == t * b[1] && s * a[2] == t * b[2]
}

/// The cross product of two vectors is the zero vector exactly when the two
/// are parallel.
pub proof fn lemma_cross_zero_iff_parallel(a: Seq<int>, b: Seq<int>)
    requires
        a.len() == 3,
        b.len() == 3,
    ensures
        cross(a, b) == zero_vector(3) <==> parallel(a, b),
{
    let (a0, a1, a2) = (a[0], a[1], a[2]);
    let (b0, b1, b2) = (b[0], b[1], b[2]);
    let c = cross(a, b);
    if parallel(a, b) {
        let (s, t) = choose|s: int, t: int|
            (s != 0 || t != 0) && #[trigger] scaled_alike(a, b, s, t);
        assert(scaled_alike(a, b, s, t));
        if s != 0 {
            assert(a1 * b2 - a2 * b1 == 0 && a2 * b0 - a0 * b2 == 0 && a0 * b1 - a1 * b0 == 0)
                by (nonlinear_arith)
                requires
                    s != 0,
                    s * a0 == t * b0,
                    s * a1 == t * b1,
                    s * a2 == t * b2,
            {
                assert(s * (a1 * b2 - a2 * b1) == (s * a1) * b2 - (s * a2) * b1);
                assert(s * (a2 * b0 - a0 * b2) == (s * a2) * b0 - (s * a0) * b2);
                assert(s * (a0 * b1 - a1 * b0) == (s * a0) * b1 - (s * a1) * b0);
                assert((t * b1) * b2 - (t * b2) * b1 == 0);
                assert((t * b2) * b0 - (t * b0) * b2 == 0);
                assert((t * b0) * b1 - (t * b1) * b0 == 0);
            }
        } else {
            assert(b0 == 0 && b1 == 0 && b2 == 0) by (nonlinear_arith)
                requires
                    t != 0,
                    0 == t * b0,
                    0 == t * b1,
                    0 == t * b2,
            ;
            assert(a1 * b2 - a2 * b1 == 0 && a2 * b0 - a0 * b2 == 0 && a0 * b1 - a1 * b0 == 0)
                by (nonlinear_arith)
                requires
                    b0 == 0,
                    b1 == 0,
                    b2 == 0,
            ;
        }
        assert(c =~= zero_vector(3));
    }
    if c == zero_vector(3) {
        assert(c[0] == 0 && c[1] == 0 && c[2] == 0);
        if a0 != 0 {
            assert(scaled_alike(a, b, b0, a0)) by (nonlinear_arith)
                requires
                    a2 * b0 - a0 * b2 == 0,
                    a0 * b1 - a1 * b0 == 0,
                    a0 == a[0] && a1 == a[1] && a2 == a[2],
                    b0 == b[0] && b1 == b[1] && b2 == b[2],
            ;
        } else if a1 != 0 {
            assert(scaled_alike(a, b, b1, a1)) by (nonlinear_arith)
                requires
                    a1 * b2 - a2 * b1 == 0,
                    a0 * b1 - a1 * b0 == 0,
                    a0 == a[0] && a1 == a[1] && a2 == a[2],
                    b0 == b[0] && b1 == b[1] && b2 == b[2],
            ;
        } else if a2 != 0 {
            assert(scaled_alike(a, b, b2, a2)) by (nonlinear_arith)
                requires
                    a1 * b2 - a2 * b1 == 0,
                    a2 * b0 - a0 * b2 == 0,
                    a0 == a[0] && a1 == a[1] && a2 == a[2],
                    b0 == b[0] && b1 == b[1] && b2 == b[2],
            ;
        } else {
            assert(scaled_alike(a, b, 1, 0));
        }
    }
}

/// The identity matrix is the neutral element of the matrix product, on
/// either side.
pub proof fn lemma_identity_neutral(a: Seq<Seq<int>>)
    requires
        is_matrix(a),
    ensures
        mat_mul(identity(), a) == a,
        mat_mul(a, identity()) == a,
{
    let left = mat_mul(identity(), a);
    let right = mat_mul(a, identity());
    assert forall|i: int, j: int| 0 <= i < 4 && 0 <= j < 4 implies #[trigger] left[i][j]
        == a[i][j] by {
        let e = identity()[i];
        let c = column(a, j);
        if i == 0 {
            lemma_dot_of_values(e, c, 1, 0, 0, 0, c[0], c[1], c[2], c[3]);
        } else if i == 1 {
            lemma_dot_of_values(e, c, 0, 1, 0, 0, c[0], c[1], c[2], c[3]);
        } else if i == 2 {
            lemma_dot_of_values(e, c, 0, 0, 1, 0, c[0], c[1], c[2], c[3]);
        } else {
            lemma_dot_of_values(e, c, 0, 0, 0, 1, c[0], c[1], c[2], c[3]);
        }
    }
    assert forall|i: int, j: int| 0 <= i < 4 && 0 <= j < 4 implies #[trigger] right[i][j]
        == a[i][j] by {
        let r = a[i];
        let e = column(identity(), j);
        if j == 0 {
            lemma_dot_of_values(r, e, r[0], r[1], r[2], r[3], 1, 0, 0, 0);
        } else if j == 1 {
            lemma_dot_of_values(r, e, r[0], r[1], r[2], r[3], 0, 1, 0, 0);
        } else if j == 2 {
            lemma_dot_of_values(r, e, r[0], r[1], r[2], r[3], 0, 0, 1, 0);
        } else {
            lemma_dot_of_values(r, e, r[0], r[1], r[2], r[3], 0, 0, 0, 1);
        }
    }
    assert(left =~~= a);
    assert(right =~~= a);
}

/// A row taken through a matrix product: the dot product of the row
/// `(dot(r, column(b, 0)), .., dot(r, column(b, 3)))` with `v` equals the dot
/// product of `r` with the image of `v` under `b`.
pub proof fn lemma_row_through_product(r: Seq<int>, b: Seq<Seq<int>>, v: Seq<int>)
    requires
        r.len() == 4,
        is_matrix(b),
        v.len() == 4,
    ensures
        dot(Seq::new(4, |j: int| dot(r, column(b, j))), v) == dot(r, mat_apply(b, v)),
{
    let rb = Seq::new(4, |j: int| dot(r, column(b, j)));
    let bv = mat_apply(b, v);
    lemma_dot_of_four(rb, v);
    lemma_dot_of_four(r, bv);
    lemma_dot_of_four(r, column(b, 0));
    lemma_dot_of_four(r, column(b, 1));
    lemma_dot_of_four(r, column(b, 2));
    lemma_dot_of_four(r, column(b, 3));
    lemma_dot_of_four(b[0], v);
    lemma_dot_of_four(b[1], v);
    lemma_dot_of_four(b[2], v);
    lemma_dot_of_four(b[3], v);
    let (r0, r1, r2, r3) = (r[0], r[1], r[2], r[3]);
    let (v0, v1, v2, v3) = (v[0], v[1], v[2], v[3]);
    let (b00, b01, b02, b03) = (b[0][0], b[0][1], b[0][2], b[0][3]);
    let (b10, b11, b12, b13) = (b[1][0], b[1][1], b[1][2], b[1][3]);
    let (b20, b21, b22, b23) = (b[2][0], b[2][1], b[2][2], b[2][3]);
    let (b30, b31, b32, b33) = (b[3][0], b[3][1], b[3][2], b[3][3]);
    lemma_sum_times(r0 * b00, r1 * b10, r2 * b20, r3 * b30, v0);
    lemma_sum_times(r0 * b01, r1 * b11, r2 * b21, r3 * b31, v1);
    lemma_sum_times(r0 * b02, r1 * b12, r2 * b22, r3 * b32, v2);
    lemma_sum_times(r0 * b03, r1 * b13, r2 * b23, r3 * b33, v3);
    lemma_times_sum(r0, b00 * v0, b01 * v1, b02 * v2, b03 * v3);
    lemma_times_sum(r1, b10 * v0, b11 * v1, b12 * v2, b13 * v3);
    lemma_times_sum(r2, b20 * v0, b21 * v1, b22 * v2, b23 * v3);
    lemma_times_sum(r3, b30 * v0, b31 * v1, b32 * v2, b33 * v3);
    lemma_mul_is_associative(r0, b00, v0);
    lemma_mul_is_associative(r0, b01, v1);
    lemma_mul_is_associative(r0, b02, v2);
    lemma_mul_is_associative(r0, b03, v3);
    lemma_mul_is_associative(r1, b10, v0);
    lemma_mul_is_associative(r1, b11, v1);
    lemma_mul_is_associative(r1, b12, v2);
    lemma_mul_is_associative(r1, b13, v3);
    lemma_mul_is_associative(r2, b20, v0);
    lemma_mul_is_associative(r2, b21, v1);
    lemma_mul_is_associative(r2, b22, v2);
    lemma_mul_is_associative(r2, b23, v3);
    lemma_mul_is_associative(r3, b30, v0);
    lemma_mul_is_associative(r3, b31, v1);
    lemma_mul_is_associative(r3, b32, v2);
    lemma_mul_is_associative(r3, b33, v3);
}

/// Applying a product of two matrices to a vector is applying the second
/// matrix and then the first.
pub proof fn lemma_apply_composes(a: Seq<Seq<int>>, b: Seq<Seq<int>>, v: Seq<int>)
    requires
        is_matrix(a),
        is_matrix(b),
        v.len() == 4,
    ensures
        mat_apply(mat_mul(a, b), v) == mat_apply(a, mat_apply(b, v)),
{
    let left = mat_apply(mat_mul(a, b), v);
    let right = mat_apply(a, mat_apply(b, v));
    assert forall|i: int| 0 <= i < 4 implies left[i] == right[i] by {
        lemma_row_through_product(a[i], b, v);
        assert(mat_mul(a, b)[i] =~= Seq::new(4, |j: int| dot(a[i], column(b, j))));
    }
    assert(left =~= right);
}

/// The product of a matrix with a vector is linear in the vector: the image
/// of a sum is the sum of the images, and a common factor of the components
/// moves out.
pub proof fn lemma_apply_linear(m: Seq<Seq<int>>, v: Seq<int>, w: Seq<int>, k: int)
    requires
        is_matrix(m),
        v.len() == 4,
        w.len() == 4,
    ensures
        mat_apply(m, vec_add(v, w)) == vec_add(mat_apply(m, v), mat_apply(m, w)),
        mat_apply(m, vec_scale(k, v)) == vec_scale(k, mat_apply(m, v)),
{
    assert forall|i: int| 0 <= i < 4 implies dot(m[i], vec_add(v, w)) == dot(m[i], v) + dot(
        m[i],
        w,
    ) && dot(m[i], vec_scale(k, v)) == k * dot(m[i], v) by {
        lemma_dot_commutative(m[i], vec_add(v, w));
        lemma_dot_distributes(v, w, m[i]);
        lemma_dot_commutative(v, m[i]);
        lemma_dot_commutative(w, m[i]);
        lemma_dot_commutative(m[i], vec_scale(k, v));
        lemma_dot_scales(k, v, m[i]);
    }
    assert(mat_apply(m, vec_add(v, w)) =~= vec_add(mat_apply(m, v), mat_apply(m, w)));
    assert(mat_apply(m, vec_scale(k, v)) =~= vec_scale(k, mat_apply(m, v)));
}

/// The matrix product is associative.
pub proof fn lemma_product_associative(a: Seq<Seq<int>>, b: Seq<Seq<int>>, c: Seq<Seq<int>>)
    requires
        is_matrix(a),
        is_matrix(b),
        is_matrix(c),
    ensures
        mat_mul(mat_mul(a, b), c) == mat_mul(a, mat_mul(b, c)),
{
    let left = mat_mul(mat_mul(a, b), c);
    let right = mat_mul(a, mat_mul(b, c));
    assert forall|i: int, j: int| 0 <= i < 4 && 0 <= j < 4 implies #[trigger] left[i][j]
        == right[i][j] by {
        lemma_row_through_product(a[i], b, column(c, j));
        assert(mat_mul(a, b)[i] =~= Seq::new(4, |k: int| dot(a[i], column(b, k))));
        assert(column(mat_mul(b, c), j) =~= mat_apply(b, column(c, j)));
    }
    assert(left =~~= right);
}

/// The matrix product is not commutative: moving and then scaling differs
/// from scaling and then moving.
pub proof fn lemma_product_not_commutative()
    ensures
        mat_mul(translation(1, 0, 0), scaling(2, 1, 1)) != mat_mul(
            scaling(2, 1, 1),
            translation(1, 0, 0),
        ),
{
    let t = translation(1, 0, 0);
    let s = scaling(2, 1, 1);
    lemma_dot_of_values(t[0], column(s, 3), 1, 0, 0, 1, 0, 0, 0, 1);
    lemma_dot_of_values(s[0], column(t, 3), 2, 0, 0, 0, 1, 0, 0, 1);
    assert(mat_mul(t, s)[0][3] == 1);
    assert(mat_mul(s, t)[0][3] == 2);
}

/// A scaling matrix multiplies the first three components of a vector by its
/// three factors and leaves the fourth unchanged.
pub proof fn lemma_scaling_applies(x: int, y: int, z: int, p: Seq<int>)
    requires
        p.len() == 4,
    ensures
        mat_apply(scaling(x, y, z), p) == seq![x * p[0], y * p[1], z * p[2], p[3]],
{
    let m = scaling(x, y, z);
    lemma_dot_of_values(m[0], p, x, 0, 0, 0, p[0], p[1], p[2], p[3]);
    lemma_dot_of_values(m[1], p, 0, y, 0, 0, p[0], p[1], p[2], p[3]);
    lemma_dot_of_values(m[2], p, 0, 0, z, 0, p[0], p[1], p[2], p[3]);
    lemma_dot_of_values(m[3], p, 0, 0, 0, 1, p[0], p[1], p[2], p[3]);
    assert(mat_apply(m, p) =~= seq![x * p[0], y * p[1], z * p[2], p[3]]);
}

/// A translation matrix moves a point, a vector whose fourth component is
/// one, by its offset.
pub proof fn lemma_translation_applies(x: int, y: int, z: int, p: Seq<int>)
    requires
        p.len() == 4,
        p[3] == 1,
    ensures
        mat_apply(translation(x, y, z), p) == seq![p[0] + x, p[1] + y, p[2] + z, 1],
{
    let m = translation(x, y, z);
    lemma_dot_of_values(m[0], p, 1, 0, 0, x, p[0], p[1], p[2], 1);
    lemma_dot_of_values(m[1], p, 0, 1, 0, y, p[0], p[1], p[2], 1);
    lemma_dot_of_values(m[2], p, 0, 0, 1, z, p[0], p[1], p[2], 1);
    lemma_dot_of_values(m[3], p, 0, 0, 0, 1, p[0], p[1], p[2], 1);
    assert(mat_apply(m, p) =~= seq![p[0] + x, p[1] + y, p[2] + z, 1]);
}

/// Two rotations about the first axis compose to the rotation through
/// the sum of their angles, whose cosine is `c1 * c2 - s1 * s2` and whose
/// sine is `s1 * c2 + c1 * s2`.
pub proof fn lemma_rotation_x_composes(c1: int, s1: int, c2: int, s2: int)
    ensures
        mat_mul(rotation_x(c1, s1), rotation_x(c2, s2)) == rotation_x(
            c1 * c2 - s1 * s2,
            s1 * c2 + c1 * s2,
        ),
{
    let a = rotation_x(c1, s1);
    let b = rotation_x(c2, s2);
    lemma_dot_of_values(a[0], column(b, 0), 1, 0, 0, 0, 1, 0, 0, 0);
    lemma_dot_of_values(a[0], column(b, 1), 1, 0, 0, 0, 0, c2, s2, 0);
    lemma_dot_of_values(a[0], column(b, 2), 1, 0, 0, 0, 0, -s2, c2, 0);
    lemma_dot_of_values(a[0], column(b, 3), 1, 0, 0, 0, 0, 0, 0, 1);
    lemma_dot_of_values(a[1], column(b, 0), 0, c1, -s1, 0, 1, 0, 0, 0);
    lemma_dot_of_values(a[1], column(b, 1), 0, c1, -s1, 0, 0, c2, s2, 0);
    lemma_dot_of_values(a[1], column(b, 2), 0, c1, -s1, 0, 0, -s2, c2, 0);
    lemma_dot_of_values(a[1], column(b, 3), 0, c1, -s1, 0, 0, 0, 0, 1);
    lemma_dot_of_values(a[2], column(b, 0), 0, s1, c1, 0, 1, 0, 0, 0);
    lemma_dot_of_values(a[2], column(b, 1), 0, s1, c1, 0, 0, c2, s2, 0);
    lemma_dot_of_values(a[2], column(b, 2), 0, s1, c1, 0, 0, -s2, c2, 0);
    lemma_dot_of_values(a[2], column(b, 3), 0, s1, c1, 0, 0, 0, 0, 1);
    lemma_dot_of_values(a[3], column(b, 0), 0, 0, 0, 1, 1, 0, 0, 0);
    lemma_dot_of_values(a[3], column(b, 1), 0, 0, 0, 1, 0, c2, s2, 0);
    lemma_dot_of_values(a[3], column(b, 2), 0, 0, 0, 1, 0, -s2, c2, 0);
    lemma_dot_of_values(a[3], column(b, 3), 0, 0, 0, 1, 0, 0, 0, 1);
    lemma_negated_factor(s1, s2);
    lemma_negated_factor(c1, s2);
    lemma_negated_factor(s1, c2);
    assert(mat_mul(a, b) =~~= rotation_x(c1 * c2 - s1 * s2, s1 * c2 + c1 * s2));
}

/// For every pair `c`, `s`, a unit cosine and sine or not, the rotation
/// about the first axis and the one with the negated sine give, in either
/// order, the matrix that scales the plane of the rotation by
/// `c * c + s * s` and nothing else.
pub proof fn lemma_rotation_x_undone(c: int, s: int)
    ensures
        mat_mul(rotation_x(c, s), rotation_x(c, -s)) == scaling(1, c * c + s * s, c * c + s * s),
        mat_mul(rotation_x(c, -s), rotation_x(c, s)) == scaling(1, c * c + s * s, c * c + s * s),
{
    lemma_rotation_x_composes(c, s, c, -s);
    lemma_rotation_x_composes(c, -s, c, s);
    lemma_negated_factor(s, s);
    lemma_negated_factor(c, s);
    lemma_negated_factor(s, c);
    assert(s * c == c * s) by (nonlinear_arith);
    assert(rotation_x(c * c + s * s, 0) =~~= scaling(1, c * c + s * s, c * c + s * s));
}

/// A rotation about the first axis is undone by the rotation through the
/// opposite angle, which has the same cosine and the negated sine, and which
/// is its transpose: where `c * c + s * s == 1`, the product of the two, in
/// either order, is the identity.
pub proof fn lemma_rotation_x_inverse(c: int, s: int)
    requires
        c * c + s * s == 1,
    ensures
        transpose(rotation_x(c, s)) == rotation_x(c, -s),
        mat_mul(rotation_x(c, s), rotation_x(c, -s)) == identity(),
        mat_mul(rotation_x(c, -s), rotation_x(c, s)) == identity(),
{
    lemma_rotation_x_composes(c, s, c, -s);
    lemma_rotation_x_composes(c, -s, c, s);
    lemma_negated_factor(s, s);
    lemma_negated_factor(c, s);
    lemma_negated_factor(s, c);
    assert(s * c == c * s) by (nonlinear_arith);
    assert(rotation_x(1, 0) =~~= identity());
    assert(transpose(rotation_x(c, s)) =~~= rotation_x(c, -s));
}

/// A rotation about the first axis preserves length: where
/// `c * c + s * s == 1`, a vector and its image have the same dot product
/// with themselves.
pub proof fn lemma_rotation_x_preserves_length(c: int, s: int, v: Seq<int>)
    requires
        c * c + s * s == 1,
        v.len() == 4,
    ensures
        dot(mat_apply(rotation_x(c, s), v), mat_apply(rotation_x(c, s), v)) == dot(v, v),
{
    let m = rotation_x(c, s);
    let w = mat_apply(m, v);
    lemma_dot_of_values(m[0], v, 1, 0, 0, 0, v[0], v[1], v[2], v[3]);
    lemma_dot_of_values(m[1], v, 0, c, -s, 0, v[0], v[1], v[2], v[3]);
    lemma_dot_of_values(m[2], v, 0, s, c, 0, v[0], v[1], v[2], v[3]);
    lemma_dot_of_values(m[3], v, 0, 0, 0, 1, v[0], v[1], v[2], v[3]);
    lemma_dot_of_four(w, w);
    lemma_dot_of_four(v, v);
    let p = v[1];
    let q = v[2];
    assert((c * p + (-s) * q) * (c * p + (-s) * q) + (s * p + c * q) * (s * p + c * q) == p * p
        + q * q) by (nonlinear_arith)
        requires
            c * c + s * s == 1,
    {
        assert((c * p + (-s) * q) * (c * p + (-s) * q) + (s * p + c * q) * (s * p + c * q) == (c
            * c + s * s) * (p * p + q * q));
    }
}

/// Two rotations about the second axis compose to the rotation through
/// the sum of their angles, whose cosine is `c1 * c2 - s1 * s2` and whose
/// sine is `s1 * c2 + c1 * s2`.
pub proof fn lemma_rotation_y_composes(c1: int, s1: int, c2: int, s2: int)
    ensures
        mat_mul(rotation_y(c1, s1), rotation_y(c2, s2)) == rotation_y(
            c1 * c2 - s1 * s2,
            s1 * c2 + c1 * s2,
        ),
{
    let a = rotation_y(c1, s1);
    let b = rotation_y(c2, s2);
    lemma_dot_of_values(a[0], column(b, 0), c1, 0, s1, 0, c2, 0, -s2, 0);
    lemma_dot_of_values(a[0], column(b, 1), c1, 0, s1, 0, 0, 1, 0, 0);
    lemma_dot_of_values(a[0], column(b, 2), c1, 0, s1, 0, s2, 0, c2, 0);
    lemma_dot_of_values(a[0], column(b, 3), c1, 0, s1, 0, 0, 0, 0, 1);
    lemma_dot_of_values(a[1], column(b, 0), 0, 1, 0, 0, c2, 0, -s2, 0);
    lemma_dot_of_values(a[1], column(b, 1), 0, 1, 0, 0, 0, 1, 0, 0);
    lemma_dot_of_values(a[1], column(b, 2), 0, 1, 0, 0, s2, 0, c2, 0);
    lemma_dot_of_values(a[1], column(b, 3), 0, 1, 0, 0, 0, 0, 0, 1);
    lemma_dot_of_values(a[2], column(b, 0), -s1, 0, c1, 0, c2, 0, -s2, 0);
    lemma_dot_of_values(a[2], column(b, 1), -s1, 0, c1, 0, 0, 1, 0, 0);
    lemma_dot_of_values(a[2], column(b, 2), -s1, 0, c1, 0, s2, 0, c2, 0);
    lemma_dot_of_values(a[2], column(b, 3), -s1, 0, c1, 0, 0, 0, 0, 1);
    lemma_dot_of_values(a[3], column(b, 0), 0, 0, 0, 1, c2, 0, -s2, 0);
    lemma_dot_of_values(a[3], column(b, 1), 0, 0, 0, 1, 0, 1, 0, 0);
    lemma_dot_of_values(a[3], column(b, 2), 0, 0, 0, 1, s2, 0, c2, 0);
    lemma_dot_of_values(a[3], column(b, 3), 0, 0, 0, 1, 0, 0, 0, 1);
    lemma_negated_factor(s1, s2);
    lemma_negated_factor(c1, s2);
    lemma_negated_factor(s1, c2);
    assert(mat_mul(a, b) =~~= rotation_y(c1 * c2 - s1 * s2, s1 * c2 + c1 * s2));
}

/// For every pair `c`, `s`, a unit cosine and sine or not, the rotation
/// about the second axis and the one with the negated sine give, in either
/// order, the matrix that scales the plane of the rotation by
/// `c * c + s * s` and nothing else.
pub proof fn lemma_rotation_y_undone(c: int, s: int)
    ensures
        mat_mul(rotation_y(c, s), rotation_y(c, -s)) == scaling(c * c + s * s, 1, c * c + s * s),
        mat_mul(rotation_y(c, -s), rotation_y(c, s)) == scaling(c * c + s * s, 1, c * c + s * s),
{
    lemma_rotation_y_composes(c, s, c, -s);
    lemma_rotation_y_composes(c, -s, c, s);
    lemma_negated_factor(s, s);
    lemma_negated_factor(c, s);
    lemma_negated_factor(s, c);
    assert(s * c == c * s) by (nonlinear_arith);
    assert(rotation_y(c * c + s * s, 0) =~~= scaling(c * c + s * s, 1, c * c + s * s));
}

/// A rotation about the second axis is undone by the rotation through the
/// opposite angle, which has the same cosine and the negated sine, and which
/// is its transpose: where `c * c + s * s == 1`, the product of the two, in
/// either order, is the identity.
pub proof fn lemma_rotation_y_inverse(c: int, s: int)
    requires
        c * c + s * s == 1,
    ensures
        transpose(rotation_y(c, s)) == rotation_y(c, -s),
        mat_mul(rotation_y(c, s), rotation_y(c, -s)) == identity(),
        mat_mul(rotation_y(c, -s), rotation_y(c, s)) == identity(),
{
    lemma_rotation_y_composes(c, s, c, -s);
    lemma_rotation_y_composes(c, -s, c, s);
    lemma_negated_factor(s, s);
    lemma_negated_factor(c, s);
    lemma_negated_factor(s, c);
    assert(s * c == c * s) by (nonlinear_arith);
    assert(rotation_y(1, 0) =~~= identity());
    assert(transpose(rotation_y(c, s)) =~~= rotation_y(c, -s));
}

/// A rotation about the second axis preserves length: where
/// `c * c + s * s == 1`, a vector and its image have the same dot product
/// with themselves.
pub proof fn lemma_rotation_y_preserves_length(c: int, s: int, v: Seq<int>)
    requires
        c * c + s * s == 1,
        v.len() == 4,
    ensures
        dot(mat_apply(rotation_y(c, s), v), mat_apply(rotation_y(c, s), v)) == dot(v, v),
{
    let m = rotation_y(c, s);
    let w = mat_apply(m, v);
    lemma_dot_of_values(m[0], v, c, 0, s, 0, v[0], v[1], v[2], v[3]);
    lemma_dot_of_values(m[1], v, 0, 1, 0, 0, v[0], v[1], v[2], v[3]);
    lemma_dot_of_values(m[2], v, -s, 0, c, 0, v[0], v[1], v[2], v[3]);
    lemma_dot_of_values(m[3], v, 0, 0, 0, 1, v[0], v[1], v[2], v[3]);
    lemma_dot_of_four(w, w);
    lemma_dot_of_four(v, v);
    let p = v[2];
    let q = v[0];
    assert((c * p + (-s) * q) * (c * p + (-s) * q) + (s * p + c * q) * (s * p + c * q) == p * p
        + q * q) by (nonlinear_arith)
        requires
            c * c + s * s == 1,
    {
        assert((c * p + (-s) * q) * (c * p + (-s) * q) + (s * p + c * q) * (s * p + c * q) == (c
            * c + s * s) * (p * p + q * q));
    }
}

/// Two rotations about the third axis compose to the rotation through
/// the sum of their angles, whose cosine is `c1 * c2 - s1 * s2` and whose
/// sine is `s1 * c2 + c1 * s2`.
pub proof fn lemma_rotation_z_composes(c1: int, s1: int, c2: int, s2: int)
    ensures
        mat_mul(rotation_z(c1, s1), rotation_z(c2, s2)) == rotation_z(
            c1 * c2 - s1 * s2,
            s1 * c2 + c1 * s2,
        ),
{
    let a = rotation_z(c1, s1);
    let b = rotation_z(c2, s2);
    lemma_dot_of_values(a[0], column(b, 0), c1, -s1, 0, 0, c2, s2, 0, 0);
    lemma_dot_of_values(a[0], column(b, 1), c1, -s1, 0, 0, -s2, c2, 0, 0);
    lemma_dot_of_values(a[0], column(b, 2), c1, -s1, 0, 0, 0, 0, 1, 0);
    lemma_dot_of_values(a[0], column(b, 3), c1, -s1, 0, 0, 0, 0, 0, 1);
    lemma_dot_of_values(a[1], column(b, 0), s1, c1, 0, 0, c2, s2, 0, 0);
    lemma_dot_of_values(a[1], column(b, 1), s1, c1, 0, 0, -s2, c2, 0, 0);
    lemma_dot_of_values(a[1], column(b, 2), s1, c1, 0, 0, 0, 0, 1, 0);
    lemma_dot_of_values(a[1], column(b, 3), s1, c1, 0, 0, 0, 0, 0, 1);
    lemma_dot_of_values(a[2], column(b, 0), 0, 0, 1, 0, c2, s2, 0, 0);
    lemma_dot_of_values(a[2], column(b, 1), 0, 0, 1, 0, -s2, c2, 0, 0);
    lemma_dot_of_values(a[2], column(b, 2), 0, 0, 1, 0, 0, 0, 1, 0);
    lemma_dot_of_values(a[2], column(b, 3), 0, 0, 1, 0, 0, 0, 0, 1);
    lemma_dot_of_values(a[3], column(b, 0), 0, 0, 0, 1, c2, s2, 0, 0);
    lemma_dot_of_values(a[3], column(b, 1), 0, 0, 0, 1, -s2, c2, 0, 0);
    lemma_dot_of_values(a[3], column(b, 2), 0, 0, 0, 1, 0, 0, 1, 0);
    lemma_dot_of_values(a[3], column(b, 3), 0, 0, 0, 1, 0, 0, 0, 1);
    lemma_negated_factor(s1, s2);
    lemma_negated_factor(c1, s2);
    lemma_negated_factor(s1, c2);
    assert(mat_mul(a, b) =~~= rotation_z(c1 * c2 - s1 * s2, s1 * c2 + c1 * s2));
}

/// For every pair `c`, `s`, a unit cosine and sine or not, the rotation
/// about the third axis and the one with the negated sine give, in either
/// order, the matrix that scales the plane of the rotation by
/// `c * c + s * s` and nothing else.
pub proof fn lemma_rotation_z_undone(c: int, s: int)
    ensures
        mat_mul(rotation_z(c, s), rotation_z(c, -s)) == scaling(c * c + s * s, c * c + s * s, 1),
        mat_mul(rotation_z(c, -s), rotation_z(c, s)) == scaling(c * c + s * s, c * c + s * s, 1),
{
    lemma_rotation_z_composes(c, s, c, -s);
    lemma_rotation_z_composes(c, -s, c, s);
    lemma_negated_factor(s, s);
    lemma_negated_factor(c, s);
    lemma_negated_factor(s, c);
    assert(s * c == c * s) by (nonlinear_arith);
    assert(rotation_z(c * c + s * s, 0) =~~= scaling(c * c + s * s, c * c + s * s, 1));
}

/// A rotation about the third axis is undone by the rotation through the
/// opposite angle, which has the same cosine and the negated sine, and which
/// is its transpose: where `c * c + s * s == 1`, the product of the two, in
/// either order, is the identity.
pub proof fn lemma_rotation_z_inverse(c: int, s: int)
    requires
        c * c + s * s == 1,
    ensures
        transpose(rotation_z(c, s)) == rotation_z(c, -s),
        mat_mul(rotation_z(c, s), rotation_z(c, -s)) == identity(),
        mat_mul(rotation_z(c, -s), rotation_z(c, s)) == identity(),
{
    lemma_rotation_z_composes(c, s, c, -s);
    lemma_rotation_z_composes(c, -s, c, s);
    lemma_negated_factor(s, s);
    lemma_negated_factor(c, s);
    lemma_negated_factor(s, c);
    assert(s * c == c * s) by (nonlinear_arith);
    assert(rotation_z(1, 0) =~~= identity());
    assert(transpose(rotation_z(c, s)) =~~= rotation_z(c, -s));
}

/// A rotation about the third axis preserves length: where
/// `c * c + s * s == 1`, a vector and its image have the same dot product
/// with themselves.
pub proof fn lemma_rotation_z_preserves_length(c: int, s: int, v: Seq<int>)
    requires
        c * c + s * s == 1,
        v.len() == 4,
    ensures
        dot(mat_apply(rotation_z(c, s), v), mat_apply(rotation_z(c, s), v)) == dot(v, v),
{
    let m = rotation_z(c, s);
    let w = mat_apply(m, v);
    lemma_dot_of_values(m[0], v, c, -s, 0, 0, v[0], v[1], v[2], v[3]);
    lemma_dot_of_values(m[1], v, s, c, 0, 0, v[0], v[1], v[2], v[3]);
    lemma_dot_of_values(m[2], v, 0, 0, 1, 0, v[0], v[1], v[2], v[3]);
    lemma_dot_of_values(m[3], v, 0, 0, 0, 1, v[0], v[1], v[2], v[3]);
    lemma_dot_of_four(w, w);
    lemma_dot_of_four(v, v);
    let p = v[0];
    let q = v[1];
    assert((c * p + (-s) * q) * (c * p + (-s) * q) + (s * p + c * q) * (s * p + c * q) == p * p
        + q * q) by (nonlinear_arith)
        requires
            c * c + s * s == 1,
    {
        assert((c * p + (-s) * q) * (c * p + (-s) * q) + (s * p + c * q) * (s * p + c * q) == (c
            * c + s * s) * (p * p + q * q));
    }
}

/// The three axes of the frame of a camera are perpendicular to one another,
/// whatever angle `up` makes with the line of sight.
pub proof fn lemma_frame_axes_orthogonal(eye: Seq<int>, center: Seq<int>, up: Seq<int>)
    requires
        eye.len() == 3,
        center.len() == 3,
        up.len() == 3,
    ensures
        dot(right_axis(eye, center, up), up_axis(eye, center, up)) == 0,
        dot(right_axis(eye, center, up), depth_axis(eye, center)) == 0,
        dot(up_axis(eye, center, up), depth_axis(eye, center)) == 0,
{
    let z = depth_axis(eye, center);
    let x = right_axis(eye, center, up);
    let y = up_axis(eye, center, up);
    lemma_cross_orthogonal(up, z);
    lemma_cross_orthogonal(z, x);
    lemma_dot_commutative(y, x);
}

/// The squared length of the up axis of the frame of a camera is the product
/// of the squared lengths of the other two axes: the depth axis and the right
/// axis are perpendicular.
pub proof fn lemma_frame_up_axis_length(eye: Seq<int>, center: Seq<int>, up: Seq<int>)
    requires
        eye.len() == 3,
        center.len() == 3,
        up.len() == 3,
    ensures
        dot(up_axis(eye, center, up), up_axis(eye, center, up)) == dot(
            depth_axis(eye, center),
            depth_axis(eye, center),
        ) * dot(right_axis(eye, center, up), right_axis(eye, center, up)),
{
    let z = depth_axis(eye, center);
    let x = right_axis(eye, center, up);
    lemma_frame_axes_orthogonal(eye, center, up);
    lemma_dot_commutative(z, x);
    lemma_cross_length(z, x);
}

/// The frame of a camera, which acts on row vectors, sends the camera to the
/// origin and the target onto the negative depth axis. Its depth axis has
/// the length of `eye - center`, not the length one, so the target lands at
/// the squared distance between the two. Stated on column vectors, these
/// are the images under the transpose.
pub proof fn lemma_frame_places_camera(eye: Seq<int>, center: Seq<int>, up: Seq<int>)
    requires
        eye.len() == 3,
        center.len() == 3,
        up.len() == 3,
    ensures
        mat_apply(transpose(view_frame(eye, center, up)), point(eye)) == seq![0int, 0, 0, 1],
        mat_apply(transpose(view_frame(eye, center, up)), point(center)) == seq![
            0int,
            0,
            -dot(depth_axis(eye, center), depth_axis(eye, center)),
            1,
        ],
{
    let z = depth_axis(eye, center);
    let x = right_axis(eye, center, up);
    let y = up_axis(eye, center, up);
    let t = transpose(view_frame(eye, center, up));
    lemma_frame_axes_orthogonal(eye, center, up);
    lemma_dot_of_three(x, eye);
    lemma_dot_of_three(y, eye);
    lemma_dot_of_three(z, eye);
    lemma_dot_of_three(x, center);
    lemma_dot_of_three(y, center);
    lemma_dot_of_three(z, center);
    lemma_dot_of_three(x, z);
    lemma_dot_of_three(y, z);
    lemma_dot_of_three(z, z);
    let e = point(eye);
    let c = point(center);
    lemma_dot_of_values(t[0], e, x[0], x[1], x[2], -dot(x, eye), eye[0], eye[1], eye[2], 1);
    lemma_dot_of_values(t[1], e, y[0], y[1], y[2], -dot(y, eye), eye[0], eye[1], eye[2], 1);
    lemma_dot_of_values(t[2], e, z[0], z[1], z[2], -dot(z, eye), eye[0], eye[1], eye[2], 1);
    lemma_dot_of_values(t[3], e, 0, 0, 0, 1, eye[0], eye[1], eye[2], 1);
    lemma_dot_of_values(
        t[0],
        c,
        x[0],
        x[1],
        x[2],
        -dot(x, eye),
        center[0],
        center[1],
        center[2],
        1,
    );
    lemma_dot_of_values(
        t[1],
        c,
        y[0],
        y[1],
        y[2],
        -dot(y, eye),
        center[0],
        center[1],
        center[2],
        1,
    );
    lemma_dot_of_values(
        t[2],
        c,
        z[0],
        z[1],
        z[2],
        -dot(z, eye),
        center[0],
        center[1],
        center[2],
        1,
    );
    lemma_dot_of_values(t[3], c, 0, 0, 0, 1, center[0], center[1], center[2], 1);
    assert(mat_apply(t, e) =~= seq![0int, 0, 0, 1]);
    let (x0, x1, x2) = (x[0], x[1], x[2]);
    let (y0, y1, y2) = (y[0], y[1], y[2]);
    let (z0, z1, z2) = (z[0], z[1], z[2]);
    let (e0, e1, e2) = (eye[0], eye[1], eye[2]);
    let (c0, c1, c2) = (center[0], center[1], center[2]);
    assert(x0 * c0 + x1 * c1 + x2 * c2 - (x0 * e0 + x1 * e1 + x2 * e2) == -(x0 * z0 + x1 * z1 + x2
        * z2)) by (nonlinear_arith)
        requires
            z0 == e0 - c0,
            z1 == e1 - c1,
            z2 == e2 - c2,
    ;
    assert(y0 * c0 + y1 * c1 + y2 * c2 - (y0 * e0 + y1 * e1 + y2 * e2) == -(y0 * z0 + y1 * z1 + y2
        * z2)) by (nonlinear_arith)
        requires
            z0 == e0 - c0,
            z1 == e1 - c1,
            z2 == e2 - c2,
    ;
    assert(z0 * c0 + z1 * c1 + z2 * c2 - (z0 * e0 + z1 * e1 + z2 * e2) == -(z0 * z0 + z1 * z1 + z2
        * z2)) by (nonlinear_arith)
        requires
            z0 == e0 - c0,
            z1 == e1 - c1,
            z2 == e2 - c2,
    ;
    assert(mat_apply(t, c) =~= seq![0int, 0, -dot(z, z), 1]);
}

} // verus!
