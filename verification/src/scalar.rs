//! Scalars: which integers a component can hold, and the wide arithmetic that
//! keeps intermediate results exact.

use crate::algebra::{dot, dot_prefix};
use vstd::prelude::*;

verus! {

/// Whether a mathematical integer can be stored in one component.
pub open spec fn representable(x: int) -> bool {
    i32::MIN <= x <= i32::MAX
}

/// Whether every entry of a sequence can be stored in a component.
pub open spec fn all_representable(v: Seq<int>) -> bool {
    forall|i: int| 0 <= i < v.len() ==> representable(#[trigger] v[i])
}

/// Whether every entry of every row can be stored in a component.
pub open spec fn rows_representable(m: Seq<Seq<int>>) -> bool {
    forall|i: int| 0 <= i < m.len() ==> all_representable(#[trigger] m[i])
}

/// The components of an array or slice as mathematical integers.
pub open spec fn ints(s: Seq<i32>) -> Seq<int> {
    Seq::new(s.len(), |i: int| s[i] as int)
}

/// The largest magnitude that the product of two components can reach.
pub open spec fn product_limit() -> int {
    0x4000_0000_0000_0000
}

/// The product of two components is bounded by `product_limit`.
pub proof fn lemma_product_bounded(x: int, y: int)
    by (nonlinear_arith)
    requires
        representable(x),
        representable(y),
    ensures
        -product_limit() <= x * y <= product_limit(),
{
}

/// The exact product of two components, in a type wide enough to hold it.
pub fn wide_product(x: i32, y: i32) -> (p: i128)
    ensures
        p == x * y,
        -product_limit() <= p <= product_limit(),
{
    proof {
        lemma_product_bounded(x as int, y as int);
    }
    (x as i128) * (y as i128)
}

/// The exact dot product of two slices of equal length, in a type wide
/// enough to hold it whatever the components are.
pub fn wide_dot(a: &[i32], b: &[i32]) -> (r: i128)
    requires
        a@.len() == b@.len(),
    ensures
        r == dot(ints(a@), ints(b@)),
        -(a@.len() * product_limit()) <= r <= a@.len() * product_limit(),
{
    let n: usize = a.len();
    let mut acc: i128 = 0;
    for i in 0..n
        invariant
            n == a@.len(),
            n == b@.len(),
            acc == dot_prefix(ints(a@), ints(b@), i as nat),
            -(i * product_limit()) <= acc <= i * product_limit(),
    {
        let p: i128 = wide_product(a[i], b[i]);
        acc = acc + p;
    }
    acc
}

/// Stores a wide intermediate result in a component. `fits` tests beforehand
/// whether it can be stored.
pub fn narrow(x: i128) -> (r: i32)
    requires
        representable(x as int),
    ensures
        r == x,
{
    x as i32
}

/// Whether a wide intermediate result can be stored in a component.
pub fn fits(x: i128) -> (b: bool)
    ensures
        b == representable(x as int),
{
    -2147483648 <= x && x <= 2147483647
}

/// Whether the negation of a component can be stored in a component: it
/// can for every value but the least.
pub fn negation_fits(x: i32) -> (b: bool)
    ensures
        b == representable(-x),
{
    x != i32::MIN
}

} // verus!
