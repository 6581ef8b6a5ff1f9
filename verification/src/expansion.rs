//! Dot products written out, term by term: the form in which a caller
//! computes an entry of a result by hand.

use crate::algebra::{dot, dot_prefix};
use vstd::prelude::*;

verus! {

/// The dot product of two vectors of three components, written out.
pub proof fn lemma_dot_of_three(a: Seq<int>, b: Seq<int>)
    requires
        a.len() == 3,
    ensures
        dot(a, b) == a[0] * b[0] + a[1] * b[1] + a[2] * b[2],
{
    reveal_with_fuel(dot_prefix, 4);
}

/// The dot product of two vectors of four components, written out.
pub proof fn lemma_dot_of_four(a: Seq<int>, b: Seq<int>)
    requires
        a.len() == 4,
    ensures
        dot(a, b) == a[0] * b[0] + a[1] * b[1] + a[2] * b[2] + a[3] * b[3],
{
    reveal_with_fuel(dot_prefix, 5);
}

/// The dot product of two vectors of four components whose components are
/// known.
pub proof fn lemma_dot_of_values(
    a: Seq<int>,
    b: Seq<int>,
    a0: int,
    a1: int,
    a2: int,
    a3: int,
    b0: int,
    b1: int,
    b2: int,
    b3: int,
)
    requires
        a.len() == 4,
        a[0] == a0 && a[1] == a1 && a[2] == a2 && a[3] == a3,
        b[0] == b0 && b[1] == b1 && b[2] == b2 && b[3] == b3,
    ensures
        dot(a, b) == a0 * b0 + a1 * b1 + a2 * b2 + a3 * b3,
{
    lemma_dot_of_four(a, b);
}

} // verus!
