//! Vectors of three and of four components.

use crate::algebra;
use crate::laws::lemma_dot_self;
use crate::scalar::{
    all_representable, fits, ints, narrow, representable, wide_dot, wide_product,
};
use vstd::prelude::*;

verus! {

/// A vector of three components.
#[derive(Copy, Clone, Debug, PartialEq, Eq)]
pub struct Vec3(pub [i32; 3]);

impl View for Vec3 {
    type V = Seq<int>;

    open spec fn view(&self) -> Seq<int> {
        ints(self.0@)
    }
}

impl Vec3 {
    /// The vector that holds the three integers of `s`, which must be
    /// representable.
    pub open spec fn from_ints(s: Seq<int>) -> Vec3 {
        Vec3([s[0] as i32, s[1] as i32, s[2] as i32])
    }

    /// A vector is determined by its view.
    pub proof fn lemma_view_determines(self)
        ensures
            self@.len() == 3,
            all_representable(self@),
            Vec3::from_ints(self@) == self,
    {
        assert(Vec3::from_ints(self@).0 =~= self.0);
    }

    /// The vector whose components are all zero.
    pub fn zero() -> (r: Self)
        ensures
            r@ == algebra::zero_vector(3),
    {
        Vec3([0; 3])
    }

    /// The component at index `i`.
    pub fn get(&self, i: usize) -> (r: i32)
        requires
            i < 3,
        ensures
            r == self@[i as int],
    {
        self.0[i]
    }

    /// Replaces the component at index `i` by `value`.
    pub fn set(&mut self, i: usize, value: i32)
        requires
            i < 3,
        ensures
            final(self)@ == old(self)@.update(i as int, value as int),
    {
        self.0[i] = value;
    }

    /// The dot product with `other`.
    pub fn dot(self, other: Self) -> (r: i32)
        requires
            representable(algebra::dot(self@, other@)),
        ensures
            r == algebra::dot(self@, other@),
    {
        narrow(wide_dot(&self.0, &other.0))
    }

    /// The square of the length: the dot product of the vector with itself.
    /// It is never negative, and zero for the zero vector alone.
    pub fn length_squared(self) -> (r: i32)
        requires
            representable(algebra::dot(self@, self@)),
        ensures
            r == algebra::dot(self@, self@),
            r >= 0,
            r == 0 <==> self@ == algebra::zero_vector(3),
    {
        proof {
            lemma_dot_self(self@);
        }
        self.dot(self)
    }

    /// The componentwise sum with `other`.
    pub fn add(self, other: Self) -> (r: Self)
        requires
            all_representable(algebra::vec_add(self@, other@)),
        ensures
            r@ == algebra::vec_add(self@, other@),
    {
        let mut result = Vec3::zero();
        for i in 0usize..3
            invariant
                all_representable(algebra::vec_add(self@, other@)),
                forall|k: int| 0 <= k < i ==> result.0[k] == self.0[k] + other.0[k],
        {
            assert(representable(algebra::vec_add(self@, other@)[i as int]));
            result.0[i] = narrow(self.0[i] as i128 + other.0[i] as i128);
        }
        assert(result@ =~= algebra::vec_add(self@, other@));
        result
    }

    /// The componentwise difference with `other`.
    pub fn sub(self, other: Self) -> (r: Self)
        requires
            all_representable(algebra::vec_sub(self@, other@)),
        ensures
            r@ == algebra::vec_sub(self@, other@),
    {
        let mut result = Vec3::zero();
        for i in 0usize..3
            invariant
                all_representable(algebra::vec_sub(self@, other@)),
                forall|k: int| 0 <= k < i ==> result.0[k] == self.0[k] - other.0[k],
        {
            assert(representable(algebra::vec_sub(self@, other@)[i as int]));
            result.0[i] = narrow(self.0[i] as i128 - other.0[i] as i128);
        }
        assert(result@ =~= algebra::vec_sub(self@, other@));
        result
    }

    /// Whether the dot product with `other` can be stored in a component, as
    /// `dot` requires; with `self` for `other`, as `length_squared` requires.
    pub fn dot_fits(self, other: Self) -> (b: bool)
        ensures
            b == representable(algebra::dot(self@, other@)),
    {
        fits(wide_dot(&self.0, &other.0))
    }

    /// Whether every component of the sum with `other` can be stored, as
    /// `add` requires.
    pub fn sum_fits(self, other: Self) -> (b: bool)
        ensures
            b == all_representable(algebra::vec_add(self@, other@)),
    {
        let ghost sum = algebra::vec_add(self@, other@);
        for i in 0usize..3
            invariant
                sum == algebra::vec_add(self@, other@),
                forall|k: int| 0 <= k < i ==> representable(#[trigger] sum[k]),
        {
            if !fits(self.0[i] as i128 + other.0[i] as i128) {
                assert(!representable(sum[i as int]));
                return false;
            }
        }
        true
    }

    /// Whether every component of the difference with `other` can be stored,
    /// as `sub` requires.
    pub fn difference_fits(self, other: Self) -> (b: bool)
        ensures
            b == all_representable(algebra::vec_sub(self@, other@)),
    {
        let ghost difference = algebra::vec_sub(self@, other@);
        for i in 0usize..3
            invariant
                difference == algebra::vec_sub(self@, other@),
                forall|k: int| 0 <= k < i ==> representable(#[trigger] difference[k]),
        {
            if !fits(self.0[i] as i128 - other.0[i] as i128) {
                assert(!representable(difference[i as int]));
                return false;
            }
        }
        true
    }

    /// Whether every component of the cross product with `other` can be
    /// stored, as `cross` requires.
    pub fn cross_fits(self, other: Self) -> (b: bool)
        ensures
            b == all_representable(algebra::cross(self@, other@)),
    {
        let ghost c = algebra::cross(self@, other@);
        let c0: i128 = wide_product(self.0[1], other.0[2]) - wide_product(self.0[2], other.0[1]);
        let c1: i128 = wide_product(self.0[2], other.0[0]) - wide_product(self.0[0], other.0[2]);
        let c2: i128 = wide_product(self.0[0], other.0[1]) - wide_product(self.0[1], other.0[0]);
        assert(c0 == c[0] && c1 == c[1] && c2 == c[2]);
        fits(c0) && fits(c1) && fits(c2)
    }

    /// The cross product with `other`.
    pub fn cross(self, other: Self) -> (r: Self)
        requires
            all_representable(algebra::cross(self@, other@)),
        ensures
            r@ == algebra::cross(self@, other@),
    {
        let ghost c = algebra::cross(self@, other@);
        assert(representable(c[0]) && representable(c[1]) && representable(c[2]));
        Vec3(
            [
                narrow(wide_product(self.0[1], other.0[2]) - wide_product(self.0[2], other.0[1])),
                narrow(wide_product(self.0[2], other.0[0]) - wide_product(self.0[0], other.0[2])),
                narrow(wide_product(self.0[0], other.0[1]) - wide_product(self.0[1], other.0[0])),
            ],
        )
    }
}

/// A vector of four components.
#[derive(Copy, Clone, Debug, PartialEq, Eq)]
pub struct Vec4(pub [i32; 4]);

impl View for Vec4 {
    type V = Seq<int>;

    open spec fn view(&self) -> Seq<int> {
        ints(self.0@)
    }
}

impl Vec4 {
    /// The vector that holds the four integers of `s`, which must be
    /// representable.
    pub open spec fn from_ints(s: Seq<int>) -> Vec4 {
        Vec4([s[0] as i32, s[1] as i32, s[2] as i32, s[3] as i32])
    }

    /// A vector is determined by its view.
    pub proof fn lemma_view_determines(self)
        ensures
            self@.len() == 4,
            all_representable(self@),
            Vec4::from_ints(self@) == self,
    {
        assert(Vec4::from_ints(self@).0 =~= self.0);
    }

    /// The vector whose components are all zero.
    pub fn zero() -> (r: Self)
        ensures
            r@ == algebra::zero_vector(4),
    {
        Vec4([0; 4])
    }

    /// The component at index `i`.
    pub fn get(&self, i: usize) -> (r: i32)
        requires
            i < 4,
        ensures
            r == self@[i as int],
    {
        self.0[i]
    }

    /// Replaces the component at index `i` by `value`.
    pub fn set(&mut self, i: usize, value: i32)
        requires
            i < 4,
        ensures
            final(self)@ == old(self)@.update(i as int, value as int),
    {
        self.0[i] = value;
    }

    /// The dot product with `other`.
    pub fn dot(self, other: Self) -> (r: i32)
        requires
            representable(algebra::dot(self@, other@)),
        ensures
            r == algebra::dot(self@, other@),
    {
        narrow(wide_dot(&self.0, &other.0))
    }

    /// The square of the length: the dot product of the vector with itself.
    /// It is never negative, and zero for the zero vector alone.
    pub fn length_squared(self) -> (r: i32)
        requires
            representable(algebra::dot(self@, self@)),
        ensures
            r == algebra::dot(self@, self@),
            r >= 0,
            r == 0 <==> self@ == algebra::zero_vector(4),
    {
        proof {
            lemma_dot_self(self@);
        }
        self.dot(self)
    }

    /// The componentwise sum with `other`.
    pub fn add(self, other: Self) -> (r: Self)
        requires
            all_representable(algebra::vec_add(self@, other@)),
        ensures
            r@ == algebra::vec_add(self@, other@),
    {
        let mut result = Vec4::zero();
        for i in 0usize..4
            invariant
                all_representable(algebra::vec_add(self@, other@)),
                forall|k: int| 0 <= k < i ==> result.0[k] == self.0[k] + other.0[k],
        {
            assert(representable(algebra::vec_add(self@, other@)[i as int]));
            result.0[i] = narrow(self.0[i] as i128 + other.0[i] as i128);
        }
        assert(result@ =~= algebra::vec_add(self@, other@));
        result
    }

    /// The componentwise difference with `other`.
    pub fn sub(self, other: Self) -> (r: Self)
        requires
            all_representable(algebra::vec_sub(self@, other@)),
        ensures
            r@ == algebra::vec_sub(self@, other@),
    {
        let mut result = Vec4::zero();
        for i in 0usize..4
            invariant
                all_representable(algebra::vec_sub(self@, other@)),
                forall|k: int| 0 <= k < i ==> result.0[k] == self.0[k] - other.0[k],
        {
            assert(representable(algebra::vec_sub(self@, other@)[i as int]));
            result.0[i] = narrow(self.0[i] as i128 - other.0[i] as i128);
        }
        assert(result@ =~= algebra::vec_sub(self@, other@));
        result
    }

    /// Whether the dot product with `other` can be stored in a component, as
    /// `dot` requires; with `self` for `other`, as `length_squared` requires.
    pub fn dot_fits(self, other: Self) -> (b: bool)
        ensures
            b == representable(algebra::dot(self@, other@)),
    {
        fits(wide_dot(&self.0, &other.0))
    }

    /// Whether every component of the sum with `other` can be stored, as
    /// `add` requires.
    pub fn sum_fits(self, other: Self) -> (b: bool)
        ensures
            b == all_representable(algebra::vec_add(self@, other@)),
    {
        let ghost sum = algebra::vec_add(self@, other@);
        for i in 0usize..4
            invariant
                sum == algebra::vec_add(self@, other@),
                forall|k: int| 0 <= k < i ==> representable(#[trigger] sum[k]),
        {
            if !fits(self.0[i] as i128 + other.0[i] as i128) {
                assert(!representable(sum[i as int]));
                return false;
            }
        }
        true
    }

    /// Whether every component of the difference with `other` can be stored,
    /// as `sub` requires.
    pub fn difference_fits(self, other: Self) -> (b: bool)
        ensures
            b == all_representable(algebra::vec_sub(self@, other@)),
    {
        let ghost difference = algebra::vec_sub(self@, other@);
        for i in 0usize..4
            invariant
                difference == algebra::vec_sub(self@, other@),
                forall|k: int| 0 <= k < i ==> representable(#[trigger] difference[k]),
        {
            if !fits(self.0[i] as i128 - other.0[i] as i128) {
                assert(!representable(difference[i as int]));
                return false;
            }
        }
        true
    }

}

/// The operator form of `Vec3::add`.
impl core::ops::Add for Vec3 {
    type Output = Vec3;

    fn add(self, other: Vec3) -> (r: Vec3) {
        let r = Vec3::add(self, other);
        proof {
            r.lemma_view_determines();
        }
        r
    }
}

impl vstd::std_specs::ops::AddSpecImpl for Vec3 {
    open spec fn obeys_add_spec() -> bool {
        true
    }

    open spec fn add_req(self, other: Vec3) -> bool {
        all_representable(algebra::vec_add(self@, other@))
    }

    open spec fn add_spec(self, other: Vec3) -> Vec3 {
        Vec3::from_ints(algebra::vec_add(self@, other@))
    }
}

/// The operator form of `Vec3::sub`.
impl core::ops::Sub for Vec3 {
    type Output = Vec3;

    fn sub(self, other: Vec3) -> (r: Vec3) {
        let r = Vec3::sub(self, other);
        proof {
            r.lemma_view_determines();
        }
        r
    }
}

impl vstd::std_specs::ops::SubSpecImpl for Vec3 {
    open spec fn obeys_sub_spec() -> bool {
        true
    }

    open spec fn sub_req(self, other: Vec3) -> bool {
        all_representable(algebra::vec_sub(self@, other@))
    }

    open spec fn sub_spec(self, other: Vec3) -> Vec3 {
        Vec3::from_ints(algebra::vec_sub(self@, other@))
    }
}

/// The operator form of `Vec4::add`.
impl core::ops::Add for Vec4 {
    type Output = Vec4;

    fn add(self, other: Vec4) -> (r: Vec4) {
        let r = Vec4::add(self, other);
        proof {
            r.lemma_view_determines();
        }
        r
    }
}

impl vstd::std_specs::ops::AddSpecImpl for Vec4 {
    open spec fn obeys_add_spec() -> bool {
        true
    }

    open spec fn add_req(self, other: Vec4) -> bool {
        all_representable(algebra::vec_add(self@, other@))
    }

    open spec fn add_spec(self, other: Vec4) -> Vec4 {
        Vec4::from_ints(algebra::vec_add(self@, other@))
    }
}

/// The operator form of `Vec4::sub`.
impl core::ops::Sub for Vec4 {
    type Output = Vec4;

    fn sub(self, other: Vec4) -> (r: Vec4) {
        let r = Vec4::sub(self, other);
        proof {
            r.lemma_view_determines();
        }
        r
    }
}

impl vstd::std_specs::ops::SubSpecImpl for Vec4 {
    open spec fn obeys_sub_spec() -> bool {
        true
    }

    open spec fn sub_req(self, other: Vec4) -> bool {
        all_representable(algebra::vec_sub(self@, other@))
    }

    open spec fn sub_spec(self, other: Vec4) -> Vec4 {
        Vec4::from_ints(algebra::vec_sub(self@, other@))
    }
}

/// The operator form of `Vec3::get`, for reading.
impl core::ops::Index<usize> for Vec3 {
    type Output = i32;

    fn index(&self, i: usize) -> (r: &i32)
        ensures
            *r == self@[i as int],
    {
        &self.0[i]
    }
}

impl vstd::std_specs::core::IndexSpecImpl<usize> for Vec3 {
    open spec fn index_req(&self, i: &usize) -> bool {
        *i < 3
    }
}

/// The operator form of `Vec4::get`, for reading.
impl core::ops::Index<usize> for Vec4 {
    type Output = i32;

    fn index(&self, i: usize) -> (r: &i32)
        ensures
            *r == self@[i as int],
    {
        &self.0[i]
    }
}

impl vstd::std_specs::core::IndexSpecImpl<usize> for Vec4 {
    open spec fn index_req(&self, i: &usize) -> bool {
        *i < 4
    }
}

} // verus!
