//! Points and axis-aligned bounding boxes in 3D space, generic over the
//! coordinate type.
//!
//! Contracts that compare or combine coordinates are stated over the
//! specifications that vstd gives `PartialOrd` and the arithmetic operators;
//! they pin the result down for every coordinate type that follows those
//! specifications, as all integer types do.
use vstd::prelude::*;
use vstd::std_specs::cmp::PartialOrdSpec;
use vstd::std_specs::ops::{AddSpec, MulSpec, SubSpec};

verus! {

/// A point in 3D space, its coordinates stored as `[x, y, z]`.
#[derive(Debug, Clone, Copy, PartialEq)]
pub struct Point3D<T> {
    /// The coordinates x, y and z, in that order.
    pub coords: [T; 3],
}

impl<T: Copy + Default> Point3D<T> {
    /// Creates a point with the given coordinates.
    pub fn new(x: T, y: T, z: T) -> (p: Self)
        ensures
            p.coords@ == seq![x, y, z],
    {
        Point3D { coords: [x, y, z] }
    }

    /// The point whose coordinates are all the default value of `T` (zero
    /// for numbers).
    pub fn origin() -> (p: Self)
        ensures
            p.coords@[0] == p.coords@[1],
            p.coords@[1] == p.coords@[2],
    {
        let zero = T::default();
        Point3D { coords: [zero, zero, zero] }
    }

    /// The x coordinate.
    pub fn x(&self) -> (r: T)
        ensures
            r == self.coords@[0],
    {
        self.coords[0]
    }

    /// The y coordinate.
    pub fn y(&self) -> (r: T)
        ensures
            r == self.coords@[1],
    {
        self.coords[1]
    }

    /// The z coordinate.
    pub fn z(&self) -> (r: T)
        ensures
            r == self.coords@[2],
    {
        self.coords[2]
    }

    /// The x coordinate, to be changed in place.
    pub fn x_mut(&mut self) -> (r: &mut T)
        ensures
            *r == old(self).coords@[0],
            final(self).coords@ == old(self).coords@.update(0, *final(r)),
    {
        &mut self.coords[0]
    }

    /// The y coordinate, to be changed in place.
    pub fn y_mut(&mut self) -> (r: &mut T)
        ensures
            *r == old(self).coords@[1],
            final(self).coords@ == old(self).coords@.update(1, *final(r)),
    {
        &mut self.coords[1]
    }

    /// The z coordinate, to be changed in place.
    pub fn z_mut(&mut self) -> (r: &mut T)
        ensures
            *r == old(self).coords@[2],
            final(self).coords@ == old(self).coords@.update(2, *final(r)),
    {
        &mut self.coords[2]
    }
}

/// The difference of the coordinates of `a` and `b` on `axis`.
pub open spec fn coord_diff<T: Copy + std::ops::Sub<Output = T>>(
    a: Point3D<T>,
    b: Point3D<T>,
    axis: int,
) -> T {
    a.coords@[axis].sub_spec(b.coords@[axis])
}

/// The square of the coordinate difference of `a` and `b` on `axis`.
pub open spec fn coord_diff_sq<T: Copy + std::ops::Sub<Output = T> + std::ops::Mul<Output = T>>(
    a: Point3D<T>,
    b: Point3D<T>,
    axis: int,
) -> T {
    coord_diff(a, b, axis).mul_spec(coord_diff(a, b, axis))
}

/// The squared Euclidean distance of `a` and `b`: the squared coordinate
/// differences summed from x to z.
pub open spec fn squared_distance<
    T: Copy + std::ops::Sub<Output = T> + std::ops::Mul<Output = T> + std::ops::Add<Output = T>,
>(a: Point3D<T>, b: Point3D<T>) -> T {
    coord_diff_sq(a, b, 0).add_spec(coord_diff_sq(a, b, 1)).add_spec(coord_diff_sq(a, b, 2))
}

/// Whether `d` can be what subtracting the coordinates of `a` and `b` on
/// `axis` gives: the specified difference, wherever subtraction follows its
/// specification.
pub open spec fn may_be_diff<T: Copy + std::ops::Sub<Output = T>>(
    a: Point3D<T>,
    b: Point3D<T>,
    axis: int,
    d: T,
) -> bool {
    T::obeys_sub_spec() ==> d == coord_diff(a, b, axis)
}

/// Whether `s` can be what squaring the coordinate difference of `a` and
/// `b` on `axis` gives: the specified square, wherever subtraction and
/// multiplication follow their specifications.
pub open spec fn may_be_square<T: Copy + std::ops::Sub<Output = T> + std::ops::Mul<Output = T>>(
    a: Point3D<T>,
    b: Point3D<T>,
    axis: int,
    s: T,
) -> bool {
    T::obeys_sub_spec() && T::obeys_mul_spec() ==> s == coord_diff_sq(a, b, axis)
}

/// Whether `t` can be the sum of the first two squared coordinate
/// differences of `a` and `b`, wherever the operators follow their
/// specifications.
pub open spec fn may_be_partial_distance<
    T: Copy + std::ops::Sub<Output = T> + std::ops::Mul<Output = T> + std::ops::Add<Output = T>,
>(a: Point3D<T>, b: Point3D<T>, t: T) -> bool {
    T::obeys_sub_spec() && T::obeys_mul_spec() && T::obeys_add_spec() ==> t == coord_diff_sq(
        a,
        b,
        0,
    ).add_spec(coord_diff_sq(a, b, 1))
}

/// Whether every operation of `squared_distance(a, b)` is defined on every
/// operand that the operations before it can give (for integers: none of
/// them overflows).
pub open spec fn squared_distance_defined<
    T: Copy + std::ops::Sub<Output = T> + std::ops::Mul<Output = T> + std::ops::Add<Output = T>,
>(a: Point3D<T>, b: Point3D<T>) -> bool {
    &&& a.coords@[0].sub_req(b.coords@[0])
    &&& a.coords@[1].sub_req(b.coords@[1])
    &&& a.coords@[2].sub_req(b.coords@[2])
    &&& forall|d: T| #[trigger] may_be_diff(a, b, 0, d) ==> d.mul_req(d)
    &&& forall|d: T| #[trigger] may_be_diff(a, b, 1, d) ==> d.mul_req(d)
    &&& forall|d: T| #[trigger] may_be_diff(a, b, 2, d) ==> d.mul_req(d)
    &&& forall|s0: T, s1: T|
        #[trigger] may_be_square(a, b, 0, s0) && #[trigger] may_be_square(a, b, 1, s1)
            ==> s0.add_req(s1)
    &&& forall|t: T, s2: T|
        #[trigger] may_be_partial_distance(a, b, t) && #[trigger] may_be_square(a, b, 2, s2)
            ==> t.add_req(s2)
}

/// The product of the coordinates of `a` and `b` on `axis`.
pub open spec fn coord_product<T: Copy + std::ops::Mul<Output = T>>(
    a: Point3D<T>,
    b: Point3D<T>,
    axis: int,
) -> T {
    a.coords@[axis].mul_spec(b.coords@[axis])
}

/// The dot product of `a` and `b` taken as vectors: the coordinate
/// products summed from x to z.
pub open spec fn dot_product<T: Copy + std::ops::Mul<Output = T> + std::ops::Add<Output = T>>(
    a: Point3D<T>,
    b: Point3D<T>,
) -> T {
    coord_product(a, b, 0).add_spec(coord_product(a, b, 1)).add_spec(coord_product(a, b, 2))
}

/// Whether `p` can be what multiplying the coordinates of `a` and `b` on
/// `axis` gives: the specified product, wherever multiplication follows its
/// specification.
pub open spec fn may_be_product<T: Copy + std::ops::Mul<Output = T>>(
    a: Point3D<T>,
    b: Point3D<T>,
    axis: int,
    p: T,
) -> bool {
    T::obeys_mul_spec() ==> p == coord_product(a, b, axis)
}

/// Whether `t` can be the sum of the first two coordinate products of `a`
/// and `b`, wherever the operators follow their specifications.
pub open spec fn may_be_partial_dot<T: Copy + std::ops::Mul<Output = T> + std::ops::Add<Output = T>>(
    a: Point3D<T>,
    b: Point3D<T>,
    t: T,
) -> bool {
    T::obeys_mul_spec() && T::obeys_add_spec() ==> t == coord_product(a, b, 0).add_spec(
        coord_product(a, b, 1),
    )
}

/// Whether every operation of `dot_product(a, b)` is defined on every
/// operand that the operations before it can give (for integers: none of
/// them overflows).
pub open spec fn dot_product_defined<
    T: Copy + std::ops::Mul<Output = T> + std::ops::Add<Output = T>,
>(a: Point3D<T>, b: Point3D<T>) -> bool {
    &&& a.coords@[0].mul_req(b.coords@[0])
    &&& a.coords@[1].mul_req(b.coords@[1])
    &&& a.coords@[2].mul_req(b.coords@[2])
    &&& forall|p0: T, p1: T|
        #[trigger] may_be_product(a, b, 0, p0) && #[trigger] may_be_product(a, b, 1, p1)
            ==> p0.add_req(p1)
    &&& forall|t: T, p2: T|
        #[trigger] may_be_partial_dot(a, b, t) && #[trigger] may_be_product(a, b, 2, p2)
            ==> t.add_req(p2)
}

impl<T> Point3D<T> where
    T: Copy + std::ops::Sub<Output = T> + std::ops::Mul<Output = T> + std::ops::Add<Output = T>
        + PartialOrd + Default,
 {
    /// The squared Euclidean distance to another point.
    ///
    /// Each operation must be defined on the operands it meets. The result
    /// is `squared_distance` wherever the coordinate type's subtraction,
    /// multiplication and addition follow their specifications.
    pub fn squared_distance_to(&self, other: &Self) -> (r: T)
        requires
            squared_distance_defined(*self, *other),
        ensures
            T::obeys_sub_spec() && T::obeys_mul_spec() && T::obeys_add_spec() ==> r
                == squared_distance(*self, *other),
    {
        let dx = self.coords[0] - other.coords[0];
        let dy = self.coords[1] - other.coords[1];
        let dz = self.coords[2] - other.coords[2];
        assert(may_be_diff(*self, *other, 0, dx));
        assert(may_be_diff(*self, *other, 1, dy));
        assert(may_be_diff(*self, *other, 2, dz));
        let sx = dx * dx;
        let sy = dy * dy;
        let sz = dz * dz;
        assert(may_be_square(*self, *other, 0, sx));
        assert(may_be_square(*self, *other, 1, sy));
        assert(may_be_square(*self, *other, 2, sz));
        let partial = sx + sy;
        assert(may_be_partial_distance(*self, *other, partial));
        partial + sz
    }
}

impl<T> Point3D<T> where
    T: Copy + std::ops::Add<Output = T> + std::ops::Sub<Output = T> + std::ops::Mul<Output = T>
        + Default,
 {
    /// The sum of two points, coordinate by coordinate.
    pub fn add(&self, other: &Self) -> (r: Self)
        requires
            forall|i: int| 0 <= i < 3 ==> #[trigger] self.coords@[i].add_req(other.coords@[i]),
        ensures
            T::obeys_add_spec() ==> forall|i: int|
                0 <= i < 3 ==> #[trigger] r.coords@[i] == self.coords@[i].add_spec(
                    other.coords@[i],
                ),
    {
        proof {
            assert(self.coords@[0].add_req(other.coords@[0]));
            assert(self.coords@[1].add_req(other.coords@[1]));
            assert(self.coords@[2].add_req(other.coords@[2]));
        }
        Self::new(
            self.coords[0] + other.coords[0],
            self.coords[1] + other.coords[1],
            self.coords[2] + other.coords[2],
        )
    }

    /// The difference of two points, coordinate by coordinate.
    pub fn subtract(&self, other: &Self) -> (r: Self)
        requires
            forall|i: int| 0 <= i < 3 ==> #[trigger] self.coords@[i].sub_req(other.coords@[i]),
        ensures
            T::obeys_sub_spec() ==> forall|i: int|
                0 <= i < 3 ==> #[trigger] r.coords@[i] == self.coords@[i].sub_spec(
                    other.coords@[i],
                ),
    {
        proof {
            assert(self.coords@[0].sub_req(other.coords@[0]));
            assert(self.coords@[1].sub_req(other.coords@[1]));
            assert(self.coords@[2].sub_req(other.coords@[2]));
        }
        Self::new(
            self.coords[0] - other.coords[0],
            self.coords[1] - other.coords[1],
            self.coords[2] - other.coords[2],
        )
    }

    /// The point with every coordinate multiplied by `scalar`.
    pub fn scale(&self, scalar: T) -> (r: Self)
        requires
            forall|i: int| 0 <= i < 3 ==> #[trigger] self.coords@[i].mul_req(scalar),
        ensures
            T::obeys_mul_spec() ==> forall|i: int|
                0 <= i < 3 ==> #[trigger] r.coords@[i] == self.coords@[i].mul_spec(scalar),
    {
        proof {
            assert(self.coords@[0].mul_req(scalar));
            assert(self.coords@[1].mul_req(scalar));
            assert(self.coords@[2].mul_req(scalar));
        }
        Self::new(self.coords[0] * scalar, self.coords[1] * scalar, self.coords[2] * scalar)
    }
}

impl<T> Point3D<T> where T: Copy + std::ops::Mul<Output = T> + std::ops::Add<Output = T> {
    /// The dot product with another point, both taken as vectors.
    ///
    /// Each operation must be defined on the operands it meets. The result
    /// is `dot_product` wherever the coordinate type's multiplication and
    /// addition follow their specifications.
    pub fn dot(&self, other: &Self) -> (r: T)
        requires
            dot_product_defined(*self, *other),
        ensures
            T::obeys_mul_spec() && T::obeys_add_spec() ==> r == dot_product(*self, *other),
    {
        let px = self.coords[0] * other.coords[0];
        let py = self.coords[1] * other.coords[1];
        let pz = self.coords[2] * other.coords[2];
        assert(may_be_product(*self, *other, 0, px));
        assert(may_be_product(*self, *other, 1, py));
        assert(may_be_product(*self, *other, 2, pz));
        let partial = px + py;
        assert(may_be_partial_dot(*self, *other, partial));
        partial + pz
    }
}

/// Reads a coordinate by its axis: 0 for x, 1 for y, 2 for z.
impl<T> std::ops::Index<usize> for Point3D<T> {
    type Output = T;

    fn index(&self, index: usize) -> (r: &T)
        ensures
            *r == self.coords@[index as int],
    {
        &self.coords[index]
    }
}

impl<T> vstd::std_specs::core::IndexSpecImpl<usize> for Point3D<T> {
    /// Only the axes 0, 1 and 2 exist.
    open spec fn index_req(&self, index: &usize) -> bool {
        *index < 3
    }
}

/// Changes a coordinate by its axis: 0 for x, 1 for y, 2 for z.
impl<T> std::ops::IndexMut<usize> for Point3D<T> {
    fn index_mut(&mut self, index: usize) -> (r: &mut T)
        requires
            index < 3,
        ensures
            *r == old(self).coords@[index as int],
            final(self).coords@ == old(self).coords@.update(index as int, *final(r)),
    {
        &mut self.coords[index]
    }
}

/// A point from its coordinates `[x, y, z]`.
impl<T> From<[T; 3]> for Point3D<T> {
    fn from(coords: [T; 3]) -> (p: Self) {
        Point3D { coords }
    }
}

impl<T> vstd::std_specs::convert::FromSpecImpl<[T; 3]> for Point3D<T> {
    open spec fn obeys_from_spec() -> bool {
        true
    }

    open spec fn from_spec(coords: [T; 3]) -> Self {
        Point3D { coords }
    }
}

/// A point from its coordinates `(x, y, z)`.
impl<T: Copy> From<(T, T, T)> for Point3D<T> {
    fn from(coords: (T, T, T)) -> (p: Self) {
        Point3D { coords: [coords.0, coords.1, coords.2] }
    }
}

impl<T: Copy> vstd::std_specs::convert::FromSpecImpl<(T, T, T)> for Point3D<T> {
    open spec fn obeys_from_spec() -> bool {
        true
    }

    open spec fn from_spec(coords: (T, T, T)) -> Self {
        Point3D { coords: [coords.0, coords.1, coords.2] }
    }
}

/// The coordinates `[x, y, z]` of a point.
impl<T> From<Point3D<T>> for [T; 3] {
    fn from(point: Point3D<T>) -> (coords: Self) {
        point.coords
    }
}

impl<T> vstd::std_specs::convert::FromSpecImpl<Point3D<T>> for [T; 3] {
    open spec fn obeys_from_spec() -> bool {
        true
    }

    open spec fn from_spec(point: Point3D<T>) -> Self {
        point.coords
    }
}

/// Whether `value` lies between `low` and `high`, bounds included, by the
/// comparison that `PartialOrd` specifies for `T`.
pub open spec fn coord_between<T: PartialOrd>(low: T, value: T, high: T) -> bool {
    &&& value.partial_cmp_spec(&low) matches Some(
        std::cmp::Ordering::Greater
        | std::cmp::Ordering::Equal,
    )
    &&& value.partial_cmp_spec(&high) matches Some(
        std::cmp::Ordering::Less
        | std::cmp::Ordering::Equal,
    )
}

/// The lower bound after taking in `value`: `value` when it is below the
/// bound, else the bound.
pub open spec fn lowered<T: PartialOrd>(bound: T, value: T) -> T {
    if value.partial_cmp_spec(&bound) == Some(std::cmp::Ordering::Less) {
        value
    } else {
        bound
    }
}

/// The upper bound after taking in `value`: `value` when it is above the
/// bound, else the bound.
pub open spec fn raised<T: PartialOrd>(bound: T, value: T) -> T {
    if value.partial_cmp_spec(&bound) == Some(std::cmp::Ordering::Greater) {
        value
    } else {
        bound
    }
}

/// A box grown to take in a point contains it: for each axis, when the
/// point's coordinate compares with both old bounds and equals itself, it
/// lies between the lowered lower bound and the raised upper bound. (A
/// coordinate that compares with nothing, such as a floating-point NaN, is
/// left out.)
pub proof fn lemma_expanded_box_contains<T: PartialOrd>(
    before: BoundingBox<T>,
    after: BoundingBox<T>,
    point: Point3D<T>,
)
    requires
        forall|a: int|
            0 <= a < 3 ==> {
                &&& #[trigger] after.min.coords@[a] == lowered(
                    before.min.coords@[a],
                    point.coords@[a],
                )
                &&& after.max.coords@[a] == raised(before.max.coords@[a], point.coords@[a])
                &&& point.coords@[a].partial_cmp_spec(&before.min.coords@[a]) is Some
                &&& point.coords@[a].partial_cmp_spec(&before.max.coords@[a]) is Some
                &&& point.coords@[a].partial_cmp_spec(&point.coords@[a]) == Some(
                    std::cmp::Ordering::Equal,
                )
            },
    ensures
        forall|a: int|
            0 <= a < 3 ==> #[trigger] coord_between(
                after.min.coords@[a],
                point.coords@[a],
                after.max.coords@[a],
            ),
{
    assert forall|a: int| 0 <= a < 3 implies #[trigger] coord_between(
        after.min.coords@[a],
        point.coords@[a],
        after.max.coords@[a],
    ) by {
        assert(after.min.coords@[a] == lowered(before.min.coords@[a], point.coords@[a]));
    }
}

/// An axis-aligned box given by its lowest and highest corners.
#[derive(Debug, Clone, Copy, PartialEq)]
pub struct BoundingBox<T> {
    /// The corner with the lowest coordinates.
    pub min: Point3D<T>,
    /// The corner with the highest coordinates.
    pub max: Point3D<T>,
}

impl<T: Copy + PartialOrd + Default> BoundingBox<T> {
    /// Creates a box with the given corners.
    pub fn new(min: Point3D<T>, max: Point3D<T>) -> (b: Self)
        ensures
            b.min == min,
            b.max == max,
    {
        BoundingBox { min, max }
    }

    /// Creates the box whose two corners are the origin.
    pub fn empty() -> (b: Self)
        ensures
            b.min == b.max,
            b.min.coords@[0] == b.min.coords@[1],
            b.min.coords@[1] == b.min.coords@[2],
    {
        let origin = Point3D::origin();
        BoundingBox { min: origin, max: origin }
    }

    /// Whether the point lies inside the box or on its boundary.
    pub fn contains(&self, point: &Point3D<T>) -> (r: bool)
        ensures
            T::obeys_partial_cmp_spec() ==> (r <==> forall|a: int|
                0 <= a < 3 ==> #[trigger] coord_between(
                    self.min.coords@[a],
                    point.coords@[a],
                    self.max.coords@[a],
                )),
    {
        let r = point.x() >= self.min.x() && point.x() <= self.max.x() && point.y() >= self.min.y()
            && point.y() <= self.max.y() && point.z() >= self.min.z() && point.z()
            <= self.max.z();
        proof {
            if T::obeys_partial_cmp_spec() && !r {
                if !coord_between(self.min.coords@[0], point.coords@[0], self.max.coords@[0]) {
                } else if !coord_between(
                    self.min.coords@[1],
                    point.coords@[1],
                    self.max.coords@[1],
                ) {
                } else {
                    assert(!coord_between(
                        self.min.coords@[2],
                        point.coords@[2],
                        self.max.coords@[2],
                    ));
                }
            }
        }
        r
    }

    /// Grows the box to take in the point: on each axis the lower corner
    /// moves down to the point's coordinate when that is below it, and the
    /// upper corner moves up to it when that is above it.
    pub fn expand(&mut self, point: &Point3D<T>)
        ensures
            forall|a: int|
                0 <= a < 3 ==> {
                    &&& (#[trigger] final(self).min.coords@[a] == old(self).min.coords@[a]
                        || final(self).min.coords@[a] == point.coords@[a])
                    &&& (final(self).max.coords@[a] == old(self).max.coords@[a]
                        || final(self).max.coords@[a] == point.coords@[a])
                },
            T::obeys_partial_cmp_spec() ==> forall|a: int|
                0 <= a < 3 ==> {
                    &&& #[trigger] final(self).min.coords@[a] == lowered(
                        old(self).min.coords@[a],
                        point.coords@[a],
                    )
                    &&& final(self).max.coords@[a] == raised(
                        old(self).max.coords@[a],
                        point.coords@[a],
                    )
                },
    {
        if point.x() < self.min.x() {
            self.min.coords[0] = point.x();
        }
        if point.y() < self.min.y() {
            self.min.coords[1] = point.y();
        }
        if point.z() < self.min.z() {
            self.min.coords[2] = point.z();
        }
        if point.x() > self.max.x() {
            self.max.coords[0] = point.x();
        }
        if point.y() > self.max.y() {
            self.max.coords[1] = point.y();
        }
        if point.z() > self.max.z() {
            self.max.coords[2] = point.z();
        }
    }
}

impl<T: Copy + std::ops::Sub<Output = T> + Default> BoundingBox<T> {
    /// The extent of the box on each axis: the upper corner minus the lower
    /// one, coordinate by coordinate.
    pub fn dimensions(&self) -> (r: Point3D<T>)
        requires
            forall|a: int|
                0 <= a < 3 ==> #[trigger] self.max.coords@[a].sub_req(self.min.coords@[a]),
        ensures
            T::obeys_sub_spec() ==> forall|a: int|
                0 <= a < 3 ==> #[trigger] r.coords@[a] == self.max.coords@[a].sub_spec(
                    self.min.coords@[a],
                ),
    {
        proof {
            assert(self.max.coords@[0].sub_req(self.min.coords@[0]));
            assert(self.max.coords@[1].sub_req(self.min.coords@[1]));
            assert(self.max.coords@[2].sub_req(self.min.coords@[2]));
        }
        Point3D::new(
            self.max.x() - self.min.x(),
            self.max.y() - self.min.y(),
            self.max.z() - self.min.z(),
        )
    }
}

} // verus!
