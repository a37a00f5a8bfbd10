use crate::point::{coordinates_of, has_coordinates, Point, TriangulationPoint};
use std::marker::PhantomData;
use vstd::prelude::*;

verus! {

/// A view over two slices that can be indexed seamlessly across both.
///
/// The triangulation uses it to treat the corners of the supertriangle as
/// any other point, without having to touch the list of points it was given.
pub struct TwoPointsSlices<'a, S1: 'a, S2: 'a, T>(&'a [S1], &'a [S2], PhantomData<T>);

impl<'a, S1, S2, T> TwoPointsSlices<'a, S1, S2, T> where S1: Point<T>, S2: Point<T> {
    /// The points of the first slice.
    pub closed spec fn first(&self) -> Seq<S1> {
        self.0@
    }

    /// The points of the second slice.
    pub closed spec fn second(&self) -> Seq<S2> {
        self.1@
    }

    /// The number of points in both slices.
    pub open spec fn len(&self) -> nat {
        self.first().len() + self.second().len()
    }

    /// Make a new view over two slices of points.
    #[inline(always)]
    pub fn new(first: &'a [S1], second: &'a [S2]) -> (r: Self)
        ensures
            r.first() == first@,
            r.second() == second@,
    {
        TwoPointsSlices(first, second, PhantomData)
    }

    /// Get the point at a given index across both slices of points: the
    /// indices of the second slice follow those of the first.
    #[inline(always)]
    pub fn get(&self, index: usize) -> (r: TriangulationPoint<T>)
        requires
            index < self.len(),
        ensures
            index < self.first().len() ==> has_coordinates(self.first()[index as int], r),
            index >= self.first().len() ==> has_coordinates(
                self.second()[index - self.first().len()],
                r,
            ),
    {
        let first_slice_len = self.0.len();
        if index < first_slice_len {
            coordinates_of(&self.0[index])
        } else {
            coordinates_of(&self.1[index - first_slice_len])
        }
    }
}

} // verus!
