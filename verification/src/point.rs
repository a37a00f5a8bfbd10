use std::cmp::Ordering;
use vstd::prelude::*;
use vstd::std_specs::cmp::PartialOrdSpec;

verus! {

/// A trait for two-dimensional points.
///
/// This is the trait a point type needs to implement to be handed to the
/// triangulation. A point is not expected to move: `x` and `y` return the
/// same coordinates each time they are asked.
pub trait Point<T> {
    /// Returns the `x` component of this point.
    fn x(&self) -> T;

    /// Returns the `y` component of this point.
    fn y(&self) -> T;
}

/// A two-dimensional point of generic precision, which implements the `Point` trait.
///
/// The triangulation also uses it for the coordinates it reads from points
/// of other types.
#[derive(Clone, Copy, PartialEq, Debug)]
pub struct TriangulationPoint<T> {
    pub x: T,
    pub y: T,
}

impl<T> TriangulationPoint<T> {
    /// Makes a new point from xy coordinates.
    #[inline(always)]
    pub fn new(x: T, y: T) -> (r: Self)
        ensures
            r.x == x,
            r.y == y,
    {
        TriangulationPoint { x, y }
    }
}

impl<T: Copy> Point<T> for TriangulationPoint<T> {
    /// The `x` component of this triangulation point.
    #[inline(always)]
    fn x(&self) -> (r: T)
        ensures
            r == self.x,
    {
        self.x
    }

    /// The `y` component of this triangulation point.
    #[inline(always)]
    fn y(&self) -> (r: T)
        ensures
            r == self.y,
    {
        self.y
    }
}

/// `x` may return this coordinate when asked of `point`.
pub open spec fn has_x<T, P: Point<T>>(point: P, x: T) -> bool {
    call_ensures(P::x, (&point,), x)
}

/// `y` may return this coordinate when asked of `point`.
pub open spec fn has_y<T, P: Point<T>>(point: P, y: T) -> bool {
    call_ensures(P::y, (&point,), y)
}

/// `x` and `y` may return these coordinates when asked of `point`.
pub open spec fn has_coordinates<T, P: Point<T>>(point: P, coordinates: TriangulationPoint<T>) -> bool {
    has_x(point, coordinates.x) && has_y(point, coordinates.y)
}

/// The point does not move: whenever it is asked, it has the same coordinates.
pub open spec fn is_fixed<T, P: Point<T>>(point: P) -> bool {
    forall|first: TriangulationPoint<T>, second: TriangulationPoint<T>|
        #![trigger has_coordinates(point, first), has_coordinates(point, second)]
        has_coordinates(point, first) && has_coordinates(point, second) ==> first == second
}

/// The coordinates of a point that does not move, once it has been asked.
pub open spec fn position<T, P: Point<T>>(point: P) -> TriangulationPoint<T> {
    choose|coordinates: TriangulationPoint<T>| has_coordinates(point, coordinates)
}

/// Reads the coordinates of a point.
pub fn coordinates_of<T, P: Point<T>>(point: &P) -> (r: TriangulationPoint<T>)
    ensures
        has_coordinates(*point, r),
        is_fixed(*point) ==> r == position(*point),
{
    let r = TriangulationPoint::new(point.x(), point.y());
    proof {
        assert(has_coordinates(*point, r));
        assert(has_coordinates(*point, position(*point)));
    }
    r
}

/// A `TriangulationPoint` does not move, and its coordinates are its fields.
pub proof fn lemma_triangulation_point_is_fixed<T: Copy>(point: TriangulationPoint<T>)
    ensures
        is_fixed(point),
        forall|coordinates: TriangulationPoint<T>| #[trigger]
            has_coordinates(point, coordinates) ==> coordinates == point,
{
}

/// `partial_cmp` may give `result` when it compares `a` with `b`. Where the
/// type compares as its `partial_cmp_spec` says, `result` is what that says.
pub open spec fn compares_as<T: PartialOrd>(a: T, b: T, result: Option<Ordering>) -> bool {
    call_ensures(T::partial_cmp, (&a, &b), result)
}

/// The order of two points, from how their `x` and how their `y` compare:
/// `x` decides unless the two are equal, and then `y` does. Coordinates that
/// cannot be compared put the first point after the second.
pub open spec fn point_ordering(by_x: Option<Ordering>, by_y: Option<Ordering>) -> Ordering {
    match by_x {
        Some(Ordering::Equal) => match by_y {
            Some(o) => o,
            None => Ordering::Greater,
        },
        Some(o) => o,
        None => Ordering::Greater,
    }
}

/// Decides the order of two points from how their `x` and how their `y`
/// compare, as `point_ordering` states it.
pub fn resolve_ordering(by_x: Option<Ordering>, by_y: Option<Ordering>) -> (r: Ordering)
    ensures
        r == point_ordering(by_x, by_y),
{
    match by_x {
        Some(Ordering::Equal) => match by_y {
            Some(o) => o,
            None => Ordering::Greater,
        },
        Some(o) => o,
        None => Ordering::Greater,
    }
}

/// A utility function to sort points.
///
/// Use this function by passing it to `sort_by` or `sort_unstable_by` on a
/// slice of points. The ordering this function applies is what `triangulate`
/// expects: ascending `x`, and ascending `y` among equal `x`.
///
/// The `x` coordinates of the two points are compared with `partial_cmp`,
/// and where that finds them equal, the `y` coordinates are read and
/// compared too. The result is `point_ordering` of what the comparisons gave.
pub fn sort_points<T, A, B>(a: &A, b: &B) -> (r: Ordering) where
    T: PartialOrd,
    A: Point<T>,
    B: Point<T>,

    ensures
        exists|ax: T, bx: T, by_x: Option<Ordering>|
            #![trigger has_x(*a, ax), has_x(*b, bx), point_ordering(by_x, None)]
            {
                &&& has_x(*a, ax)
                &&& has_x(*b, bx)
                &&& compares_as(ax, bx, by_x)
                &&& by_x != Some(Ordering::Equal) ==> r == point_ordering(by_x, None)
                &&& by_x == Some(Ordering::Equal) ==> exists|
                    ay: T,
                    by: T,
                    by_y: Option<Ordering>,
                |
                    #![trigger has_y(*a, ay), has_y(*b, by), point_ordering(by_x, by_y)]
                    {
                        &&& has_y(*a, ay)
                        &&& has_y(*b, by)
                        &&& compares_as(ay, by, by_y)
                        &&& r == point_ordering(by_x, by_y)
                    }
            },
{
    let ax = a.x();
    let bx = b.x();
    let by_x = ax.partial_cmp(&bx);
    match by_x {
        Some(Ordering::Equal) => {
            let ay = a.y();
            let by = b.y();
            let by_y = ay.partial_cmp(&by);
            let r = resolve_ordering(by_x, by_y);
            assert(has_y(*a, ay) && has_y(*b, by) && r == point_ordering(by_x, by_y));
            assert(has_x(*a, ax) && has_x(*b, bx) && point_ordering(by_x, None) == point_ordering(
                by_x,
                None,
            ));
            r
        },
        _ => {
            let r = resolve_ordering(by_x, None);
            assert(has_x(*a, ax) && has_x(*b, bx) && r == point_ordering(by_x, None));
            r
        },
    }
}

} // verus!
