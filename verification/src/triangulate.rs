//! The triangulation itself: the points are inserted one after the other
//! into a mesh that starts as a single triangle around all of them.

use crate::error::TriangulateError;
use crate::mesh::{
    boundary, edges_of, edges_of_flagged, fan, flagged, insert_point, interior, inverted,
    lemma_edges_of_flagged_all, lemma_flagged_all, remove_outside, unshared, with_point, within,
};
use crate::edge::Edge;
use crate::point::{has_coordinates, is_fixed, position, Point, TriangulationPoint};
use crate::slices::TwoPointsSlices;
use crate::triangle::Triangle;
use vstd::prelude::*;

verus! {

/// The triangle around all the points. Its corners follow the points given:
/// they are the points `points_count`, `points_count + 1` and `points_count + 2`.
pub open spec fn supertriangle(points_count: usize) -> Triangle {
    Triangle(points_count, (points_count + 1) as usize, (points_count + 2) as usize)
}

/// The mesh after one point was inserted for each entry of `answers`, the
/// points taken in their order. `answers[i]` says of each triangle that the
/// mesh held when point `i` came whether the point lay within its
/// circumcircle.
pub open spec fn mesh_after(points_count: usize, answers: Seq<Seq<bool>>) -> Seq<Triangle>
    decreases answers.len(),
{
    if answers.len() == 0 {
        seq![supertriangle(points_count)]
    } else {
        with_point(
            mesh_after(points_count, answers.drop_last()),
            answers.last(),
            (answers.len() - 1) as usize,
        )
    }
}

/// None of the points moves.
pub open spec fn are_fixed<T, P: Point<T>>(points: Seq<P>) -> bool {
    forall|i: int| 0 <= i < points.len() ==> is_fixed(#[trigger] points[i])
}

/// Each of the first `count` points has been asked for its coordinates.
pub open spec fn are_known<T, P: Point<T>>(points: Seq<P>, count: int) -> bool {
    forall|i: int| 0 <= i < count ==> has_coordinates(#[trigger] points[i], position(points[i]))
}

/// The coordinates of the points handed in and then the corners of the
/// supertriangle, as one list.
pub open spec fn all_points<T, P: Point<T>>(
    points: Seq<P>,
    supertriangle_points: Seq<TriangulationPoint<T>>,
) -> Seq<TriangulationPoint<T>> {
    Seq::new(points.len(), |i: int| position(points[i])) + supertriangle_points
}

/// `in_circumcircle` answers every question.
pub open spec fn always_answers<T, F>(in_circumcircle: F) -> bool where
    F: Fn(
        TriangulationPoint<T>,
        TriangulationPoint<T>,
        TriangulationPoint<T>,
        TriangulationPoint<T>,
    ) -> bool,
 {
    forall|
        question: (
            TriangulationPoint<T>,
            TriangulationPoint<T>,
            TriangulationPoint<T>,
            TriangulationPoint<T>,
        ),
    | #[trigger] call_requires(in_circumcircle, question)
}

/// `answer` is what `in_circumcircle` may say when asked whether point
/// `point` lies within the circumcircle of `triangle`.
pub open spec fn may_answer<T, F>(
    in_circumcircle: F,
    points: Seq<TriangulationPoint<T>>,
    point: int,
    triangle: Triangle,
    answer: bool,
) -> bool where
    F: Fn(
        TriangulationPoint<T>,
        TriangulationPoint<T>,
        TriangulationPoint<T>,
        TriangulationPoint<T>,
    ) -> bool,
 {
    call_ensures(
        in_circumcircle,
        (
            points[point],
            points[triangle.0 as int],
            points[triangle.1 as int],
            points[triangle.2 as int],
        ),
        answer,
    )
}

/// `answer` holds, for each of `triangles` in turn, what `in_circumcircle`
/// may say of point `point` and that triangle.
pub open spec fn step_answered<T, F>(
    in_circumcircle: F,
    points: Seq<TriangulationPoint<T>>,
    triangles: Seq<Triangle>,
    point: int,
    answer: Seq<bool>,
) -> bool where
    F: Fn(
        TriangulationPoint<T>,
        TriangulationPoint<T>,
        TriangulationPoint<T>,
        TriangulationPoint<T>,
    ) -> bool,
 {
    &&& answer.len() == triangles.len()
    &&& forall|j: int|
        0 <= j < triangles.len() ==> may_answer(
            in_circumcircle,
            points,
            point,
            triangles[j],
            #[trigger] answer[j],
        )
}

/// Each entry of `answers` is what `in_circumcircle` may say of that point
/// and the mesh that the entries before it lead to.
pub open spec fn answers_given<T, F>(
    in_circumcircle: F,
    points: Seq<TriangulationPoint<T>>,
    points_count: usize,
    answers: Seq<Seq<bool>>,
) -> bool where
    F: Fn(
        TriangulationPoint<T>,
        TriangulationPoint<T>,
        TriangulationPoint<T>,
        TriangulationPoint<T>,
    ) -> bool,
 {
    forall|i: int|
        0 <= i < answers.len() ==> step_answered(
            in_circumcircle,
            points,
            mesh_after(points_count, answers.take(i)),
            i,
            #[trigger] answers[i],
        )
}

/// `triangles` is a triangulation of the first `points_count` of `points`
/// that `in_circumcircle` leads to: what is left of the mesh, after every
/// point was inserted on the answers of `in_circumcircle`, once the triangles
/// with a corner of the supertriangle are removed.
pub open spec fn is_triangulation<T, F>(
    in_circumcircle: F,
    points: Seq<TriangulationPoint<T>>,
    points_count: usize,
    triangles: Seq<Triangle>,
) -> bool where
    F: Fn(
        TriangulationPoint<T>,
        TriangulationPoint<T>,
        TriangulationPoint<T>,
        TriangulationPoint<T>,
    ) -> bool,
 {
    exists|answers: Seq<Seq<bool>>|
        {
            &&& answers.len() == points_count
            &&& #[trigger] answers_given(in_circumcircle, points, points_count, answers)
            &&& triangles == interior(mesh_after(points_count, answers), points_count as int)
        }
}

/// `index` is a point that a triangle of the mesh can have as a corner when
/// `inserted` points were inserted: one of those, or a corner of the
/// supertriangle.
pub open spec fn is_mesh_point(index: usize, points_count: usize, inserted: int) -> bool {
    index < inserted || points_count <= index <= points_count + 2
}

/// The edge joins two different points of the mesh.
pub open spec fn is_mesh_edge(edge: Edge, points_count: usize, inserted: int) -> bool {
    &&& edge.0 != edge.1
    &&& is_mesh_point(edge.0, points_count, inserted)
    &&& is_mesh_point(edge.1, points_count, inserted)
}

/// The triangle has three different points of the mesh as its corners.
pub open spec fn is_mesh_triangle(triangle: Triangle, points_count: usize, inserted: int) -> bool {
    &&& triangle.has_distinct_corners()
    &&& is_mesh_point(triangle.0, points_count, inserted)
    &&& is_mesh_point(triangle.1, points_count, inserted)
    &&& is_mesh_point(triangle.2, points_count, inserted)
}

/// Every triangle of the mesh has three different corners, each of them a
/// point that was inserted or a corner of the supertriangle.
pub proof fn lemma_mesh_triangles(points_count: usize, answers: Seq<Seq<bool>>)
    requires
        points_count + 2 <= usize::MAX,
        answers.len() <= points_count,
    ensures
        forall|j: int|
            0 <= j < mesh_after(points_count, answers).len() ==> is_mesh_triangle(
                #[trigger] mesh_after(points_count, answers)[j],
                points_count,
                answers.len() as int,
            ),
    decreases answers.len(),
{
    if answers.len() > 0 {
        let inserted = answers.len() - 1;
        let point = inserted as usize;
        let earlier = mesh_after(points_count, answers.drop_last());
        let answer = answers.last();
        lemma_mesh_triangles(points_count, answers.drop_last());
        let good = flagged(earlier, inverted(answer), earlier.len() as int);
        let edges = edges_of_flagged(earlier, answer, earlier.len() as int);
        let fits = |t: Triangle| is_mesh_triangle(t, points_count, inserted);
        let joins = |e: Edge| is_mesh_edge(e, points_count, inserted);
        assert forall|k: int| 0 <= k < earlier.len() implies fits(#[trigger] earlier[k]) by {}
        lemma_flagged_all(earlier, inverted(answer), earlier.len() as int, fits);
        assert forall|k: int| 0 <= k < earlier.len() implies {
            &&& joins(#[trigger] edges_of(earlier[k])[0])
            &&& joins(edges_of(earlier[k])[1])
            &&& joins(edges_of(earlier[k])[2])
        } by {
            assert(fits(earlier[k]));
        }
        lemma_edges_of_flagged_all(earlier, answer, earlier.len() as int, joins);
        assert forall|k: int| 0 <= k < edges.len() implies joins(#[trigger] edges[k]) by {}
        lemma_flagged_all(edges, unshared(edges), edges.len() as int, joins);
        let around = fan(boundary(edges), point);
        assert forall|j: int| 0 <= j < (good + around).len() implies is_mesh_triangle(
            #[trigger] (good + around)[j],
            points_count,
            answers.len() as int,
        ) by {
            if j < good.len() {
                assert(fits(good[j]));
            } else {
                assert(joins(boundary(edges)[j - good.len()]));
            }
        }
    }
}

/// When every point was inserted, each triangle of the mesh without a corner
/// of the supertriangle has three different corners among the points.
pub proof fn lemma_interior_corners(points_count: usize, answers: Seq<Seq<bool>>)
    requires
        points_count + 2 <= usize::MAX,
        answers.len() <= points_count,
    ensures
        forall|j: int|
            0 <= j < interior(mesh_after(points_count, answers), points_count as int).len() ==> {
                let triangle = #[trigger] interior(
                    mesh_after(points_count, answers),
                    points_count as int,
                )[j];
                triangle.has_distinct_corners() && triangle.is_within(points_count as int)
            },
{
    lemma_mesh_triangles(points_count, answers);
    let mesh = mesh_after(points_count, answers);
    let inner = |t: Triangle| t.has_distinct_corners() && t.is_within(points_count as int);
    assert forall|k: int|
        0 <= k < mesh.len() && within(mesh, points_count as int)[k] implies inner(
        #[trigger] mesh[k],
    ) by {
        assert(is_mesh_triangle(mesh[k], points_count, answers.len() as int));
    }
    lemma_flagged_all(mesh, within(mesh, points_count as int), mesh.len() as int, inner);
}

/// Generate the Delaunay triangulation of given set of points.
///
/// It takes a slice of points, and returns a vector of triangles whose
/// corners are indices into that slice. The points need to be sorted by
/// increasing `x` value, and by increasing `y` among equal `x`:
/// `sort_points` says so of two points, and can be handed to `sort_by` or
/// `sort_unstable_by`.
///
/// The geometry comes from the caller. `supertriangle_points` are the
/// corners of a triangle that encloses all the points, and
/// `in_circumcircle(point, t0, t1, t2)` says whether `point` lies within or
/// on the circumcircle of the triangle `t0`, `t1`, `t2`. It is asked about
/// one of the points handed in, and a triangle with corners among them and
/// the corners of the supertriangle.
///
/// Fewer than three points are not triangulated:
/// the result is then `TriangulateError::NotEnoughPoints`, and
/// `in_circumcircle` is not asked.
///
/// Whatever `in_circumcircle` answers, each triangle returned has three
/// different corners among the points. Where the points do not move, the
/// triangles are those that the answers lead to, in the order in which they
/// were made.
pub fn triangulate<T, P, F>(
    points: &[P],
    supertriangle_points: &[TriangulationPoint<T>; 3],
    in_circumcircle: F,
) -> (result: Result<Vec<Triangle>, TriangulateError>) where
    T: Copy,
    P: Point<T>,
    F: Fn(
        TriangulationPoint<T>,
        TriangulationPoint<T>,
        TriangulationPoint<T>,
        TriangulationPoint<T>,
    ) -> bool,

    requires
        points@.len() + 2 <= usize::MAX,
        always_answers(in_circumcircle),
    ensures
        points@.len() < 3 ==> result == Err::<Vec<Triangle>, TriangulateError>(
            TriangulateError::NotEnoughPoints,
        ),
        points@.len() >= 3 ==> result is Ok,
        result matches Ok(triangles) ==> forall|j: int|
            0 <= j < triangles@.len() ==> (#[trigger] triangles@[j]).has_distinct_corners()
                && triangles@[j].is_within(points@.len() as int),
        result matches Ok(triangles) ==> (are_fixed(points@) ==> {
            &&& are_known(points@, points@.len() as int)
            &&& is_triangulation(
                in_circumcircle,
                all_points(points@, supertriangle_points@),
                points@.len() as usize,
                triangles@,
            )
        }),
{
    // Make sure we have enough points to do a triangulation.
    let points_count = points.len();
    if points_count < 3 {
        return Err(TriangulateError::NotEnoughPoints);
    }

    // One list of our points and the supertriangle.
    let all = TwoPointsSlices::new(points, supertriangle_points.as_slice());
    let ghost fixed = are_fixed(points@);
    let ghost everything = all_points(points@, supertriangle_points@);

    // The list of triangles we're gonna fill, initialized with the supertriangle.
    let mut triangles: Vec<Triangle> = Vec::new();
    triangles.push(Triangle(points_count, points_count + 1, points_count + 2));
    let ghost mut answers: Seq<Seq<bool>> = Seq::empty();
    assert(triangles@ =~= mesh_after(points_count, answers));

    // Include each of the input point into the mesh.
    let mut in_circle: Vec<bool> = Vec::new();
    let mut i: usize = 0;
    while i < points_count
        invariant
            points_count == points@.len(),
            points_count + 2 <= usize::MAX,
            all.first() == points@,
            all.second() == supertriangle_points@,
            fixed == are_fixed(points@),
            everything == all_points(points@, supertriangle_points@),
            always_answers(in_circumcircle),
            i <= points_count,
            answers.len() == i,
            fixed ==> are_known(points@, i as int),
            fixed ==> answers_given(in_circumcircle, everything, points_count, answers),
            triangles@ == mesh_after(points_count, answers),
        decreases points_count - i,
    {
        let point = all.get(i);
        let count = triangles.len();
        proof {
            lemma_mesh_triangles(points_count, answers);
        }
        in_circle.clear();
        let mut j: usize = 0;
        while j < count
            invariant
                points_count == points@.len(),
                points_count + 2 <= usize::MAX,
                all.first() == points@,
                all.second() == supertriangle_points@,
                fixed == are_fixed(points@),
                everything == all_points(points@, supertriangle_points@),
                always_answers(in_circumcircle),
                i < points_count,
                fixed ==> are_known(points@, i + 1),
                fixed ==> point == everything[i as int],
                count == triangles@.len(),
                j <= count,
                in_circle@.len() == j,
                forall|k: int|
                    0 <= k < count ==> is_mesh_triangle(
                        #[trigger] triangles@[k],
                        points_count,
                        i as int,
                    ),
                fixed ==> forall|k: int|
                    0 <= k < j ==> may_answer(
                        in_circumcircle,
                        everything,
                        i as int,
                        triangles@[k],
                        #[trigger] in_circle@[k],
                    ),
            decreases count - j,
        {
            let t = &triangles[j];
            assert(is_mesh_triangle(triangles@[j as int], points_count, i as int));
            let t0 = corner(&all, t.0);
            let t1 = corner(&all, t.1);
            let t2 = corner(&all, t.2);
            assert(call_requires(in_circumcircle, (point, t0, t1, t2)));
            let inside = in_circumcircle(point, t0, t1, t2);
            in_circle.push(inside);
            j += 1;
        }
        insert_point(&mut triangles, i, in_circle.as_slice());
        proof {
            let longer = answers.push(in_circle@);
            assert(longer.drop_last() =~= answers);
            if fixed {
                assert forall|k: int| 0 <= k < longer.len() implies step_answered(
                    in_circumcircle,
                    everything,
                    mesh_after(points_count, longer.take(k)),
                    k,
                    #[trigger] longer[k],
                ) by {
                    if k < i {
                        assert(longer.take(k) =~= answers.take(k));
                        assert(longer[k] == answers[k]);
                    } else {
                        assert(longer.take(k) =~= answers);
                    }
                }
            }
            answers = longer;
        }
        i += 1;
    }

    // Remove triangles with supertriangle vertices.
    proof {
        lemma_interior_corners(points_count, answers);
    }
    remove_outside(&mut triangles, points_count);
    Ok(triangles)
}

/// Reads the coordinates of a point that was asked for them before, or of a
/// corner of the supertriangle.
fn corner<T, P>(all: &TwoPointsSlices<P, TriangulationPoint<T>, T>, index: usize) -> (r:
    TriangulationPoint<T>) where T: Copy, P: Point<T>
    requires
        index < all.len(),
    ensures
        are_fixed(all.first()) && (index < all.first().len() ==> are_known(
            all.first(),
            index + 1,
        )) ==> r == all_points(all.first(), all.second())[index as int],
{
    all.get(index)
}

} // verus!
