//! What holds of every triangulation.

use crate::mesh::{flagged, interior, inverted, lemma_flagged_source, within};
use crate::point::TriangulationPoint;
use crate::triangle::Triangle;
use crate::triangulate::{
    answers_given, is_triangulation, lemma_interior_corners, may_answer, mesh_after,
    step_answered,
};
use vstd::prelude::*;

verus! {

/// `in_circumcircle` has one answer to each question.
pub open spec fn is_deterministic<T, F>(in_circumcircle: F) -> bool where
    F: Fn(
        TriangulationPoint<T>,
        TriangulationPoint<T>,
        TriangulationPoint<T>,
        TriangulationPoint<T>,
    ) -> bool,
 {
    forall|
        question: (
            TriangulationPoint<T>,
            TriangulationPoint<T>,
            TriangulationPoint<T>,
            TriangulationPoint<T>,
        ),
        first: bool,
        second: bool,
    |
        #![trigger call_ensures(in_circumcircle, question, first), call_ensures(in_circumcircle, question, second)]
        call_ensures(in_circumcircle, question, first) && call_ensures(
            in_circumcircle,
            question,
            second,
        ) ==> first == second
}

/// Where `in_circumcircle` has one answer to each question, the answers it
/// gives while the first `count` points are inserted are determined.
pub proof fn lemma_answers_are_determined<T, F>(
    in_circumcircle: F,
    points: Seq<TriangulationPoint<T>>,
    points_count: usize,
    first: Seq<Seq<bool>>,
    second: Seq<Seq<bool>>,
    count: int,
) where
    F: Fn(
        TriangulationPoint<T>,
        TriangulationPoint<T>,
        TriangulationPoint<T>,
        TriangulationPoint<T>,
    ) -> bool,

    requires
        is_deterministic(in_circumcircle),
        answers_given(in_circumcircle, points, points_count, first),
        answers_given(in_circumcircle, points, points_count, second),
        0 <= count <= first.len(),
        count <= second.len(),
    ensures
        first.take(count) == second.take(count),
    decreases count,
{
    if count > 0 {
        lemma_answers_are_determined(
            in_circumcircle,
            points,
            points_count,
            first,
            second,
            count - 1,
        );
        let mesh = mesh_after(points_count, first.take(count - 1));
        let one = first[count - 1];
        let other = second[count - 1];
        assert(step_answered(in_circumcircle, points, mesh, count - 1, one));
        assert(step_answered(in_circumcircle, points, mesh, count - 1, other));
        assert forall|j: int| 0 <= j < one.len() implies one[j] == other[j] by {
            assert(may_answer(in_circumcircle, points, count - 1, mesh[j], one[j]));
            assert(may_answer(in_circumcircle, points, count - 1, mesh[j], other[j]));
        }
        assert(one =~= other);
        assert(first.take(count) =~= first.take(count - 1).push(one));
        assert(second.take(count) =~= second.take(count - 1).push(other));
    } else {
        assert(first.take(count) =~= second.take(count));
    }
}

/// Triangulating twice gives the same triangles in the same order: where
/// `in_circumcircle` has one answer to each question, the points have one
/// triangulation that it leads to.
pub proof fn lemma_triangulation_is_unique<T, F>(
    in_circumcircle: F,
    points: Seq<TriangulationPoint<T>>,
    points_count: usize,
    first: Seq<Triangle>,
    second: Seq<Triangle>,
) where
    F: Fn(
        TriangulationPoint<T>,
        TriangulationPoint<T>,
        TriangulationPoint<T>,
        TriangulationPoint<T>,
    ) -> bool,

    requires
        is_deterministic(in_circumcircle),
        is_triangulation(in_circumcircle, points, points_count, first),
        is_triangulation(in_circumcircle, points, points_count, second),
    ensures
        first == second,
{
    let one = choose|answers: Seq<Seq<bool>>|
        {
            &&& answers.len() == points_count
            &&& #[trigger] answers_given(in_circumcircle, points, points_count, answers)
            &&& first == interior(mesh_after(points_count, answers), points_count as int)
        };
    let other = choose|answers: Seq<Seq<bool>>|
        {
            &&& answers.len() == points_count
            &&& #[trigger] answers_given(in_circumcircle, points, points_count, answers)
            &&& second == interior(mesh_after(points_count, answers), points_count as int)
        };
    lemma_answers_are_determined(
        in_circumcircle,
        points,
        points_count,
        one,
        other,
        points_count as int,
    );
    assert(one.take(points_count as int) =~= one);
    assert(other.take(points_count as int) =~= other);
}

/// Every triangle of a triangulation has three different corners, and each
/// of them is one of the points that were triangulated.
pub proof fn lemma_triangulation_corners<T, F>(
    in_circumcircle: F,
    points: Seq<TriangulationPoint<T>>,
    points_count: usize,
    triangles: Seq<Triangle>,
) where
    F: Fn(
        TriangulationPoint<T>,
        TriangulationPoint<T>,
        TriangulationPoint<T>,
        TriangulationPoint<T>,
    ) -> bool,

    requires
        points_count + 2 <= usize::MAX,
        is_triangulation(in_circumcircle, points, points_count, triangles),
    ensures
        forall|j: int|
            0 <= j < triangles.len() ==> (#[trigger] triangles[j]).has_distinct_corners()
                && triangles[j].is_within(points_count as int),
{
    let answers = choose|answers: Seq<Seq<bool>>|
        {
            &&& answers.len() == points_count
            &&& #[trigger] answers_given(in_circumcircle, points, points_count, answers)
            &&& triangles == interior(mesh_after(points_count, answers), points_count as int)
        };
    lemma_interior_corners(points_count, answers);
}

/// A triangle of the mesh has stood in it since its third corner was
/// inserted, and each point that came later was found outside its
/// circumcircle: the lemma returns where the triangle stood when `point` came.
pub proof fn lemma_kept_since_made(
    points_count: usize,
    answers: Seq<Seq<bool>>,
    j: int,
    point: int,
) -> (k: int)
    requires
        answers.len() <= points_count,
        forall|i: int|
            0 <= i < answers.len() ==> (#[trigger] answers[i]).len() == mesh_after(
                points_count,
                answers.take(i),
            ).len(),
        0 <= j < mesh_after(points_count, answers).len(),
        mesh_after(points_count, answers)[j].2 < point < answers.len(),
    ensures
        0 <= k < mesh_after(points_count, answers.take(point)).len(),
        mesh_after(points_count, answers.take(point))[k] == mesh_after(points_count, answers)[j],
        !answers[point][k],
    decreases answers.len(),
{
    let last = answers.len() - 1;
    let earlier = mesh_after(points_count, answers.drop_last());
    let answer = answers.last();
    let good = flagged(earlier, inverted(answer), earlier.len() as int);
    assert(answers.take(last) =~= answers.drop_last());
    assert(j < good.len());
    let before = lemma_flagged_source(earlier, inverted(answer), earlier.len() as int, j);
    if point == last {
        before
    } else {
        assert forall|i: int| 0 <= i < answers.drop_last().len() implies (
        #[trigger] answers.drop_last()[i]).len() == mesh_after(
            points_count,
            answers.drop_last().take(i),
        ).len() by {
            assert(answers.drop_last().take(i) =~= answers.take(i));
            assert(answers.drop_last()[i] == answers[i]);
        }
        assert(answers.drop_last().take(point) =~= answers.take(point));
        lemma_kept_since_made(points_count, answers.drop_last(), before, point)
    }
}

/// No point lies within the circumcircle of a triangle that was made before
/// the point came: of every triangle of a triangulation and every point after
/// the triangle's third corner, `in_circumcircle` has said so.
pub proof fn lemma_later_points_are_outside<T, F>(
    in_circumcircle: F,
    points: Seq<TriangulationPoint<T>>,
    points_count: usize,
    triangles: Seq<Triangle>,
    j: int,
    point: int,
) where
    F: Fn(
        TriangulationPoint<T>,
        TriangulationPoint<T>,
        TriangulationPoint<T>,
        TriangulationPoint<T>,
    ) -> bool,

    requires
        is_triangulation(in_circumcircle, points, points_count, triangles),
        0 <= j < triangles.len(),
        triangles[j].2 < point < points_count,
    ensures
        may_answer(in_circumcircle, points, point, triangles[j], false),
{
    let answers = choose|answers: Seq<Seq<bool>>|
        {
            &&& answers.len() == points_count
            &&& #[trigger] answers_given(in_circumcircle, points, points_count, answers)
            &&& triangles == interior(mesh_after(points_count, answers), points_count as int)
        };
    let mesh = mesh_after(points_count, answers);
    let at = lemma_flagged_source(mesh, within(mesh, points_count as int), mesh.len() as int, j);
    assert forall|i: int| 0 <= i < answers.len() implies (#[trigger] answers[i]).len()
        == mesh_after(points_count, answers.take(i)).len() by {
        assert(step_answered(
            in_circumcircle,
            points,
            mesh_after(points_count, answers.take(i)),
            i,
            answers[i],
        ));
    }
    let k = lemma_kept_since_made(points_count, answers, at, point);
    assert(step_answered(
        in_circumcircle,
        points,
        mesh_after(points_count, answers.take(point)),
        point,
        answers[point],
    ));
}

} // verus!
