//! One insertion step of the triangulation, on point indices alone.
//!
//! A step is handed, for every triangle of the mesh, whether the new point
//! lies within its circumcircle. It removes those triangles, finds the
//! boundary of the hole they leave, and closes the hole with a fan of new
//! triangles around the new point.

use crate::edge::Edge;
use crate::triangle::Triangle;
use vstd::prelude::*;

verus! {

/// Among the first `count` of `items`, those whose flag is set, in their order.
pub open spec fn flagged<A>(items: Seq<A>, flags: Seq<bool>, count: int) -> Seq<A>
    decreases count,
{
    if count <= 0 {
        Seq::empty()
    } else {
        let before = flagged(items, flags, count - 1);
        if flags[count - 1] {
            before.push(items[count - 1])
        } else {
            before
        }
    }
}

/// Each flag turned around.
pub open spec fn inverted(flags: Seq<bool>) -> Seq<bool> {
    Seq::new(flags.len(), |j: int| !flags[j])
}

/// The three edges of a triangle, each from one corner to the next.
pub open spec fn edges_of(triangle: Triangle) -> Seq<Edge> {
    seq![
        Edge(triangle.0, triangle.1),
        Edge(triangle.1, triangle.2),
        Edge(triangle.2, triangle.0),
    ]
}

/// The edges of those among the first `count` triangles whose flag is set:
/// three for each, triangle after triangle.
pub open spec fn edges_of_flagged(triangles: Seq<Triangle>, flags: Seq<bool>, count: int) -> Seq<
    Edge,
>
    decreases count,
{
    if count <= 0 {
        Seq::empty()
    } else {
        let before = edges_of_flagged(triangles, flags, count - 1);
        if flags[count - 1] {
            before + edges_of(triangles[count - 1])
        } else {
            before
        }
    }
}

/// The edge at `other` is another occurrence of the edge at `index`, in
/// either direction.
pub open spec fn repeats(edges: Seq<Edge>, index: int, other: int) -> bool {
    other != index && edges[other].joins_same_points(&edges[index])
}

/// No other edge of the list joins the same two points as the edge at `index`.
pub open spec fn occurs_once(edges: Seq<Edge>, index: int) -> bool {
    forall|other: int| 0 <= other < edges.len() ==> !#[trigger] repeats(edges, index, other)
}

/// For each edge of the list, whether it occurs once.
pub open spec fn unshared(edges: Seq<Edge>) -> Seq<bool> {
    Seq::new(edges.len(), |index: int| occurs_once(edges, index))
}

/// The edges that occur once in the list, in their order. Of the edges of a
/// set of triangles these are the boundary: an edge that two of the triangles
/// share occurs twice and is dropped, both times.
pub open spec fn boundary(edges: Seq<Edge>) -> Seq<Edge> {
    flagged(edges, unshared(edges), edges.len() as int)
}

/// One triangle for each edge, from the edge's two points to `point`.
pub open spec fn fan(edges: Seq<Edge>, point: usize) -> Seq<Triangle> {
    Seq::new(edges.len(), |j: int| Triangle(edges[j].0, edges[j].1, point))
}

/// The mesh after `point` was inserted, where `in_circumcircle` says of each
/// triangle whether the point lies within its circumcircle: the triangles
/// for which it does not, in their order, and then a fan around the point
/// over the boundary of the others.
pub open spec fn with_point(triangles: Seq<Triangle>, in_circumcircle: Seq<bool>, point: usize) -> Seq<
    Triangle,
> {
    flagged(triangles, inverted(in_circumcircle), triangles.len() as int) + fan(
        boundary(edges_of_flagged(triangles, in_circumcircle, triangles.len() as int)),
        point,
    )
}

/// For each triangle, whether all its corners are among the first `count` points.
pub open spec fn within(triangles: Seq<Triangle>, count: int) -> Seq<bool> {
    Seq::new(triangles.len(), |j: int| triangles[j].is_within(count))
}

/// The triangles whose corners are all among the first `count` points, in
/// their order.
pub open spec fn interior(triangles: Seq<Triangle>, count: int) -> Seq<Triangle> {
    flagged(triangles, within(triangles, count), triangles.len() as int)
}

/// What holds of every item with a set flag holds of every flagged item.
pub proof fn lemma_flagged_all<A>(items: Seq<A>, flags: Seq<bool>, count: int, holds: spec_fn(A) -> bool)
    requires
        forall|k: int| 0 <= k < count && flags[k] ==> holds(#[trigger] items[k]),
    ensures
        forall|j: int|
            0 <= j < flagged(items, flags, count).len() ==> holds(
                #[trigger] flagged(items, flags, count)[j],
            ),
    decreases count,
{
    if count > 0 {
        lemma_flagged_all(items, flags, count - 1, holds);
        let before = flagged(items, flags, count - 1);
        let now = flagged(items, flags, count);
        assert forall|j: int| 0 <= j < now.len() implies holds(#[trigger] now[j]) by {
            if j < before.len() {
                assert(holds(before[j]));
                assert(now[j] == before[j]);
            } else {
                assert(flags[count - 1]);
                assert(holds(items[count - 1]));
                assert(now[j] == items[count - 1]);
            }
        }
    }
}

/// What holds of the three edges of every triangle with a set flag holds of
/// every edge collected from them.
pub proof fn lemma_edges_of_flagged_all(
    triangles: Seq<Triangle>,
    flags: Seq<bool>,
    count: int,
    holds: spec_fn(Edge) -> bool,
)
    requires
        forall|k: int|
            0 <= k < count && flags[k] ==> {
                &&& holds(#[trigger] edges_of(triangles[k])[0])
                &&& holds(edges_of(triangles[k])[1])
                &&& holds(edges_of(triangles[k])[2])
            },
    ensures
        forall|j: int|
            0 <= j < edges_of_flagged(triangles, flags, count).len() ==> holds(
                #[trigger] edges_of_flagged(triangles, flags, count)[j],
            ),
    decreases count,
{
    if count > 0 {
        lemma_edges_of_flagged_all(triangles, flags, count - 1, holds);
        let before = edges_of_flagged(triangles, flags, count - 1);
        let now = edges_of_flagged(triangles, flags, count);
        let added = edges_of(triangles[count - 1]);
        assert forall|j: int| 0 <= j < now.len() implies holds(#[trigger] now[j]) by {
            if j < before.len() {
                assert(holds(before[j]));
                assert(now[j] == before[j]);
            } else {
                assert(flags[count - 1]);
                assert(holds(added[0]) && holds(added[1]) && holds(added[2]));
                assert(now[j] == added[j - before.len()]);
            }
        }
    }
}

/// Each flagged item is an item with a set flag: the lemma returns where it stood.
pub proof fn lemma_flagged_source<A>(items: Seq<A>, flags: Seq<bool>, count: int, j: int) -> (k: int)
    requires
        0 <= j < flagged(items, flags, count).len(),
    ensures
        0 <= k < count,
        flags[k],
        items[k] == flagged(items, flags, count)[j],
    decreases count,
{
    if count <= 0 {
        0
    } else if flags[count - 1] && j == flagged(items, flags, count - 1).len() {
        count - 1
    } else {
        lemma_flagged_source(items, flags, count - 1, j)
    }
}

/// Removes every edge that occurs more than once, all its occurrences, and
/// keeps the others in their order.
pub fn remove_duplicate_edges(edges: &mut Vec<Edge>)
    ensures
        final(edges)@ == boundary(old(edges)@),
{
    let ghost all = edges@;
    let count = edges.len();
    let mut kept: Vec<Edge> = Vec::new();
    let mut i: usize = 0;
    while i < count
        invariant
            edges@ == all,
            count == all.len(),
            i <= count,
            kept@ == flagged(all, unshared(all), i as int),
        decreases count - i,
    {
        let mut shared = false;
        let mut j: usize = 0;
        while j < count && !shared
            invariant
                edges@ == all,
                count == all.len(),
                i < count,
                j <= count,
                !shared ==> forall|other: int| 0 <= other < j ==> !#[trigger] repeats(all, i as int, other),
                shared ==> exists|other: int| 0 <= other < count && #[trigger] repeats(all, i as int, other),
            decreases count - j + if shared { 0int } else { 1int },
        {
            if j != i && edges[j] == edges[i] {
                assert(repeats(all, i as int, j as int));
                shared = true;
            } else {
                j += 1;
            }
        }
        assert(shared == !occurs_once(all, i as int));
        if !shared {
            kept.push(Edge(edges[i].0, edges[i].1));
        }
        i += 1;
    }
    *edges = kept;
}

/// Inserts `point` into the mesh. `in_circumcircle` says of each triangle
/// whether the point lies within its circumcircle.
pub fn insert_point(triangles: &mut Vec<Triangle>, point: usize, in_circumcircle: &[bool])
    requires
        in_circumcircle@.len() == old(triangles)@.len(),
    ensures
        final(triangles)@ == with_point(old(triangles)@, in_circumcircle@, point),
{
    let ghost before = triangles@;
    let count = triangles.len();
    let mut kept: Vec<Triangle> = Vec::new();
    let mut edges: Vec<Edge> = Vec::new();
    let mut j: usize = 0;
    while j < count
        invariant
            triangles@ == before,
            count == before.len(),
            in_circumcircle@.len() == count,
            j <= count,
            kept@ == flagged(before, inverted(in_circumcircle@), j as int),
            edges@ == edges_of_flagged(before, in_circumcircle@, j as int),
        decreases count - j,
    {
        let t = &triangles[j];
        if in_circumcircle[j] {
            let ghost earlier = edges@;
            edges.push(Edge(t.0, t.1));
            edges.push(Edge(t.1, t.2));
            edges.push(Edge(t.2, t.0));
            assert(edges@ =~= earlier + edges_of(before[j as int]));
        } else {
            kept.push(Triangle(t.0, t.1, t.2));
        }
        j += 1;
    }
    remove_duplicate_edges(&mut edges);
    let ghost good = kept@;
    let edges_count = edges.len();
    let mut k: usize = 0;
    while k < edges_count
        invariant
            edges_count == edges@.len(),
            k <= edges_count,
            kept@ == good + fan(edges@.take(k as int), point),
        decreases edges_count - k,
    {
        let ghost earlier = kept@;
        let e = &edges[k];
        kept.push(Triangle(e.0, e.1, point));
        assert(kept@ =~= good + fan(edges@.take(k + 1), point));
        k += 1;
    }
    assert(edges@.take(edges_count as int) =~= edges@);
    *triangles = kept;
}

/// Removes every triangle with a corner that is not among the first
/// `points_count` points, and keeps the others in their order.
pub fn remove_outside(triangles: &mut Vec<Triangle>, points_count: usize)
    ensures
        final(triangles)@ == interior(old(triangles)@, points_count as int),
{
    let ghost before = triangles@;
    let count = triangles.len();
    let mut kept: Vec<Triangle> = Vec::new();
    let mut j: usize = 0;
    while j < count
        invariant
            triangles@ == before,
            count == before.len(),
            j <= count,
            kept@ == flagged(before, within(before, points_count as int), j as int),
        decreases count - j,
    {
        let t = &triangles[j];
        if t.0 < points_count && t.1 < points_count && t.2 < points_count {
            kept.push(Triangle(t.0, t.1, t.2));
        }
        j += 1;
    }
    *triangles = kept;
}

} // verus!
