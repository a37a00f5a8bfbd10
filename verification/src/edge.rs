use vstd::prelude::*;
use vstd::std_specs::cmp::PartialEqSpec;

verus! {

/// An edge, represented by indexes into a list of points.
///
/// When compared, the direction of the edge is ignored: `Edge(0, 1)` and
/// `Edge(1, 0)` are equal.
#[derive(Debug, Clone)]
pub struct Edge(pub usize, pub usize);

impl Edge {
    /// Both edges join the same two points, in either direction.
    pub open spec fn joins_same_points(&self, other: &Edge) -> bool {
        (self.0 == other.1 && self.1 == other.0) || (self.0 == other.0 && self.1 == other.1)
    }
}

impl PartialEq for Edge {
    /// Compare edges regardless of directionality.
    fn eq(&self, other: &Self) -> (r: bool) {
        (self.0 == other.1 && self.1 == other.0) || (self.0 == other.0 && self.1 == other.1)
    }
}

impl vstd::std_specs::cmp::PartialEqSpecImpl for Edge {
    open spec fn obeys_eq_spec() -> bool {
        true
    }

    open spec fn eq_spec(&self, other: &Edge) -> bool {
        self.joins_same_points(other)
    }
}

/// Edge equality does not depend on direction: an edge equals its reverse.
pub proof fn lemma_edge_eq_ignores_direction(a: usize, b: usize)
    ensures
        Edge(a, b).eq_spec(&Edge(b, a)),
        Edge(a, b).eq_spec(&Edge(a, b)),
{
}

/// Edge equality is symmetric and transitive, so it sorts edges into classes.
pub proof fn lemma_edge_eq_is_equivalence(a: Edge, b: Edge, c: Edge)
    ensures
        a.eq_spec(&a),
        a.eq_spec(&b) == b.eq_spec(&a),
        a.eq_spec(&b) && b.eq_spec(&c) ==> a.eq_spec(&c),
{
}

} // verus!
