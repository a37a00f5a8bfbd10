use vstd::prelude::*;

verus! {

/// A triangle, represented by indexes into a list of points.
#[derive(Debug, PartialEq)]
pub struct Triangle(pub usize, pub usize, pub usize);

impl Triangle {
    /// The three corners are three different points.
    pub open spec fn has_distinct_corners(&self) -> bool {
        self.0 != self.1 && self.1 != self.2 && self.2 != self.0
    }

    /// Every corner is one of the first `count` points.
    pub open spec fn is_within(&self, count: int) -> bool {
        self.0 < count && self.1 < count && self.2 < count
    }
}

} // verus!
