//! The physical connector between two joints.

use vstd::prelude::*;

verus! {

use crate::constraint::{Constraint, Range};

/// A link: the connector between two joints, carrying its own mass and the
/// constraint meant for the relative motion across it. Transforming and
/// clamping one joint's state relative to the other is a future capability;
/// today a link only carries this data.
#[derive(Clone, Debug)]
pub struct Link {
    pub mass: i64,
    pub constraint: Constraint,
}

/// The mathematical content of a link.
pub struct LinkView {
    pub mass: i64,
    pub constraint: Seq<Option<Range>>,
}

impl View for Link {
    type V = LinkView;

    open spec fn view(&self) -> LinkView {
        LinkView { mass: self.mass, constraint: self.constraint.ranges@ }
    }
}

impl Link {
    /// Well-formed: every present range of the carried constraint is.
    pub open spec fn wf(self) -> bool {
        self.constraint.wf()
    }

    pub fn new(mass: i64, constraint: Constraint) -> (l: Link)
        ensures
            l == (Link { mass, constraint }),
    {
        Link { mass, constraint }
    }
}

} // verus!
