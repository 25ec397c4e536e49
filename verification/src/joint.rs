//! A body coupled with one constraint set per tracked derivative order.

use vstd::prelude::*;

verus! {

use crate::body::Body;
use crate::constraint::{constrain_seq, ranges_wf, Constraint, Range};
use crate::particle::{step_fits, stepped};

/// A joint: a body plus one constraint per derivative order. The spatial
/// and the angular stack each carry their own constraint array, so the two
/// sides of one order are bounded independently of each other.
#[derive(Clone, Debug)]
pub struct Joint {
    pub body: Body,
    pub spatial_constraints: Vec<Constraint>,
    pub angular_constraints: Vec<Constraint>,
}

/// The mathematical content of a joint.
pub struct JointView {
    pub mass: i64,
    pub spatial: Seq<Seq<i64>>,
    pub angular: Seq<Seq<i64>>,
    pub spatial_constraints: Seq<Seq<Option<Range>>>,
    pub angular_constraints: Seq<Seq<Option<Range>>>,
}

impl View for Joint {
    type V = JointView;

    open spec fn view(&self) -> JointView {
        JointView {
            mass: self.body.mass,
            spatial: self.body.particle.sview(),
            angular: self.body.particle.aview(),
            spatial_constraints: Seq::new(
                self.spatial_constraints@.len(),
                |i: int| self.spatial_constraints@[i].ranges@,
            ),
            angular_constraints: Seq::new(
                self.angular_constraints@.len(),
                |i: int| self.angular_constraints@[i].ranges@,
            ),
        }
    }
}

/// A derivative stack clamped order by order, each with its own constraint.
pub open spec fn constrained_stack(cs: Seq<Seq<Option<Range>>>, s: Seq<Seq<i64>>) -> Seq<
    Seq<i64>,
> {
    Seq::new(s.len(), |i: int| constrain_seq(cs[i], s[i]))
}

/// Well-formed joint content: the derivative stacks have matching shape and
/// each order has a constraint of matching dimension with ordered ranges.
pub open spec fn jv_wf(v: JointView) -> bool {
    &&& 1 <= v.spatial.len() <= 7
    &&& v.angular.len() == v.spatial.len()
    &&& v.spatial_constraints.len() == v.spatial.len()
    &&& v.angular_constraints.len() == v.spatial.len()
    &&& 1 <= v.spatial[0].len() <= 4
    &&& forall|i: int|
        0 <= i < v.spatial.len() ==> (#[trigger] v.spatial[i]).len() == v.spatial[0].len()
    &&& forall|i: int|
        0 <= i < v.angular.len() ==> (#[trigger] v.angular[i]).len() == v.spatial[0].len()
    &&& forall|i: int|
        0 <= i < v.spatial_constraints.len() ==> (#[trigger] v.spatial_constraints[i]).len()
            == v.spatial[0].len() && ranges_wf(v.spatial_constraints[i])
    &&& forall|i: int|
        0 <= i < v.angular_constraints.len() ==> (#[trigger] v.angular_constraints[i]).len()
            == v.spatial[0].len() && ranges_wf(v.angular_constraints[i])
}

/// The joint content with every derivative order of both stacks clamped by
/// its constraint.
pub open spec fn jv_constrained(v: JointView) -> JointView {
    JointView {
        spatial: constrained_stack(v.spatial_constraints, v.spatial),
        angular: constrained_stack(v.angular_constraints, v.angular),
        ..v
    }
}

/// The joint content with one spatial order clamped by its constraint.
pub open spec fn jv_constrained_spatial_at(v: JointView, k: int) -> JointView {
    JointView { spatial: v.spatial.update(k, constrain_seq(v.spatial_constraints[k], v.spatial[k])), ..v }
}

/// The joint content with one angular order clamped by its constraint.
pub open spec fn jv_constrained_angular_at(v: JointView, k: int) -> JointView {
    JointView { angular: v.angular.update(k, constrain_seq(v.angular_constraints[k], v.angular[k])), ..v }
}

/// The joint content after one forward Taylor step of both stacks.
pub open spec fn jv_stepped(v: JointView, dt: i64) -> JointView {
    JointView { spatial: stepped(v.spatial, dt), angular: stepped(v.angular, dt), ..v }
}

/// Every sum a forward step of this joint computes fits in the scalar type.
pub open spec fn jv_step_fits(v: JointView, dt: i64) -> bool {
    step_fits(v.spatial, dt) && step_fits(v.angular, dt)
}

impl Joint {
    /// Well-formed: the body is, and each stack has one constraint per
    /// order, every one of matching dimension with ordered ranges.
    pub open spec fn wf(self) -> bool {
        &&& self.body.wf()
        &&& self.spatial_constraints@.len() == self.body.particle.sview().len()
        &&& self.angular_constraints@.len() == self.body.particle.sview().len()
        &&& forall|i: int|
            0 <= i < self.spatial_constraints@.len() ==> (
            #[trigger] self.spatial_constraints@[i]).wf() && self.spatial_constraints@[i].dim()
                == self.body.particle.spec_dim()
        &&& forall|i: int|
            0 <= i < self.angular_constraints@.len() ==> (
            #[trigger] self.angular_constraints@[i]).wf() && self.angular_constraints@[i].dim()
                == self.body.particle.spec_dim()
    }

    /// A well-formed joint has well-formed mathematical content.
    pub proof fn lemma_wf_view(self)
        requires
            self.wf(),
        ensures
            jv_wf(self@),
    {
    }

    pub fn new(
        body: Body,
        spatial_constraints: Vec<Constraint>,
        angular_constraints: Vec<Constraint>,
    ) -> (j: Joint)
        requires
            (Joint { body, spatial_constraints, angular_constraints }).wf(),
        ensures
            j == (Joint { body, spatial_constraints, angular_constraints }),
            j.wf(),
    {
        Joint { body, spatial_constraints, angular_constraints }
    }

    /// Clamp one spatial derivative order with its constraint.
    pub(crate) fn constrain_spatial_at(&mut self, k: usize)
        requires
            old(self).wf(),
            k < old(self)@.spatial.len(),
        ensures
            final(self).wf(),
            final(self)@ == jv_constrained_spatial_at(old(self)@, k as int),
    {
        proof {
            assert(self@.spatial[k as int] == self.body.particle.spatial@[k as int]@);
            assert(self@.spatial[k as int].len() == self.body.particle.spec_dim());
            assert(self@.spatial_constraints[k as int] == self.spatial_constraints@[
                k as int
            ].ranges@);
        }
        self.spatial_constraints[k].constrain(&mut self.body.particle.spatial[k]);
        proof {
            assert(self@.spatial =~= jv_constrained_spatial_at(old(self)@, k as int).spatial);
            assert(self@.angular =~= old(self)@.angular);
            assert(self@.spatial_constraints =~= old(self)@.spatial_constraints);
            assert(self@.angular_constraints =~= old(self)@.angular_constraints);
        }
    }

    /// Clamp one angular derivative order with its constraint.
    pub(crate) fn constrain_angular_at(&mut self, k: usize)
        requires
            old(self).wf(),
            k < old(self)@.angular.len(),
        ensures
            final(self).wf(),
            final(self)@ == jv_constrained_angular_at(old(self)@, k as int),
    {
        proof {
            assert(self@.angular[k as int] == self.body.particle.angular@[k as int]@);
            assert(self@.angular[k as int].len() == self.body.particle.spec_dim());
            assert(self@.angular_constraints[k as int] == self.angular_constraints@[
                k as int
            ].ranges@);
        }
        self.angular_constraints[k].constrain(&mut self.body.particle.angular[k]);
        proof {
            assert(self@.angular =~= jv_constrained_angular_at(old(self)@, k as int).angular);
            assert(self@.spatial =~= old(self)@.spatial);
            assert(self@.spatial_constraints =~= old(self)@.spatial_constraints);
            assert(self@.angular_constraints =~= old(self)@.angular_constraints);
        }
    }

    /// Clamp the position with the order-0 spatial constraint.
    pub fn constrain_position(&mut self)
        requires
            old(self).wf(),
        ensures
            final(self).wf(),
            final(self)@ == jv_constrained_spatial_at(old(self)@, 0),
    {
        self.constrain_spatial_at(0);
    }

    /// Clamp the rotation with the order-0 angular constraint.
    pub fn constrain_rotation(&mut self)
        requires
            old(self).wf(),
        ensures
            final(self).wf(),
            final(self)@ == jv_constrained_angular_at(old(self)@, 0),
    {
        self.constrain_angular_at(0);
    }

    /// Clamp the spatial velocity with the order-1 spatial constraint.
    pub fn constrain_spatial_velocity(&mut self)
        requires
            old(self).wf(),
            old(self).body.particle.spec_ord() >= 1,
        ensures
            final(self).wf(),
            final(self)@ == jv_constrained_spatial_at(old(self)@, 1),
    {
        self.constrain_spatial_at(1);
    }

    /// Clamp the angular velocity with the order-1 angular constraint.
    pub fn constrain_angular_velocity(&mut self)
        requires
            old(self).wf(),
            old(self).body.particle.spec_ord() >= 1,
        ensures
            final(self).wf(),
            final(self)@ == jv_constrained_angular_at(old(self)@, 1),
    {
        self.constrain_angular_at(1);
    }

    /// Clamp the spatial acceleration with the order-2 spatial constraint.
    pub fn constrain_spatial_acceleration(&mut self)
        requires
            old(self).wf(),
            old(self).body.particle.spec_ord() >= 2,
        ensures
            final(self).wf(),
            final(self)@ == jv_constrained_spatial_at(old(self)@, 2),
    {
        self.constrain_spatial_at(2);
    }

    /// Clamp the angular acceleration with the order-2 angular constraint.
    pub fn constrain_angular_acceleration(&mut self)
        requires
            old(self).wf(),
            old(self).body.particle.spec_ord() >= 2,
        ensures
            final(self).wf(),
            final(self)@ == jv_constrained_angular_at(old(self)@, 2),
    {
        self.constrain_angular_at(2);
    }

    /// Clamp the spatial jerk with the order-3 spatial constraint.
    pub fn constrain_spatial_jerk(&mut self)
        requires
            old(self).wf(),
            old(self).body.particle.spec_ord() >= 3,
        ensures
            final(self).wf(),
            final(self)@ == jv_constrained_spatial_at(old(self)@, 3),
    {
        self.constrain_spatial_at(3);
    }

    /// Clamp the angular jerk with the order-3 angular constraint.
    pub fn constrain_angular_jerk(&mut self)
        requires
            old(self).wf(),
            old(self).body.particle.spec_ord() >= 3,
        ensures
            final(self).wf(),
            final(self)@ == jv_constrained_angular_at(old(self)@, 3),
    {
        self.constrain_angular_at(3);
    }

    /// Clamp the spatial snap with the order-4 spatial constraint.
    pub fn constrain_spatial_snap(&mut self)
        requires
            old(self).wf(),
            old(self).body.particle.spec_ord() >= 4,
        ensures
            final(self).wf(),
            final(self)@ == jv_constrained_spatial_at(old(self)@, 4),
    {
        self.constrain_spatial_at(4);
    }

    /// Clamp the angular snap with the order-4 angular constraint.
    pub fn constrain_angular_snap(&mut self)
        requires
            old(self).wf(),
            old(self).body.particle.spec_ord() >= 4,
        ensures
            final(self).wf(),
            final(self)@ == jv_constrained_angular_at(old(self)@, 4),
    {
        self.constrain_angular_at(4);
    }

    /// Clamp the spatial crackle with the order-5 spatial constraint.
    pub fn constrain_spatial_crackle(&mut self)
        requires
            old(self).wf(),
            old(self).body.particle.spec_ord() >= 5,
        ensures
            final(self).wf(),
            final(self)@ == jv_constrained_spatial_at(old(self)@, 5),
    {
        self.constrain_spatial_at(5);
    }

    /// Clamp the angular crackle with the order-5 angular constraint.
    pub fn constrain_angular_crackle(&mut self)
        requires
            old(self).wf(),
            old(self).body.particle.spec_ord() >= 5,
        ensures
            final(self).wf(),
            final(self)@ == jv_constrained_angular_at(old(self)@, 5),
    {
        self.constrain_angular_at(5);
    }

    /// Clamp the spatial pop with the order-6 spatial constraint.
    pub fn constrain_spatial_pop(&mut self)
        requires
            old(self).wf(),
            old(self).body.particle.spec_ord() >= 6,
        ensures
            final(self).wf(),
            final(self)@ == jv_constrained_spatial_at(old(self)@, 6),
    {
        self.constrain_spatial_at(6);
    }

    /// Clamp the angular pop with the order-6 angular constraint.
    pub fn constrain_angular_pop(&mut self)
        requires
            old(self).wf(),
            old(self).body.particle.spec_ord() >= 6,
        ensures
            final(self).wf(),
            final(self)@ == jv_constrained_angular_at(old(self)@, 6),
    {
        self.constrain_angular_at(6);
    }

    /// Apply every order's constraint: each spatial order is clamped by its
    /// spatial constraint and each angular order by its angular constraint.
    pub fn constrain(&mut self)
        requires
            old(self).wf(),
        ensures
            final(self).wf(),
            final(self)@ == jv_constrained(old(self)@),
    {
        let n = self.body.particle.spatial.len();
        for k in 0..n
            invariant
                self.wf(),
                n == self@.spatial.len(),
                self@.angular.len() == n,
                self@.mass == old(self)@.mass,
                self@.spatial_constraints == old(self)@.spatial_constraints,
                self@.angular_constraints == old(self)@.angular_constraints,
                old(self)@.spatial.len() == n,
                old(self)@.angular.len() == n,
                forall|i: int|
                    0 <= i < k ==> self@.spatial[i] == constrained_stack(
                        old(self)@.spatial_constraints,
                        old(self)@.spatial,
                    )[i],
                forall|i: int|
                    0 <= i < k ==> self@.angular[i] == constrained_stack(
                        old(self)@.angular_constraints,
                        old(self)@.angular,
                    )[i],
                forall|i: int| k <= i < n ==> self@.spatial[i] == old(self)@.spatial[i],
                forall|i: int| k <= i < n ==> self@.angular[i] == old(self)@.angular[i],
        {
            self.constrain_spatial_at(k);
            self.constrain_angular_at(k);
        }
        proof {
            assert(self@.spatial =~= jv_constrained(old(self)@).spatial);
            assert(self@.angular =~= jv_constrained(old(self)@).angular);
        }
    }

    /// Advance the owned state by one forward Taylor step.
    pub fn update(&mut self, time_step: i64)
        requires
            old(self).wf(),
            jv_step_fits(old(self)@, time_step),
        ensures
            final(self).wf(),
            final(self)@ == jv_stepped(old(self)@, time_step),
    {
        self.body.update(time_step);
        proof {
            assert(self@.spatial_constraints =~= old(self)@.spatial_constraints);
            assert(self@.angular_constraints =~= old(self)@.angular_constraints);
        }
    }
}

/// Law: constraining a joint twice yields the same content as constraining
/// it once.
pub proof fn lemma_jv_constrained_idempotent(v: JointView)
    requires
        jv_wf(v),
    ensures
        jv_constrained(jv_constrained(v)) == jv_constrained(v),
{
    let once = jv_constrained(v);
    assert forall|i: int|
        0 <= i < v.spatial.len() implies jv_constrained(once).spatial[i] == once.spatial[i] by {
        crate::constraint::lemma_constrain_seq_idempotent(v.spatial_constraints[i], v.spatial[i]);
    }
    assert forall|i: int|
        0 <= i < v.angular.len() implies jv_constrained(once).angular[i] == once.angular[i] by {
        crate::constraint::lemma_constrain_seq_idempotent(v.angular_constraints[i], v.angular[i]);
    }
    assert(jv_constrained(once).spatial =~= once.spatial);
    assert(jv_constrained(once).angular =~= once.angular);
}

} // verus!
