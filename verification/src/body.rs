//! A mass together with the kinematic state it owns.

use vstd::prelude::*;

verus! {

use crate::particle::{step_fits, stepped, Particle};

/// A point body: a mass scalar that exclusively owns one kinematic state.
/// Reads and writes of the state go through the owned particle, either by
/// the forwarding accessors below or through `particle`/`particle_mut`.
#[derive(Clone, Debug)]
pub struct Body {
    pub mass: i64,
    pub particle: Particle,
}

impl Body {
    /// Well-formed: the owned state is.
    pub open spec fn wf(self) -> bool {
        self.particle.wf()
    }

    pub fn new(mass: i64, spatial: Vec<Vec<i64>>, angular: Vec<Vec<i64>>) -> (b: Body)
        requires
            (Particle { spatial, angular }).wf(),
        ensures
            b == (Body { mass, particle: Particle { spatial, angular } }),
            b.wf(),
    {
        Body { mass, particle: Particle::new(spatial, angular) }
    }

    pub fn mass(&self) -> (r: i64)
        ensures
            r == self.mass,
    {
        self.mass
    }

    pub fn mass_mut(&mut self) -> (r: &mut i64)
        ensures
            *r == old(self).mass,
            final(self).mass == *final(r),
            final(self).particle == old(self).particle,
    {
        &mut self.mass
    }

    /// The owned kinematic state.
    pub fn particle(&self) -> (r: &Particle)
        ensures
            r == self.particle,
    {
        &self.particle
    }

    /// The owned kinematic state, for mutation.
    pub fn particle_mut(&mut self) -> (r: &mut Particle)
        ensures
            *r == old(self).particle,
            final(self).particle == *final(r),
            final(self).mass == old(self).mass,
    {
        &mut self.particle
    }

    pub fn position(&self) -> (r: &Vec<i64>)
        requires
            self.wf(),
        ensures
            r@ == self.particle.sview()[0],
    {
        self.particle.position()
    }

    pub fn rotation(&self) -> (r: &Vec<i64>)
        requires
            self.wf(),
        ensures
            r@ == self.particle.aview()[0],
    {
        self.particle.rotation()
    }

    pub fn spatial_velocity(&self) -> (r: &Vec<i64>)
        requires
            self.wf(),
            self.particle.spec_ord() >= 1,
        ensures
            r@ == self.particle.sview()[1],
    {
        self.particle.spatial_velocity()
    }

    pub fn angular_velocity(&self) -> (r: &Vec<i64>)
        requires
            self.wf(),
            self.particle.spec_ord() >= 1,
        ensures
            r@ == self.particle.aview()[1],
    {
        self.particle.angular_velocity()
    }

    /// Advance the owned state by one forward Taylor step.
    pub fn update(&mut self, time_step: i64)
        requires
            old(self).wf(),
            step_fits(old(self).particle.sview(), time_step),
            step_fits(old(self).particle.aview(), time_step),
        ensures
            final(self).wf(),
            final(self).mass == old(self).mass,
            final(self).particle.sview() == stepped(old(self).particle.sview(), time_step),
            final(self).particle.aview() == stepped(old(self).particle.aview(), time_step),
    {
        self.particle.update(time_step);
    }
}

} // verus!
