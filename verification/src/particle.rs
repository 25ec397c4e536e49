//! The generalized N-th-order kinematic state of one body and its
//! integrators.

use vstd::prelude::*;

verus! {

/// A stack of derivative vectors: `spatial[i]` and `angular[i]` hold the
/// i-th time derivative of the position and the rotation respectively
/// (0 = value, 1 = velocity, 2 = acceleration, 3 = jerk, 4 = snap,
/// 5 = crackle, 6 = pop). The tracked order is `spatial.len() - 1` and the
/// spatial dimension is the length of each row.
#[derive(Clone, Debug)]
pub struct Particle {
    pub spatial: Vec<Vec<i64>>,
    pub angular: Vec<Vec<i64>>,
}

/// Whether `x` fits in the scalar type.
pub open spec fn in_i64(x: int) -> bool {
    i64::MIN <= x <= i64::MAX
}

/// Truncating (round-toward-zero) integer division, the semantics of the
/// executable `/` on signed scalars.
pub open spec fn div_trunc(a: int, b: int) -> int {
    if a == 0 {
        0
    } else if a > 0 && b > 0 {
        a / b
    } else if a < 0 && b < 0 {
        (a * -1) / (b * -1)
    } else if a < 0 {
        ((a * -1) / b) * -1
    } else {
        (a / (b * -1)) * -1
    }
}

/// One forward Taylor step over a derivative stack: every order below the
/// highest advances by the next-higher derivative scaled by `dt`, taken
/// from the state before the step, and the highest order is unchanged.
pub open spec fn stepped(s: Seq<Seq<i64>>, dt: i64) -> Seq<Seq<i64>> {
    Seq::new(
        s.len(),
        |i: int|
            if i + 1 < s.len() {
                Seq::new(s[i].len(), |j: int| (s[i][j] + s[i + 1][j] * dt) as i64)
            } else {
                s[i]
            },
    )
}

/// Every sum the forward step computes fits in the scalar type.
pub open spec fn step_fits(s: Seq<Seq<i64>>, dt: i64) -> bool {
    forall|i: int, j: int|
        #![trigger s[i][j]]
        0 <= i < s.len() - 1 && 0 <= j < s[i].len() ==> in_i64(s[i][j] + s[i + 1][j] * dt)
}

/// The backward difference `(new - old) / dt`, one axis at a time.
pub open spec fn diff_seq(newv: Seq<i64>, oldv: Seq<i64>, dt: i64) -> Seq<i64> {
    Seq::new(newv.len(), |j: int| div_trunc(newv[j] - oldv[j], dt as int) as i64)
}

/// Every quotient of the backward difference fits in the scalar type.
pub open spec fn diff_fits(newv: Seq<i64>, oldv: Seq<i64>, dt: i64) -> bool {
    forall|j: int|
        #![trigger newv[j]]
        0 <= j < newv.len() ==> in_i64(div_trunc(newv[j] - oldv[j], dt as int))
}

/// Advance `base` by `deriv * dt`, the forward step for one axis.
fn step_axis(base: i64, deriv: i64, dt: i64) -> (r: i64)
    requires
        in_i64(base + deriv * dt),
    ensures
        r == base + deriv * dt,
{
    proof {
        assert(-0x40000000000000000000000000000000 <= (deriv as int) * (dt as int)
            <= 0x40000000000000000000000000000000) by (nonlinear_arith)
            requires
                i64::MIN <= deriv <= i64::MAX,
                i64::MIN <= dt <= i64::MAX,
        ;
    }
    let sum: i128 = base as i128 + (deriv as i128) * (dt as i128);
    sum as i64
}

/// The backward difference `(a - b) / dt` for one axis, with truncating
/// division; the subtraction is widened so extreme scalars cannot overflow.
fn div_diff(a: i64, b: i64, dt: i64) -> (r: i64)
    requires
        dt != 0,
        in_i64(div_trunc(a - b, dt as int)),
    ensures
        r == div_trunc(a - b, dt as int),
{
    let diff: i128 = a as i128 - b as i128;
    let q = diff.checked_div(dt as i128);
    proof {
        assert(q matches Some(v) && v == div_trunc(a - b, dt as int));
    }
    q.unwrap() as i64
}

impl Particle {
    /// The spatial derivative stack as a mathematical matrix.
    pub open spec fn sview(self) -> Seq<Seq<i64>> {
        Seq::new(self.spatial@.len(), |i: int| self.spatial@[i]@)
    }

    /// The angular derivative stack as a mathematical matrix.
    pub open spec fn aview(self) -> Seq<Seq<i64>> {
        Seq::new(self.angular@.len(), |i: int| self.angular@[i]@)
    }

    /// The spatial dimension: the number of axes of each derivative vector.
    pub open spec fn spec_dim(self) -> nat {
        self.sview()[0].len()
    }

    /// The highest tracked derivative order.
    pub open spec fn spec_ord(self) -> nat {
        (self.sview().len() - 1) as nat
    }

    /// Well-formed: one to four axes, order zero through six, and both
    /// stacks hold one row per order with one scalar per axis.
    pub open spec fn wf(self) -> bool {
        &&& 1 <= self.sview().len() <= 7
        &&& self.aview().len() == self.sview().len()
        &&& 1 <= self.spec_dim() <= 4
        &&& forall|i: int|
            0 <= i < self.sview().len() ==> (#[trigger] self.sview()[i]).len() == self.spec_dim()
        &&& forall|i: int|
            0 <= i < self.aview().len() ==> (#[trigger] self.aview()[i]).len() == self.spec_dim()
    }

    pub fn new(spatial: Vec<Vec<i64>>, angular: Vec<Vec<i64>>) -> (p: Particle)
        requires
            (Particle { spatial, angular }).wf(),
        ensures
            p == (Particle { spatial, angular }),
            p.wf(),
    {
        Particle { spatial, angular }
    }

    pub fn dim(&self) -> (r: usize)
        requires
            self.wf(),
        ensures
            r == self.spec_dim(),
    {
        self.spatial[0].len()
    }

    pub fn ord(&self) -> (r: usize)
        requires
            self.wf(),
        ensures
            r == self.spec_ord(),
    {
        self.spatial.len() - 1
    }

    // Per-order, per-axis accessors. Each one is gated by the
    // dimension and order its slot needs, so an access past the
    // tracked configuration is rejected when the caller is verified,
    // never at run time.

    pub fn position(&self) -> (r: &Vec<i64>)
        requires
            self.wf(),
        ensures
            r@ == self.sview()[0],
    {
        &self.spatial[0]
    }

    pub fn position_mut(&mut self) -> (r: &mut Vec<i64>)
        requires
            old(self).wf(),
        ensures
            (*r)@ == old(self).sview()[0],
            final(self).spatial@ == old(self).spatial@.update(0, *final(r)),
            final(self).angular == old(self).angular,
    {
        &mut self.spatial[0]
    }

    pub fn rotation(&self) -> (r: &Vec<i64>)
        requires
            self.wf(),
        ensures
            r@ == self.aview()[0],
    {
        &self.angular[0]
    }

    pub fn rotation_mut(&mut self) -> (r: &mut Vec<i64>)
        requires
            old(self).wf(),
        ensures
            (*r)@ == old(self).aview()[0],
            final(self).angular@ == old(self).angular@.update(0, *final(r)),
            final(self).spatial == old(self).spatial,
    {
        &mut self.angular[0]
    }

    pub fn x(&self) -> (r: i64)
        requires
            self.wf(),
        ensures
            r == self.sview()[0][0],
    {
        proof {
            assert(self.sview()[0].len() == self.spec_dim());
        }
        self.spatial[0][0]
    }

    pub fn y(&self) -> (r: i64)
        requires
            self.wf(),
            self.spec_dim() >= 2,
        ensures
            r == self.sview()[0][1],
    {
        proof {
            assert(self.sview()[0].len() == self.spec_dim());
        }
        self.spatial[0][1]
    }

    pub fn z(&self) -> (r: i64)
        requires
            self.wf(),
            self.spec_dim() >= 3,
        ensures
            r == self.sview()[0][2],
    {
        proof {
            assert(self.sview()[0].len() == self.spec_dim());
        }
        self.spatial[0][2]
    }

    pub fn x_mut(&mut self) -> (r: &mut i64)
        requires
            old(self).wf(),
        ensures
            *r == old(self).sview()[0][0],
            final(self).sview() == old(self).sview().update(
                0,
                old(self).sview()[0].update(0, *final(r)),
            ),
            final(self).angular == old(self).angular,
            final(self).wf(),
    {
        proof {
            assert(self.sview()[0].len() == self.spec_dim());
        }
        &mut self.spatial[0][0]
    }

    pub fn y_mut(&mut self) -> (r: &mut i64)
        requires
            old(self).wf(),
            old(self).spec_dim() >= 2,
        ensures
            *r == old(self).sview()[0][1],
            final(self).sview() == old(self).sview().update(
                0,
                old(self).sview()[0].update(1, *final(r)),
            ),
            final(self).angular == old(self).angular,
            final(self).wf(),
    {
        proof {
            assert(self.sview()[0].len() == self.spec_dim());
        }
        &mut self.spatial[0][1]
    }

    pub fn z_mut(&mut self) -> (r: &mut i64)
        requires
            old(self).wf(),
            old(self).spec_dim() >= 3,
        ensures
            *r == old(self).sview()[0][2],
            final(self).sview() == old(self).sview().update(
                0,
                old(self).sview()[0].update(2, *final(r)),
            ),
            final(self).angular == old(self).angular,
            final(self).wf(),
    {
        proof {
            assert(self.sview()[0].len() == self.spec_dim());
        }
        &mut self.spatial[0][2]
    }

    pub fn u(&self) -> (r: i64)
        requires
            self.wf(),
        ensures
            r == self.aview()[0][0],
    {
        proof {
            assert(self.aview()[0].len() == self.spec_dim());
        }
        self.angular[0][0]
    }

    pub fn v(&self) -> (r: i64)
        requires
            self.wf(),
            self.spec_dim() >= 2,
        ensures
            r == self.aview()[0][1],
    {
        proof {
            assert(self.aview()[0].len() == self.spec_dim());
        }
        self.angular[0][1]
    }

    pub fn w(&self) -> (r: i64)
        requires
            self.wf(),
            self.spec_dim() >= 3,
        ensures
            r == self.aview()[0][2],
    {
        proof {
            assert(self.aview()[0].len() == self.spec_dim());
        }
        self.angular[0][2]
    }

    pub fn u_mut(&mut self) -> (r: &mut i64)
        requires
            old(self).wf(),
        ensures
            *r == old(self).aview()[0][0],
            final(self).aview() == old(self).aview().update(
                0,
                old(self).aview()[0].update(0, *final(r)),
            ),
            final(self).spatial == old(self).spatial,
            final(self).wf(),
    {
        proof {
            assert(self.aview()[0].len() == self.spec_dim());
        }
        &mut self.angular[0][0]
    }

    pub fn v_mut(&mut self) -> (r: &mut i64)
        requires
            old(self).wf(),
            old(self).spec_dim() >= 2,
        ensures
            *r == old(self).aview()[0][1],
            final(self).aview() == old(self).aview().update(
                0,
                old(self).aview()[0].update(1, *final(r)),
            ),
            final(self).spatial == old(self).spatial,
            final(self).wf(),
    {
        proof {
            assert(self.aview()[0].len() == self.spec_dim());
        }
        &mut self.angular[0][1]
    }

    pub fn w_mut(&mut self) -> (r: &mut i64)
        requires
            old(self).wf(),
            old(self).spec_dim() >= 3,
        ensures
            *r == old(self).aview()[0][2],
            final(self).aview() == old(self).aview().update(
                0,
                old(self).aview()[0].update(2, *final(r)),
            ),
            final(self).spatial == old(self).spatial,
            final(self).wf(),
    {
        proof {
            assert(self.aview()[0].len() == self.spec_dim());
        }
        &mut self.angular[0][2]
    }

    pub fn spatial_velocity(&self) -> (r: &Vec<i64>)
        requires
            self.wf(),
            self.spec_ord() >= 1,
        ensures
            r@ == self.sview()[1],
    {
        &self.spatial[1]
    }

    pub fn spatial_velocity_mut(&mut self) -> (r: &mut Vec<i64>)
        requires
            old(self).wf(),
            old(self).spec_ord() >= 1,
        ensures
            (*r)@ == old(self).sview()[1],
            final(self).spatial@ == old(self).spatial@.update(1, *final(r)),
            final(self).angular == old(self).angular,
    {
        &mut self.spatial[1]
    }

    pub fn angular_velocity(&self) -> (r: &Vec<i64>)
        requires
            self.wf(),
            self.spec_ord() >= 1,
        ensures
            r@ == self.aview()[1],
    {
        &self.angular[1]
    }

    pub fn angular_velocity_mut(&mut self) -> (r: &mut Vec<i64>)
        requires
            old(self).wf(),
            old(self).spec_ord() >= 1,
        ensures
            (*r)@ == old(self).aview()[1],
            final(self).angular@ == old(self).angular@.update(1, *final(r)),
            final(self).spatial == old(self).spatial,
    {
        &mut self.angular[1]
    }

    pub fn v_x(&self) -> (r: i64)
        requires
            self.wf(),
            self.spec_ord() >= 1,
        ensures
            r == self.sview()[1][0],
    {
        proof {
            assert(self.sview()[1].len() == self.spec_dim());
        }
        self.spatial[1][0]
    }

    pub fn v_y(&self) -> (r: i64)
        requires
            self.wf(),
            self.spec_dim() >= 2,
            self.spec_ord() >= 1,
        ensures
            r == self.sview()[1][1],
    {
        proof {
            assert(self.sview()[1].len() == self.spec_dim());
        }
        self.spatial[1][1]
    }

    pub fn v_z(&self) -> (r: i64)
        requires
            self.wf(),
            self.spec_dim() >= 3,
            self.spec_ord() >= 1,
        ensures
            r == self.sview()[1][2],
    {
        proof {
            assert(self.sview()[1].len() == self.spec_dim());
        }
        self.spatial[1][2]
    }

    pub fn v_x_mut(&mut self) -> (r: &mut i64)
        requires
            old(self).wf(),
            old(self).spec_ord() >= 1,
        ensures
            *r == old(self).sview()[1][0],
            final(self).sview() == old(self).sview().update(
                1,
                old(self).sview()[1].update(0, *final(r)),
            ),
            final(self).angular == old(self).angular,
            final(self).wf(),
    {
        proof {
            assert(self.sview()[1].len() == self.spec_dim());
        }
        &mut self.spatial[1][0]
    }

    pub fn v_y_mut(&mut self) -> (r: &mut i64)
        requires
            old(self).wf(),
            old(self).spec_dim() >= 2,
            old(self).spec_ord() >= 1,
        ensures
            *r == old(self).sview()[1][1],
            final(self).sview() == old(self).sview().update(
                1,
                old(self).sview()[1].update(1, *final(r)),
            ),
            final(self).angular == old(self).angular,
            final(self).wf(),
    {
        proof {
            assert(self.sview()[1].len() == self.spec_dim());
        }
        &mut self.spatial[1][1]
    }

    pub fn v_z_mut(&mut self) -> (r: &mut i64)
        requires
            old(self).wf(),
            old(self).spec_dim() >= 3,
            old(self).spec_ord() >= 1,
        ensures
            *r == old(self).sview()[1][2],
            final(self).sview() == old(self).sview().update(
                1,
                old(self).sview()[1].update(2, *final(r)),
            ),
            final(self).angular == old(self).angular,
            final(self).wf(),
    {
        proof {
            assert(self.sview()[1].len() == self.spec_dim());
        }
        &mut self.spatial[1][2]
    }

    pub fn v_u(&self) -> (r: i64)
        requires
            self.wf(),
            self.spec_ord() >= 1,
        ensures
            r == self.aview()[1][0],
    {
        proof {
            assert(self.aview()[1].len() == self.spec_dim());
        }
        self.angular[1][0]
    }

    pub fn v_v(&self) -> (r: i64)
        requires
            self.wf(),
            self.spec_dim() >= 2,
            self.spec_ord() >= 1,
        ensures
            r == self.aview()[1][1],
    {
        proof {
            assert(self.aview()[1].len() == self.spec_dim());
        }
        self.angular[1][1]
    }

    pub fn v_w(&self) -> (r: i64)
        requires
            self.wf(),
            self.spec_dim() >= 3,
            self.spec_ord() >= 1,
        ensures
            r == self.aview()[1][2],
    {
        proof {
            assert(self.aview()[1].len() == self.spec_dim());
        }
        self.angular[1][2]
    }

    pub fn v_u_mut(&mut self) -> (r: &mut i64)
        requires
            old(self).wf(),
            old(self).spec_ord() >= 1,
        ensures
            *r == old(self).aview()[1][0],
            final(self).aview() == old(self).aview().update(
                1,
                old(self).aview()[1].update(0, *final(r)),
            ),
            final(self).spatial == old(self).spatial,
            final(self).wf(),
    {
        proof {
            assert(self.aview()[1].len() == self.spec_dim());
        }
        &mut self.angular[1][0]
    }

    pub fn v_v_mut(&mut self) -> (r: &mut i64)
        requires
            old(self).wf(),
            old(self).spec_dim() >= 2,
            old(self).spec_ord() >= 1,
        ensures
            *r == old(self).aview()[1][1],
            final(self).aview() == old(self).aview().update(
                1,
                old(self).aview()[1].update(1, *final(r)),
            ),
            final(self).spatial == old(self).spatial,
            final(self).wf(),
    {
        proof {
            assert(self.aview()[1].len() == self.spec_dim());
        }
        &mut self.angular[1][1]
    }

    pub fn v_w_mut(&mut self) -> (r: &mut i64)
        requires
            old(self).wf(),
            old(self).spec_dim() >= 3,
            old(self).spec_ord() >= 1,
        ensures
            *r == old(self).aview()[1][2],
            final(self).aview() == old(self).aview().update(
                1,
                old(self).aview()[1].update(2, *final(r)),
            ),
            final(self).spatial == old(self).spatial,
            final(self).wf(),
    {
        proof {
            assert(self.aview()[1].len() == self.spec_dim());
        }
        &mut self.angular[1][2]
    }

    pub fn spatial_acceleration(&self) -> (r: &Vec<i64>)
        requires
            self.wf(),
            self.spec_ord() >= 2,
        ensures
            r@ == self.sview()[2],
    {
        &self.spatial[2]
    }

    pub fn spatial_acceleration_mut(&mut self) -> (r: &mut Vec<i64>)
        requires
            old(self).wf(),
            old(self).spec_ord() >= 2,
        ensures
            (*r)@ == old(self).sview()[2],
            final(self).spatial@ == old(self).spatial@.update(2, *final(r)),
            final(self).angular == old(self).angular,
    {
        &mut self.spatial[2]
    }

    pub fn angular_acceleration(&self) -> (r: &Vec<i64>)
        requires
            self.wf(),
            self.spec_ord() >= 2,
        ensures
            r@ == self.aview()[2],
    {
        &self.angular[2]
    }

    pub fn angular_acceleration_mut(&mut self) -> (r: &mut Vec<i64>)
        requires
            old(self).wf(),
            old(self).spec_ord() >= 2,
        ensures
            (*r)@ == old(self).aview()[2],
            final(self).angular@ == old(self).angular@.update(2, *final(r)),
            final(self).spatial == old(self).spatial,
    {
        &mut self.angular[2]
    }

    pub fn a_x(&self) -> (r: i64)
        requires
            self.wf(),
            self.spec_ord() >= 2,
        ensures
            r == self.sview()[2][0],
    {
        proof {
            assert(self.sview()[2].len() == self.spec_dim());
        }
        self.spatial[2][0]
    }

    pub fn a_y(&self) -> (r: i64)
        requires
            self.wf(),
            self.spec_dim() >= 2,
            self.spec_ord() >= 2,
        ensures
            r == self.sview()[2][1],
    {
        proof {
            assert(self.sview()[2].len() == self.spec_dim());
        }
        self.spatial[2][1]
    }

    pub fn a_z(&self) -> (r: i64)
        requires
            self.wf(),
            self.spec_dim() >= 3,
            self.spec_ord() >= 2,
        ensures
            r == self.sview()[2][2],
    {
        proof {
            assert(self.sview()[2].len() == self.spec_dim());
        }
        self.spatial[2][2]
    }

    pub fn a_x_mut(&mut self) -> (r: &mut i64)
        requires
            old(self).wf(),
            old(self).spec_ord() >= 2,
        ensures
            *r == old(self).sview()[2][0],
            final(self).sview() == old(self).sview().update(
                2,
                old(self).sview()[2].update(0, *final(r)),
            ),
            final(self).angular == old(self).angular,
            final(self).wf(),
    {
        proof {
            assert(self.sview()[2].len() == self.spec_dim());
        }
        &mut self.spatial[2][0]
    }

    pub fn a_y_mut(&mut self) -> (r: &mut i64)
        requires
            old(self).wf(),
            old(self).spec_dim() >= 2,
            old(self).spec_ord() >= 2,
        ensures
            *r == old(self).sview()[2][1],
            final(self).sview() == old(self).sview().update(
                2,
                old(self).sview()[2].update(1, *final(r)),
            ),
            final(self).angular == old(self).angular,
            final(self).wf(),
    {
        proof {
            assert(self.sview()[2].len() == self.spec_dim());
        }
        &mut self.spatial[2][1]
    }

    pub fn a_z_mut(&mut self) -> (r: &mut i64)
        requires
            old(self).wf(),
            old(self).spec_dim() >= 3,
            old(self).spec_ord() >= 2,
        ensures
            *r == old(self).sview()[2][2],
            final(self).sview() == old(self).sview().update(
                2,
                old(self).sview()[2].update(2, *final(r)),
            ),
            final(self).angular == old(self).angular,
            final(self).wf(),
    {
        proof {
            assert(self.sview()[2].len() == self.spec_dim());
        }
        &mut self.spatial[2][2]
    }

    pub fn a_u(&self) -> (r: i64)
        requires
            self.wf(),
            self.spec_ord() >= 2,
        ensures
            r == self.aview()[2][0],
    {
        proof {
            assert(self.aview()[2].len() == self.spec_dim());
        }
        self.angular[2][0]
    }

    pub fn a_v(&self) -> (r: i64)
        requires
            self.wf(),
            self.spec_dim() >= 2,
            self.spec_ord() >= 2,
        ensures
            r == self.aview()[2][1],
    {
        proof {
            assert(self.aview()[2].len() == self.spec_dim());
        }
        self.angular[2][1]
    }

    pub fn a_w(&self) -> (r: i64)
        requires
            self.wf(),
            self.spec_dim() >= 3,
            self.spec_ord() >= 2,
        ensures
            r == self.aview()[2][2],
    {
        proof {
            assert(self.aview()[2].len() == self.spec_dim());
        }
        self.angular[2][2]
    }

    pub fn a_u_mut(&mut self) -> (r: &mut i64)
        requires
            old(self).wf(),
            old(self).spec_ord() >= 2,
        ensures
            *r == old(self).aview()[2][0],
            final(self).aview() == old(self).aview().update(
                2,
                old(self).aview()[2].update(0, *final(r)),
            ),
            final(self).spatial == old(self).spatial,
            final(self).wf(),
    {
        proof {
            assert(self.aview()[2].len() == self.spec_dim());
        }
        &mut self.angular[2][0]
    }

    pub fn a_v_mut(&mut self) -> (r: &mut i64)
        requires
            old(self).wf(),
            old(self).spec_dim() >= 2,
            old(self).spec_ord() >= 2,
        ensures
            *r == old(self).aview()[2][1],
            final(self).aview() == old(self).aview().update(
                2,
                old(self).aview()[2].update(1, *final(r)),
            ),
            final(self).spatial == old(self).spatial,
            final(self).wf(),
    {
        proof {
            assert(self.aview()[2].len() == self.spec_dim());
        }
        &mut self.angular[2][1]
    }

    pub fn a_w_mut(&mut self) -> (r: &mut i64)
        requires
            old(self).wf(),
            old(self).spec_dim() >= 3,
            old(self).spec_ord() >= 2,
        ensures
            *r == old(self).aview()[2][2],
            final(self).aview() == old(self).aview().update(
                2,
                old(self).aview()[2].update(2, *final(r)),
            ),
            final(self).spatial == old(self).spatial,
            final(self).wf(),
    {
        proof {
            assert(self.aview()[2].len() == self.spec_dim());
        }
        &mut self.angular[2][2]
    }

    pub fn spatial_jerk(&self) -> (r: &Vec<i64>)
        requires
            self.wf(),
            self.spec_ord() >= 3,
        ensures
            r@ == self.sview()[3],
    {
        &self.spatial[3]
    }

    pub fn spatial_jerk_mut(&mut self) -> (r: &mut Vec<i64>)
        requires
            old(self).wf(),
            old(self).spec_ord() >= 3,
        ensures
            (*r)@ == old(self).sview()[3],
            final(self).spatial@ == old(self).spatial@.update(3, *final(r)),
            final(self).angular == old(self).angular,
    {
        &mut self.spatial[3]
    }

    pub fn angular_jerk(&self) -> (r: &Vec<i64>)
        requires
            self.wf(),
            self.spec_ord() >= 3,
        ensures
            r@ == self.aview()[3],
    {
        &self.angular[3]
    }

    pub fn angular_jerk_mut(&mut self) -> (r: &mut Vec<i64>)
        requires
            old(self).wf(),
            old(self).spec_ord() >= 3,
        ensures
            (*r)@ == old(self).aview()[3],
            final(self).angular@ == old(self).angular@.update(3, *final(r)),
            final(self).spatial == old(self).spatial,
    {
        &mut self.angular[3]
    }

    pub fn j_x(&self) -> (r: i64)
        requires
            self.wf(),
            self.spec_ord() >= 3,
        ensures
            r == self.sview()[3][0],
    {
        proof {
            assert(self.sview()[3].len() == self.spec_dim());
        }
        self.spatial[3][0]
    }

    pub fn j_y(&self) -> (r: i64)
        requires
            self.wf(),
            self.spec_dim() >= 2,
            self.spec_ord() >= 3,
        ensures
            r == self.sview()[3][1],
    {
        proof {
            assert(self.sview()[3].len() == self.spec_dim());
        }
        self.spatial[3][1]
    }

    pub fn j_z(&self) -> (r: i64)
        requires
            self.wf(),
            self.spec_dim() >= 3,
            self.spec_ord() >= 3,
        ensures
            r == self.sview()[3][2],
    {
        proof {
            assert(self.sview()[3].len() == self.spec_dim());
        }
        self.spatial[3][2]
    }

    pub fn j_x_mut(&mut self) -> (r: &mut i64)
        requires
            old(self).wf(),
            old(self).spec_ord() >= 3,
        ensures
            *r == old(self).sview()[3][0],
            final(self).sview() == old(self).sview().update(
                3,
                old(self).sview()[3].update(0, *final(r)),
            ),
            final(self).angular == old(self).angular,
            final(self).wf(),
    {
        proof {
            assert(self.sview()[3].len() == self.spec_dim());
        }
        &mut self.spatial[3][0]
    }

    pub fn j_y_mut(&mut self) -> (r: &mut i64)
        requires
            old(self).wf(),
            old(self).spec_dim() >= 2,
            old(self).spec_ord() >= 3,
        ensures
            *r == old(self).sview()[3][1],
            final(self).sview() == old(self).sview().update(
                3,
                old(self).sview()[3].update(1, *final(r)),
            ),
            final(self).angular == old(self).angular,
            final(self).wf(),
    {
        proof {
            assert(self.sview()[3].len() == self.spec_dim());
        }
        &mut self.spatial[3][1]
    }

    pub fn j_z_mut(&mut self) -> (r: &mut i64)
        requires
            old(self).wf(),
            old(self).spec_dim() >= 3,
            old(self).spec_ord() >= 3,
        ensures
            *r == old(self).sview()[3][2],
            final(self).sview() == old(self).sview().update(
                3,
                old(self).sview()[3].update(2, *final(r)),
            ),
            final(self).angular == old(self).angular,
            final(self).wf(),
    {
        proof {
            assert(self.sview()[3].len() == self.spec_dim());
        }
        &mut self.spatial[3][2]
    }

    pub fn j_u(&self) -> (r: i64)
        requires
            self.wf(),
            self.spec_ord() >= 3,
        ensures
            r == self.aview()[3][0],
    {
        proof {
            assert(self.aview()[3].len() == self.spec_dim());
        }
        self.angular[3][0]
    }

    pub fn j_v(&self) -> (r: i64)
        requires
            self.wf(),
            self.spec_dim() >= 2,
            self.spec_ord() >= 3,
        ensures
            r == self.aview()[3][1],
    {
        proof {
            assert(self.aview()[3].len() == self.spec_dim());
        }
        self.angular[3][1]
    }

    pub fn j_w(&self) -> (r: i64)
        requires
            self.wf(),
            self.spec_dim() >= 3,
            self.spec_ord() >= 3,
        ensures
            r == self.aview()[3][2],
    {
        proof {
            assert(self.aview()[3].len() == self.spec_dim());
        }
        self.angular[3][2]
    }

    pub fn j_u_mut(&mut self) -> (r: &mut i64)
        requires
            old(self).wf(),
            old(self).spec_ord() >= 3,
        ensures
            *r == old(self).aview()[3][0],
            final(self).aview() == old(self).aview().update(
                3,
                old(self).aview()[3].update(0, *final(r)),
            ),
            final(self).spatial == old(self).spatial,
            final(self).wf(),
    {
        proof {
            assert(self.aview()[3].len() == self.spec_dim());
        }
        &mut self.angular[3][0]
    }

    pub fn j_v_mut(&mut self) -> (r: &mut i64)
        requires
            old(self).wf(),
            old(self).spec_dim() >= 2,
            old(self).spec_ord() >= 3,
        ensures
            *r == old(self).aview()[3][1],
            final(self).aview() == old(self).aview().update(
                3,
                old(self).aview()[3].update(1, *final(r)),
            ),
            final(self).spatial == old(self).spatial,
            final(self).wf(),
    {
        proof {
            assert(self.aview()[3].len() == self.spec_dim());
        }
        &mut self.angular[3][1]
    }

    pub fn j_w_mut(&mut self) -> (r: &mut i64)
        requires
            old(self).wf(),
            old(self).spec_dim() >= 3,
            old(self).spec_ord() >= 3,
        ensures
            *r == old(self).aview()[3][2],
            final(self).aview() == old(self).aview().update(
                3,
                old(self).aview()[3].update(2, *final(r)),
            ),
            final(self).spatial == old(self).spatial,
            final(self).wf(),
    {
        proof {
            assert(self.aview()[3].len() == self.spec_dim());
        }
        &mut self.angular[3][2]
    }

    pub fn spatial_snap(&self) -> (r: &Vec<i64>)
        requires
            self.wf(),
            self.spec_ord() >= 4,
        ensures
            r@ == self.sview()[4],
    {
        &self.spatial[4]
    }

    pub fn spatial_snap_mut(&mut self) -> (r: &mut Vec<i64>)
        requires
            old(self).wf(),
            old(self).spec_ord() >= 4,
        ensures
            (*r)@ == old(self).sview()[4],
            final(self).spatial@ == old(self).spatial@.update(4, *final(r)),
            final(self).angular == old(self).angular,
    {
        &mut self.spatial[4]
    }

    pub fn angular_snap(&self) -> (r: &Vec<i64>)
        requires
            self.wf(),
            self.spec_ord() >= 4,
        ensures
            r@ == self.aview()[4],
    {
        &self.angular[4]
    }

    pub fn angular_snap_mut(&mut self) -> (r: &mut Vec<i64>)
        requires
            old(self).wf(),
            old(self).spec_ord() >= 4,
        ensures
            (*r)@ == old(self).aview()[4],
            final(self).angular@ == old(self).angular@.update(4, *final(r)),
            final(self).spatial == old(self).spatial,
    {
        &mut self.angular[4]
    }

    pub fn s_x(&self) -> (r: i64)
        requires
            self.wf(),
            self.spec_ord() >= 4,
        ensures
            r == self.sview()[4][0],
    {
        proof {
            assert(self.sview()[4].len() == self.spec_dim());
        }
        self.spatial[4][0]
    }

    pub fn s_y(&self) -> (r: i64)
        requires
            self.wf(),
            self.spec_dim() >= 2,
            self.spec_ord() >= 4,
        ensures
            r == self.sview()[4][1],
    {
        proof {
            assert(self.sview()[4].len() == self.spec_dim());
        }
        self.spatial[4][1]
    }

    pub fn s_z(&self) -> (r: i64)
        requires
            self.wf(),
            self.spec_dim() >= 3,
            self.spec_ord() >= 4,
        ensures
            r == self.sview()[4][2],
    {
        proof {
            assert(self.sview()[4].len() == self.spec_dim());
        }
        self.spatial[4][2]
    }

    pub fn s_x_mut(&mut self) -> (r: &mut i64)
        requires
            old(self).wf(),
            old(self).spec_ord() >= 4,
        ensures
            *r == old(self).sview()[4][0],
            final(self).sview() == old(self).sview().update(
                4,
                old(self).sview()[4].update(0, *final(r)),
            ),
            final(self).angular == old(self).angular,
            final(self).wf(),
    {
        proof {
            assert(self.sview()[4].len() == self.spec_dim());
        }
        &mut self.spatial[4][0]
    }

    pub fn s_y_mut(&mut self) -> (r: &mut i64)
        requires
            old(self).wf(),
            old(self).spec_dim() >= 2,
            old(self).spec_ord() >= 4,
        ensures
            *r == old(self).sview()[4][1],
            final(self).sview() == old(self).sview().update(
                4,
                old(self).sview()[4].update(1, *final(r)),
            ),
            final(self).angular == old(self).angular,
            final(self).wf(),
    {
        proof {
            assert(self.sview()[4].len() == self.spec_dim());
        }
        &mut self.spatial[4][1]
    }

    pub fn s_z_mut(&mut self) -> (r: &mut i64)
        requires
            old(self).wf(),
            old(self).spec_dim() >= 3,
            old(self).spec_ord() >= 4,
        ensures
            *r == old(self).sview()[4][2],
            final(self).sview() == old(self).sview().update(
                4,
                old(self).sview()[4].update(2, *final(r)),
            ),
            final(self).angular == old(self).angular,
            final(self).wf(),
    {
        proof {
            assert(self.sview()[4].len() == self.spec_dim());
        }
        &mut self.spatial[4][2]
    }

    pub fn s_u(&self) -> (r: i64)
        requires
            self.wf(),
            self.spec_ord() >= 4,
        ensures
            r == self.aview()[4][0],
    {
        proof {
            assert(self.aview()[4].len() == self.spec_dim());
        }
        self.angular[4][0]
    }

    pub fn s_v(&self) -> (r: i64)
        requires
            self.wf(),
            self.spec_dim() >= 2,
            self.spec_ord() >= 4,
        ensures
            r == self.aview()[4][1],
    {
        proof {
            assert(self.aview()[4].len() == self.spec_dim());
        }
        self.angular[4][1]
    }

    pub fn s_w(&self) -> (r: i64)
        requires
            self.wf(),
            self.spec_dim() >= 3,
            self.spec_ord() >= 4,
        ensures
            r == self.aview()[4][2],
    {
        proof {
            assert(self.aview()[4].len() == self.spec_dim());
        }
        self.angular[4][2]
    }

    pub fn s_u_mut(&mut self) -> (r: &mut i64)
        requires
            old(self).wf(),
            old(self).spec_ord() >= 4,
        ensures
            *r == old(self).aview()[4][0],
            final(self).aview() == old(self).aview().update(
                4,
                old(self).aview()[4].update(0, *final(r)),
            ),
            final(self).spatial == old(self).spatial,
            final(self).wf(),
    {
        proof {
            assert(self.aview()[4].len() == self.spec_dim());
        }
        &mut self.angular[4][0]
    }

    pub fn s_v_mut(&mut self) -> (r: &mut i64)
        requires
            old(self).wf(),
            old(self).spec_dim() >= 2,
            old(self).spec_ord() >= 4,
        ensures
            *r == old(self).aview()[4][1],
            final(self).aview() == old(self).aview().update(
                4,
                old(self).aview()[4].update(1, *final(r)),
            ),
            final(self).spatial == old(self).spatial,
            final(self).wf(),
    {
        proof {
            assert(self.aview()[4].len() == self.spec_dim());
        }
        &mut self.angular[4][1]
    }

    pub fn s_w_mut(&mut self) -> (r: &mut i64)
        requires
            old(self).wf(),
            old(self).spec_dim() >= 3,
            old(self).spec_ord() >= 4,
        ensures
            *r == old(self).aview()[4][2],
            final(self).aview() == old(self).aview().update(
                4,
                old(self).aview()[4].update(2, *final(r)),
            ),
            final(self).spatial == old(self).spatial,
            final(self).wf(),
    {
        proof {
            assert(self.aview()[4].len() == self.spec_dim());
        }
        &mut self.angular[4][2]
    }

    pub fn spatial_crackle(&self) -> (r: &Vec<i64>)
        requires
            self.wf(),
            self.spec_ord() >= 5,
        ensures
            r@ == self.sview()[5],
    {
        &self.spatial[5]
    }

    pub fn spatial_crackle_mut(&mut self) -> (r: &mut Vec<i64>)
        requires
            old(self).wf(),
            old(self).spec_ord() >= 5,
        ensures
            (*r)@ == old(self).sview()[5],
            final(self).spatial@ == old(self).spatial@.update(5, *final(r)),
            final(self).angular == old(self).angular,
    {
        &mut self.spatial[5]
    }

    pub fn angular_crackle(&self) -> (r: &Vec<i64>)
        requires
            self.wf(),
            self.spec_ord() >= 5,
        ensures
            r@ == self.aview()[5],
    {
        &self.angular[5]
    }

    pub fn angular_crackle_mut(&mut self) -> (r: &mut Vec<i64>)
        requires
            old(self).wf(),
            old(self).spec_ord() >= 5,
        ensures
            (*r)@ == old(self).aview()[5],
            final(self).angular@ == old(self).angular@.update(5, *final(r)),
            final(self).spatial == old(self).spatial,
    {
        &mut self.angular[5]
    }

    pub fn c_x(&self) -> (r: i64)
        requires
            self.wf(),
            self.spec_ord() >= 5,
        ensures
            r == self.sview()[5][0],
    {
        proof {
            assert(self.sview()[5].len() == self.spec_dim());
        }
        self.spatial[5][0]
    }

    pub fn c_y(&self) -> (r: i64)
        requires
            self.wf(),
            self.spec_dim() >= 2,
            self.spec_ord() >= 5,
        ensures
            r == self.sview()[5][1],
    {
        proof {
            assert(self.sview()[5].len() == self.spec_dim());
        }
        self.spatial[5][1]
    }

    pub fn c_z(&self) -> (r: i64)
        requires
            self.wf(),
            self.spec_dim() >= 3,
            self.spec_ord() >= 5,
        ensures
            r == self.sview()[5][2],
    {
        proof {
            assert(self.sview()[5].len() == self.spec_dim());
        }
        self.spatial[5][2]
    }

    pub fn c_x_mut(&mut self) -> (r: &mut i64)
        requires
            old(self).wf(),
            old(self).spec_ord() >= 5,
        ensures
            *r == old(self).sview()[5][0],
            final(self).sview() == old(self).sview().update(
                5,
                old(self).sview()[5].update(0, *final(r)),
            ),
            final(self).angular == old(self).angular,
            final(self).wf(),
    {
        proof {
            assert(self.sview()[5].len() == self.spec_dim());
        }
        &mut self.spatial[5][0]
    }

    pub fn c_y_mut(&mut self) -> (r: &mut i64)
        requires
            old(self).wf(),
            old(self).spec_dim() >= 2,
            old(self).spec_ord() >= 5,
        ensures
            *r == old(self).sview()[5][1],
            final(self).sview() == old(self).sview().update(
                5,
                old(self).sview()[5].update(1, *final(r)),
            ),
            final(self).angular == old(self).angular,
            final(self).wf(),
    {
        proof {
            assert(self.sview()[5].len() == self.spec_dim());
        }
        &mut self.spatial[5][1]
    }

    pub fn c_z_mut(&mut self) -> (r: &mut i64)
        requires
            old(self).wf(),
            old(self).spec_dim() >= 3,
            old(self).spec_ord() >= 5,
        ensures
            *r == old(self).sview()[5][2],
            final(self).sview() == old(self).sview().update(
                5,
                old(self).sview()[5].update(2, *final(r)),
            ),
            final(self).angular == old(self).angular,
            final(self).wf(),
    {
        proof {
            assert(self.sview()[5].len() == self.spec_dim());
        }
        &mut self.spatial[5][2]
    }

    pub fn c_u(&self) -> (r: i64)
        requires
            self.wf(),
            self.spec_ord() >= 5,
        ensures
            r == self.aview()[5][0],
    {
        proof {
            assert(self.aview()[5].len() == self.spec_dim());
        }
        self.angular[5][0]
    }

    pub fn c_v(&self) -> (r: i64)
        requires
            self.wf(),
            self.spec_dim() >= 2,
            self.spec_ord() >= 5,
        ensures
            r == self.aview()[5][1],
    {
        proof {
            assert(self.aview()[5].len() == self.spec_dim());
        }
        self.angular[5][1]
    }

    pub fn c_w(&self) -> (r: i64)
        requires
            self.wf(),
            self.spec_dim() >= 3,
            self.spec_ord() >= 5,
        ensures
            r == self.aview()[5][2],
    {
        proof {
            assert(self.aview()[5].len() == self.spec_dim());
        }
        self.angular[5][2]
    }

    pub fn c_u_mut(&mut self) -> (r: &mut i64)
        requires
            old(self).wf(),
            old(self).spec_ord() >= 5,
        ensures
            *r == old(self).aview()[5][0],
            final(self).aview() == old(self).aview().update(
                5,
                old(self).aview()[5].update(0, *final(r)),
            ),
            final(self).spatial == old(self).spatial,
            final(self).wf(),
    {
        proof {
            assert(self.aview()[5].len() == self.spec_dim());
        }
        &mut self.angular[5][0]
    }

    pub fn c_v_mut(&mut self) -> (r: &mut i64)
        requires
            old(self).wf(),
            old(self).spec_dim() >= 2,
            old(self).spec_ord() >= 5,
        ensures
            *r == old(self).aview()[5][1],
            final(self).aview() == old(self).aview().update(
                5,
                old(self).aview()[5].update(1, *final(r)),
            ),
            final(self).spatial == old(self).spatial,
            final(self).wf(),
    {
        proof {
            assert(self.aview()[5].len() == self.spec_dim());
        }
        &mut self.angular[5][1]
    }

    pub fn c_w_mut(&mut self) -> (r: &mut i64)
        requires
            old(self).wf(),
            old(self).spec_dim() >= 3,
            old(self).spec_ord() >= 5,
        ensures
            *r == old(self).aview()[5][2],
            final(self).aview() == old(self).aview().update(
                5,
                old(self).aview()[5].update(2, *final(r)),
            ),
            final(self).spatial == old(self).spatial,
            final(self).wf(),
    {
        proof {
            assert(self.aview()[5].len() == self.spec_dim());
        }
        &mut self.angular[5][2]
    }

    pub fn spatial_pop(&self) -> (r: &Vec<i64>)
        requires
            self.wf(),
            self.spec_ord() >= 6,
        ensures
            r@ == self.sview()[6],
    {
        &self.spatial[6]
    }

    pub fn spatial_pop_mut(&mut self) -> (r: &mut Vec<i64>)
        requires
            old(self).wf(),
            old(self).spec_ord() >= 6,
        ensures
            (*r)@ == old(self).sview()[6],
            final(self).spatial@ == old(self).spatial@.update(6, *final(r)),
            final(self).angular == old(self).angular,
    {
        &mut self.spatial[6]
    }

    pub fn angular_pop(&self) -> (r: &Vec<i64>)
        requires
            self.wf(),
            self.spec_ord() >= 6,
        ensures
            r@ == self.aview()[6],
    {
        &self.angular[6]
    }

    pub fn angular_pop_mut(&mut self) -> (r: &mut Vec<i64>)
        requires
            old(self).wf(),
            old(self).spec_ord() >= 6,
        ensures
            (*r)@ == old(self).aview()[6],
            final(self).angular@ == old(self).angular@.update(6, *final(r)),
            final(self).spatial == old(self).spatial,
    {
        &mut self.angular[6]
    }

    pub fn p_x(&self) -> (r: i64)
        requires
            self.wf(),
            self.spec_ord() >= 6,
        ensures
            r == self.sview()[6][0],
    {
        proof {
            assert(self.sview()[6].len() == self.spec_dim());
        }
        self.spatial[6][0]
    }

    pub fn p_y(&self) -> (r: i64)
        requires
            self.wf(),
            self.spec_dim() >= 2,
            self.spec_ord() >= 6,
        ensures
            r == self.sview()[6][1],
    {
        proof {
            assert(self.sview()[6].len() == self.spec_dim());
        }
        self.spatial[6][1]
    }

    pub fn p_z(&self) -> (r: i64)
        requires
            self.wf(),
            self.spec_dim() >= 3,
            self.spec_ord() >= 6,
        ensures
            r == self.sview()[6][2],
    {
        proof {
            assert(self.sview()[6].len() == self.spec_dim());
        }
        self.spatial[6][2]
    }

    pub fn p_x_mut(&mut self) -> (r: &mut i64)
        requires
            old(self).wf(),
            old(self).spec_ord() >= 6,
        ensures
            *r == old(self).sview()[6][0],
            final(self).sview() == old(self).sview().update(
                6,
                old(self).sview()[6].update(0, *final(r)),
            ),
            final(self).angular == old(self).angular,
            final(self).wf(),
    {
        proof {
            assert(self.sview()[6].len() == self.spec_dim());
        }
        &mut self.spatial[6][0]
    }

    pub fn p_y_mut(&mut self) -> (r: &mut i64)
        requires
            old(self).wf(),
            old(self).spec_dim() >= 2,
            old(self).spec_ord() >= 6,
        ensures
            *r == old(self).sview()[6][1],
            final(self).sview() == old(self).sview().update(
                6,
                old(self).sview()[6].update(1, *final(r)),
            ),
            final(self).angular == old(self).angular,
            final(self).wf(),
    {
        proof {
            assert(self.sview()[6].len() == self.spec_dim());
        }
        &mut self.spatial[6][1]
    }

    pub fn p_z_mut(&mut self) -> (r: &mut i64)
        requires
            old(self).wf(),
            old(self).spec_dim() >= 3,
            old(self).spec_ord() >= 6,
        ensures
            *r == old(self).sview()[6][2],
            final(self).sview() == old(self).sview().update(
                6,
                old(self).sview()[6].update(2, *final(r)),
            ),
            final(self).angular == old(self).angular,
            final(self).wf(),
    {
        proof {
            assert(self.sview()[6].len() == self.spec_dim());
        }
        &mut self.spatial[6][2]
    }

    pub fn p_u(&self) -> (r: i64)
        requires
            self.wf(),
            self.spec_ord() >= 6,
        ensures
            r == self.aview()[6][0],
    {
        proof {
            assert(self.aview()[6].len() == self.spec_dim());
        }
        self.angular[6][0]
    }

    pub fn p_v(&self) -> (r: i64)
        requires
            self.wf(),
            self.spec_dim() >= 2,
            self.spec_ord() >= 6,
        ensures
            r == self.aview()[6][1],
    {
        proof {
            assert(self.aview()[6].len() == self.spec_dim());
        }
        self.angular[6][1]
    }

    pub fn p_w(&self) -> (r: i64)
        requires
            self.wf(),
            self.spec_dim() >= 3,
            self.spec_ord() >= 6,
        ensures
            r == self.aview()[6][2],
    {
        proof {
            assert(self.aview()[6].len() == self.spec_dim());
        }
        self.angular[6][2]
    }

    pub fn p_u_mut(&mut self) -> (r: &mut i64)
        requires
            old(self).wf(),
            old(self).spec_ord() >= 6,
        ensures
            *r == old(self).aview()[6][0],
            final(self).aview() == old(self).aview().update(
                6,
                old(self).aview()[6].update(0, *final(r)),
            ),
            final(self).spatial == old(self).spatial,
            final(self).wf(),
    {
        proof {
            assert(self.aview()[6].len() == self.spec_dim());
        }
        &mut self.angular[6][0]
    }

    pub fn p_v_mut(&mut self) -> (r: &mut i64)
        requires
            old(self).wf(),
            old(self).spec_dim() >= 2,
            old(self).spec_ord() >= 6,
        ensures
            *r == old(self).aview()[6][1],
            final(self).aview() == old(self).aview().update(
                6,
                old(self).aview()[6].update(1, *final(r)),
            ),
            final(self).spatial == old(self).spatial,
            final(self).wf(),
    {
        proof {
            assert(self.aview()[6].len() == self.spec_dim());
        }
        &mut self.angular[6][1]
    }

    pub fn p_w_mut(&mut self) -> (r: &mut i64)
        requires
            old(self).wf(),
            old(self).spec_dim() >= 3,
            old(self).spec_ord() >= 6,
        ensures
            *r == old(self).aview()[6][2],
            final(self).aview() == old(self).aview().update(
                6,
                old(self).aview()[6].update(2, *final(r)),
            ),
            final(self).spatial == old(self).spatial,
            final(self).wf(),
    {
        proof {
            assert(self.aview()[6].len() == self.spec_dim());
        }
        &mut self.angular[6][2]
    }

    /// Advance the state by one forward Taylor step: for every order `i`
    /// below the highest, `state[i] += state[i + 1] * dt`, where each
    /// right-hand side is the value held before the step, so a lower order
    /// never sees a value already advanced within the same call.
    pub fn update(&mut self, time_step: i64)
        requires
            old(self).wf(),
            step_fits(old(self).sview(), time_step),
            step_fits(old(self).aview(), time_step),
        ensures
            final(self).wf(),
            final(self).sview() == stepped(old(self).sview(), time_step),
            final(self).aview() == stepped(old(self).aview(), time_step),
    {
        let ord = self.spatial.len() - 1;
        let dim = self.spatial[0].len();
        let mut news: Vec<Vec<i64>> = Vec::new();
        let mut newa: Vec<Vec<i64>> = Vec::new();
        for i in 0..ord
            invariant
                self == old(self),
                self.wf(),
                ord + 1 == self.sview().len(),
                dim == self.spec_dim(),
                step_fits(self.sview(), time_step),
                step_fits(self.aview(), time_step),
                news@.len() == i,
                newa@.len() == i,
                forall|k: int| 0 <= k < i ==> news@[k]@ == stepped(self.sview(), time_step)[k],
                forall|k: int| 0 <= k < i ==> newa@[k]@ == stepped(self.aview(), time_step)[k],
        {
            let mut srow: Vec<i64> = Vec::new();
            let mut arow: Vec<i64> = Vec::new();
            for j in 0..dim
                invariant
                    self == old(self),
                    self.wf(),
                    dim == self.spec_dim(),
                    i < ord,
                    ord + 1 == self.sview().len(),
                    step_fits(self.sview(), time_step),
                    step_fits(self.aview(), time_step),
                    srow@.len() == j,
                    arow@.len() == j,
                    forall|l: int|
                        0 <= l < j ==> srow@[l] == stepped(self.sview(), time_step)[i as int][l],
                    forall|l: int|
                        0 <= l < j ==> arow@[l] == stepped(self.aview(), time_step)[i as int][l],
            {
                proof {
                    assert(self.sview()[i as int] == self.spatial@[i as int]@);
                    assert(self.sview()[i + 1] == self.spatial@[i + 1]@);
                    assert(self.aview()[i as int] == self.angular@[i as int]@);
                    assert(self.aview()[i + 1] == self.angular@[i + 1]@);
                    assert(self.sview()[i as int].len() == dim);
                    assert(self.aview()[i as int].len() == dim);
                }
                let sv = step_axis(self.spatial[i][j], self.spatial[i + 1][j], time_step);
                srow.push(sv);
                let av = step_axis(self.angular[i][j], self.angular[i + 1][j], time_step);
                arow.push(av);
            }
            proof {
                assert(srow@ =~= stepped(self.sview(), time_step)[i as int]);
                assert(arow@ =~= stepped(self.aview(), time_step)[i as int]);
            }
            news.push(srow);
            newa.push(arow);
        }
        let tops = self.spatial.pop().unwrap();
        let topa = self.angular.pop().unwrap();
        news.push(tops);
        newa.push(topa);
        self.spatial = news;
        self.angular = newa;
        proof {
            assert(self.sview() =~= stepped(old(self).sview(), time_step));
            assert(self.aview() =~= stepped(old(self).aview(), time_step));
        }
    }

    /// Replace spatial derivative order `k` with a fresh observation and
    /// store the backward difference `(value - old) / dt` at order `k + 1`.
    fn observe_spatial(&mut self, k: usize, value: Vec<i64>, time_step: i64)
        requires
            old(self).wf(),
            k + 1 < old(self).sview().len(),
            value@.len() == old(self).spec_dim(),
            time_step != 0,
            diff_fits(value@, old(self).sview()[k as int], time_step),
        ensures
            final(self).wf(),
            final(self).sview() == old(self).sview().update(
                k + 1,
                diff_seq(value@, old(self).sview()[k as int], time_step),
            ).update(k as int, value@),
            final(self).angular == old(self).angular,
    {
        let dim = value.len();
        let mut drow: Vec<i64> = Vec::new();
        for j in 0..dim
            invariant
                self == old(self),
                self.wf(),
                k + 1 < self.sview().len(),
                value@.len() == dim,
                dim == self.spec_dim(),
                time_step != 0,
                diff_fits(value@, self.sview()[k as int], time_step),
                drow@.len() == j,
                forall|l: int|
                    0 <= l < j ==> drow@[l] == diff_seq(
                        value@,
                        self.sview()[k as int],
                        time_step,
                    )[l],
        {
            proof {
                assert(self.sview()[k as int] == self.spatial@[k as int]@);
                assert(self.sview()[k as int].len() == dim);
            }
            let d = div_diff(value[j], self.spatial[k][j], time_step);
            drow.push(d);
        }
        proof {
            assert(drow@ =~= diff_seq(value@, self.sview()[k as int], time_step));
        }
        self.spatial.set(k + 1, drow);
        self.spatial.set(k, value);
        proof {
            assert(self.sview() =~= old(self).sview().update(
                k + 1,
                diff_seq(value@, old(self).sview()[k as int], time_step),
            ).update(k as int, value@));
        }
    }

    /// Replace angular derivative order `k` with a fresh observation and
    /// store the backward difference `(value - old) / dt` at order `k + 1`.
    fn observe_angular(&mut self, k: usize, value: Vec<i64>, time_step: i64)
        requires
            old(self).wf(),
            k + 1 < old(self).aview().len(),
            value@.len() == old(self).spec_dim(),
            time_step != 0,
            diff_fits(value@, old(self).aview()[k as int], time_step),
        ensures
            final(self).wf(),
            final(self).aview() == old(self).aview().update(
                k + 1,
                diff_seq(value@, old(self).aview()[k as int], time_step),
            ).update(k as int, value@),
            final(self).spatial == old(self).spatial,
    {
        let dim = value.len();
        let mut drow: Vec<i64> = Vec::new();
        for j in 0..dim
            invariant
                self == old(self),
                self.wf(),
                k + 1 < self.aview().len(),
                value@.len() == dim,
                dim == self.spec_dim(),
                time_step != 0,
                diff_fits(value@, self.aview()[k as int], time_step),
                drow@.len() == j,
                forall|l: int|
                    0 <= l < j ==> drow@[l] == diff_seq(
                        value@,
                        self.aview()[k as int],
                        time_step,
                    )[l],
        {
            proof {
                assert(self.aview()[k as int] == self.angular@[k as int]@);
                assert(self.aview()[k as int].len() == dim);
            }
            let d = div_diff(value[j], self.angular[k][j], time_step);
            drow.push(d);
        }
        proof {
            assert(drow@ =~= diff_seq(value@, self.aview()[k as int], time_step));
        }
        self.angular.set(k + 1, drow);
        self.angular.set(k, value);
        proof {
            assert(self.aview() =~= old(self).aview().update(
                k + 1,
                diff_seq(value@, old(self).aview()[k as int], time_step),
            ).update(k as int, value@));
        }
    }

    /// Record a freshly observed position: the spatial velocity becomes the backward
    /// difference `(position - old) / time_step` and the position becomes
    /// `position`. A zero `time_step` is rejected, closing the
    /// division-by-zero gap of the observation path.
    pub fn update_position(&mut self, position: Vec<i64>, time_step: i64)
        requires
            old(self).wf(),
            old(self).spec_ord() >= 1,
            position@.len() == old(self).spec_dim(),
            time_step != 0,
            diff_fits(position@, old(self).sview()[0], time_step),
        ensures
            final(self).wf(),
            final(self).sview() == old(self).sview().update(
                1,
                diff_seq(position@, old(self).sview()[0], time_step),
            ).update(0, position@),
            final(self).angular == old(self).angular,
    {
        self.observe_spatial(0, position, time_step);
    }

    /// Record a freshly observed spatial velocity: the spatial acceleration becomes the backward
    /// difference `(velocity - old) / time_step` and the spatial velocity becomes
    /// `velocity`. A zero `time_step` is rejected, closing the
    /// division-by-zero gap of the observation path.
    pub fn update_spatial_velocity(&mut self, velocity: Vec<i64>, time_step: i64)
        requires
            old(self).wf(),
            old(self).spec_ord() >= 2,
            velocity@.len() == old(self).spec_dim(),
            time_step != 0,
            diff_fits(velocity@, old(self).sview()[1], time_step),
        ensures
            final(self).wf(),
            final(self).sview() == old(self).sview().update(
                2,
                diff_seq(velocity@, old(self).sview()[1], time_step),
            ).update(1, velocity@),
            final(self).angular == old(self).angular,
    {
        self.observe_spatial(1, velocity, time_step);
    }

    /// Record a freshly observed spatial acceleration: the spatial jerk becomes the backward
    /// difference `(acceleration - old) / time_step` and the spatial acceleration becomes
    /// `acceleration`. A zero `time_step` is rejected, closing the
    /// division-by-zero gap of the observation path.
    pub fn update_spatial_acceleration(&mut self, acceleration: Vec<i64>, time_step: i64)
        requires
            old(self).wf(),
            old(self).spec_ord() >= 3,
            acceleration@.len() == old(self).spec_dim(),
            time_step != 0,
            diff_fits(acceleration@, old(self).sview()[2], time_step),
        ensures
            final(self).wf(),
            final(self).sview() == old(self).sview().update(
                3,
                diff_seq(acceleration@, old(self).sview()[2], time_step),
            ).update(2, acceleration@),
            final(self).angular == old(self).angular,
    {
        self.observe_spatial(2, acceleration, time_step);
    }

    /// Record a freshly observed spatial jerk: the spatial snap becomes the backward
    /// difference `(jerk - old) / time_step` and the spatial jerk becomes
    /// `jerk`. A zero `time_step` is rejected, closing the
    /// division-by-zero gap of the observation path.
    pub fn update_spatial_jerk(&mut self, jerk: Vec<i64>, time_step: i64)
        requires
            old(self).wf(),
            old(self).spec_ord() >= 4,
            jerk@.len() == old(self).spec_dim(),
            time_step != 0,
            diff_fits(jerk@, old(self).sview()[3], time_step),
        ensures
            final(self).wf(),
            final(self).sview() == old(self).sview().update(
                4,
                diff_seq(jerk@, old(self).sview()[3], time_step),
            ).update(3, jerk@),
            final(self).angular == old(self).angular,
    {
        self.observe_spatial(3, jerk, time_step);
    }

    /// Record a freshly observed spatial snap: the spatial crackle becomes the backward
    /// difference `(snap - old) / time_step` and the spatial snap becomes
    /// `snap`. A zero `time_step` is rejected, closing the
    /// division-by-zero gap of the observation path.
    pub fn update_spatial_snap(&mut self, snap: Vec<i64>, time_step: i64)
        requires
            old(self).wf(),
            old(self).spec_ord() >= 5,
            snap@.len() == old(self).spec_dim(),
            time_step != 0,
            diff_fits(snap@, old(self).sview()[4], time_step),
        ensures
            final(self).wf(),
            final(self).sview() == old(self).sview().update(
                5,
                diff_seq(snap@, old(self).sview()[4], time_step),
            ).update(4, snap@),
            final(self).angular == old(self).angular,
    {
        self.observe_spatial(4, snap, time_step);
    }

    /// Record a freshly observed spatial crackle: the spatial pop becomes the backward
    /// difference `(crackle - old) / time_step` and the spatial crackle becomes
    /// `crackle`. A zero `time_step` is rejected, closing the
    /// division-by-zero gap of the observation path.
    pub fn update_spatial_crackle(&mut self, crackle: Vec<i64>, time_step: i64)
        requires
            old(self).wf(),
            old(self).spec_ord() >= 6,
            crackle@.len() == old(self).spec_dim(),
            time_step != 0,
            diff_fits(crackle@, old(self).sview()[5], time_step),
        ensures
            final(self).wf(),
            final(self).sview() == old(self).sview().update(
                6,
                diff_seq(crackle@, old(self).sview()[5], time_step),
            ).update(5, crackle@),
            final(self).angular == old(self).angular,
    {
        self.observe_spatial(5, crackle, time_step);
    }

    /// Record a freshly observed rotation: the angular velocity becomes the backward
    /// difference `(rotation - old) / time_step` and the rotation becomes
    /// `rotation`. A zero `time_step` is rejected, closing the
    /// division-by-zero gap of the observation path.
    pub fn update_rotation(&mut self, rotation: Vec<i64>, time_step: i64)
        requires
            old(self).wf(),
            old(self).spec_ord() >= 1,
            rotation@.len() == old(self).spec_dim(),
            time_step != 0,
            diff_fits(rotation@, old(self).aview()[0], time_step),
        ensures
            final(self).wf(),
            final(self).aview() == old(self).aview().update(
                1,
                diff_seq(rotation@, old(self).aview()[0], time_step),
            ).update(0, rotation@),
            final(self).spatial == old(self).spatial,
    {
        self.observe_angular(0, rotation, time_step);
    }

    /// Record a freshly observed angular velocity: the angular acceleration becomes the backward
    /// difference `(velocity - old) / time_step` and the angular velocity becomes
    /// `velocity`. A zero `time_step` is rejected, closing the
    /// division-by-zero gap of the observation path.
    pub fn update_angular_velocity(&mut self, velocity: Vec<i64>, time_step: i64)
        requires
            old(self).wf(),
            old(self).spec_ord() >= 2,
            velocity@.len() == old(self).spec_dim(),
            time_step != 0,
            diff_fits(velocity@, old(self).aview()[1], time_step),
        ensures
            final(self).wf(),
            final(self).aview() == old(self).aview().update(
                2,
                diff_seq(velocity@, old(self).aview()[1], time_step),
            ).update(1, velocity@),
            final(self).spatial == old(self).spatial,
    {
        self.observe_angular(1, velocity, time_step);
    }

    /// Record a freshly observed angular acceleration: the angular jerk becomes the backward
    /// difference `(acceleration - old) / time_step` and the angular acceleration becomes
    /// `acceleration`. A zero `time_step` is rejected, closing the
    /// division-by-zero gap of the observation path.
    pub fn update_angular_acceleration(&mut self, acceleration: Vec<i64>, time_step: i64)
        requires
            old(self).wf(),
            old(self).spec_ord() >= 3,
            acceleration@.len() == old(self).spec_dim(),
            time_step != 0,
            diff_fits(acceleration@, old(self).aview()[2], time_step),
        ensures
            final(self).wf(),
            final(self).aview() == old(self).aview().update(
                3,
                diff_seq(acceleration@, old(self).aview()[2], time_step),
            ).update(2, acceleration@),
            final(self).spatial == old(self).spatial,
    {
        self.observe_angular(2, acceleration, time_step);
    }

    /// Record a freshly observed angular jerk: the angular snap becomes the backward
    /// difference `(jerk - old) / time_step` and the angular jerk becomes
    /// `jerk`. A zero `time_step` is rejected, closing the
    /// division-by-zero gap of the observation path.
    pub fn update_angular_jerk(&mut self, jerk: Vec<i64>, time_step: i64)
        requires
            old(self).wf(),
            old(self).spec_ord() >= 4,
            jerk@.len() == old(self).spec_dim(),
            time_step != 0,
            diff_fits(jerk@, old(self).aview()[3], time_step),
        ensures
            final(self).wf(),
            final(self).aview() == old(self).aview().update(
                4,
                diff_seq(jerk@, old(self).aview()[3], time_step),
            ).update(3, jerk@),
            final(self).spatial == old(self).spatial,
    {
        self.observe_angular(3, jerk, time_step);
    }

    /// Record a freshly observed angular snap: the angular crackle becomes the backward
    /// difference `(snap - old) / time_step` and the angular snap becomes
    /// `snap`. A zero `time_step` is rejected, closing the
    /// division-by-zero gap of the observation path.
    pub fn update_angular_snap(&mut self, snap: Vec<i64>, time_step: i64)
        requires
            old(self).wf(),
            old(self).spec_ord() >= 5,
            snap@.len() == old(self).spec_dim(),
            time_step != 0,
            diff_fits(snap@, old(self).aview()[4], time_step),
        ensures
            final(self).wf(),
            final(self).aview() == old(self).aview().update(
                5,
                diff_seq(snap@, old(self).aview()[4], time_step),
            ).update(4, snap@),
            final(self).spatial == old(self).spatial,
    {
        self.observe_angular(4, snap, time_step);
    }

    /// Record a freshly observed angular crackle: the angular pop becomes the backward
    /// difference `(crackle - old) / time_step` and the angular crackle becomes
    /// `crackle`. A zero `time_step` is rejected, closing the
    /// division-by-zero gap of the observation path.
    pub fn update_angular_crackle(&mut self, crackle: Vec<i64>, time_step: i64)
        requires
            old(self).wf(),
            old(self).spec_ord() >= 6,
            crackle@.len() == old(self).spec_dim(),
            time_step != 0,
            diff_fits(crackle@, old(self).aview()[5], time_step),
        ensures
            final(self).wf(),
            final(self).aview() == old(self).aview().update(
                6,
                diff_seq(crackle@, old(self).aview()[5], time_step),
            ).update(5, crackle@),
            final(self).spatial == old(self).spatial,
    {
        self.observe_angular(5, crackle, time_step);
    }

    /// Overwrite the spatial pop, the highest tracked derivative; there is
    /// no higher slot for a backward difference.
    pub fn update_spatial_pop(&mut self, pop: Vec<i64>)
        requires
            old(self).wf(),
            old(self).spec_ord() >= 6,
            pop@.len() == old(self).spec_dim(),
        ensures
            final(self).wf(),
            final(self).sview() == old(self).sview().update(6, pop@),
            final(self).angular == old(self).angular,
    {
        self.spatial.set(6, pop);
        proof {
            assert(self.sview() =~= old(self).sview().update(6, pop@));
        }
    }

    /// Overwrite the angular pop, the highest tracked derivative; there is
    /// no higher slot for a backward difference.
    pub fn update_angular_pop(&mut self, pop: Vec<i64>)
        requires
            old(self).wf(),
            old(self).spec_ord() >= 6,
            pop@.len() == old(self).spec_dim(),
        ensures
            final(self).wf(),
            final(self).aview() == old(self).aview().update(6, pop@),
            final(self).spatial == old(self).spatial,
    {
        self.angular.set(6, pop);
        proof {
            assert(self.aview() =~= old(self).aview().update(6, pop@));
        }
    }
}

/// Law: if every derivative above order 0 is zero, a forward step leaves
/// the order-0 value unchanged, whatever the time step.
pub proof fn lemma_update_rest_state(s: Seq<Seq<i64>>, dt: i64)
    requires
        s.len() >= 1,
        forall|i: int|
            1 <= i < s.len() ==> (#[trigger] s[i]).len() == s[0].len(),
        forall|i: int, j: int|
            #![trigger s[i][j]]
            1 <= i < s.len() && 0 <= j < s[i].len() ==> s[i][j] == 0,
    ensures
        stepped(s, dt)[0] == s[0],
{
    if s.len() == 1 {
    } else {
        assert forall|j: int| 0 <= j < s[0].len() implies stepped(s, dt)[0][j] == s[0][j] by {
            assert(s[1][j] == 0);
        }
        assert(stepped(s, dt)[0] =~= s[0]);
    }
}

} // verus!
