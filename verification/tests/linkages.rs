use kinematics::body::Body;
use kinematics::constraint::{Constraint, Range};
use kinematics::joint::Joint;
use kinematics::link::Link;
use kinematics::linkage::{Error, Linkage};

fn zero_rows(dim: usize, ord: usize) -> Vec<Vec<i64>> {
    let mut rows = Vec::new();
    for _ in 0..(ord + 1) {
        rows.push(vec![0; dim]);
    }
    rows
}

fn open_constraints(dim: usize, ord: usize) -> Vec<Constraint> {
    let mut cs = Vec::new();
    for _ in 0..(ord + 1) {
        cs.push(Constraint::new(vec![None; dim]));
    }
    cs
}

fn zero_joint(dim: usize, ord: usize) -> Joint {
    Joint::new(
        Body::new(1, zero_rows(dim, ord), zero_rows(dim, ord)),
        open_constraints(dim, ord),
        open_constraints(dim, ord),
    )
}

fn open_link(dim: usize) -> Link {
    Link::new(0, Constraint::new(vec![None; dim]))
}

#[test]
fn linkage_new_test() {
    let mut linkage = Linkage::new(3, 6);
    linkage
        .add_joint(
            0,
            Joint::new(
                Body::new(1, zero_rows(3, 6), zero_rows(3, 6)),
                open_constraints(3, 6),
                open_constraints(3, 6),
            ),
        )
        .unwrap();
    linkage
        .add_joint(
            1,
            Joint::new(
                Body::new(1, zero_rows(3, 6), zero_rows(3, 6)),
                open_constraints(3, 6),
                open_constraints(3, 6),
            ),
        )
        .unwrap();
    linkage
        .add_joint(
            2,
            Joint::new(
                Body::new(1, zero_rows(3, 6), zero_rows(3, 6)),
                open_constraints(3, 6),
                open_constraints(3, 6),
            ),
        )
        .unwrap();
    linkage.add_link(0, 1, open_link(3)).unwrap();
    linkage.add_link(1, 2, open_link(3)).unwrap();
    linkage.constrain_joints();
}

#[test]
fn add_joint_duplicate_id_fails_and_changes_nothing() {
    let mut linkage = Linkage::new(1, 1);
    let mut first = zero_joint(1, 1);
    *first.body.particle.x_mut() = 42;
    linkage.add_joint(7, first).unwrap();
    assert_eq!(linkage.get_joint(7).unwrap().body.particle.x(), 42);
    let second = zero_joint(1, 1);
    let r = linkage.add_joint(7, second);
    assert!(matches!(r, Err(Error::FailedToAddJoint)));
    // the stored joint is untouched and no other node appeared
    assert_eq!(linkage.get_joint(7).unwrap().body.particle.x(), 42);
    assert!(linkage.get_joint(0).is_none());
}

#[test]
fn remove_joint_drops_incident_links() {
    let mut linkage = Linkage::new(2, 0);
    for id in 0..4u64 {
        linkage.add_joint(id, zero_joint(2, 0)).unwrap();
    }
    linkage.add_link(0, 1, open_link(2)).unwrap();
    linkage.add_link(1, 2, open_link(2)).unwrap();
    linkage.add_link(2, 3, open_link(2)).unwrap();
    let removed = linkage.remove_joint(1).unwrap();
    assert_eq!(removed.body.mass, 1);
    // both links touching joint 1 are gone, the third one stays
    assert!(linkage.get_link(0, 1).is_none());
    assert!(linkage.get_link(1, 2).is_none());
    assert!(linkage.get_link(2, 3).is_some());
    assert!(linkage.get_joint(1).is_none());
    assert!(linkage.get_joint(0).is_some());
}

#[test]
fn remove_absent_joint_fails() {
    let mut linkage = Linkage::new(1, 0);
    let r = linkage.remove_joint(99);
    assert!(matches!(r, Err(Error::FailedToRemoveJoint)));
}

#[test]
fn add_link_requires_present_joints() {
    let mut linkage = Linkage::new(1, 0);
    linkage.add_joint(0, zero_joint(1, 0)).unwrap();
    let r = linkage.add_link(0, 1, open_link(1));
    assert!(matches!(r, Err(Error::FailedToAddLink)));
}

#[test]
fn add_link_twice_fails_either_orientation() {
    let mut linkage = Linkage::new(1, 0);
    linkage.add_joint(0, zero_joint(1, 0)).unwrap();
    linkage.add_joint(1, zero_joint(1, 0)).unwrap();
    linkage.add_link(0, 1, open_link(1)).unwrap();
    let r = linkage.add_link(1, 0, open_link(1));
    assert!(matches!(r, Err(Error::FailedToAddLink)));
    assert!(linkage.get_link(1, 0).is_some());
}

#[test]
fn remove_absent_link_fails() {
    let mut linkage = Linkage::new(1, 0);
    linkage.add_joint(0, zero_joint(1, 0)).unwrap();
    linkage.add_joint(1, zero_joint(1, 0)).unwrap();
    let r = linkage.remove_link(0, 1);
    assert!(matches!(r, Err(Error::FailedToRemoveLink)));
}

#[test]
fn remove_link_returns_it() {
    let mut linkage = Linkage::new(1, 0);
    linkage.add_joint(0, zero_joint(1, 0)).unwrap();
    linkage.add_joint(1, zero_joint(1, 0)).unwrap();
    linkage.add_link(0, 1, Link::new(5, Constraint::new(vec![None]))).unwrap();
    let l = linkage.remove_link(1, 0).unwrap();
    assert_eq!(l.mass, 5);
    assert!(linkage.get_link(0, 1).is_none());
    // the joints stay
    assert!(linkage.get_joint(0).is_some());
    assert!(linkage.get_joint(1).is_some());
}

#[test]
fn get_link_mut_writes_through() {
    let mut linkage = Linkage::new(1, 0);
    linkage.add_joint(0, zero_joint(1, 0)).unwrap();
    linkage.add_joint(1, zero_joint(1, 0)).unwrap();
    linkage.add_link(0, 1, open_link(1)).unwrap();
    linkage.get_link_mut(0, 1).unwrap().mass = 33;
    assert_eq!(linkage.get_link(1, 0).unwrap().mass, 33);
}

#[test]
fn update_advances_every_joint() {
    let mut linkage = Linkage::new(1, 1);
    let mut a = zero_joint(1, 1);
    *a.body.particle.v_x_mut() = 2;
    let mut b = zero_joint(1, 1);
    *b.body.particle.v_x_mut() = -3;
    linkage.add_joint(10, a).unwrap();
    linkage.add_joint(20, b).unwrap();
    linkage.update(4);
    assert_eq!(linkage.get_joint(10).unwrap().body.particle.x(), 8);
    assert_eq!(linkage.get_joint(20).unwrap().body.particle.x(), -12);
}

#[test]
fn update_order_of_insertion_is_unobservable() {
    // two joints with no link between them, inserted in opposite orders:
    // updating gives both joints identical post-states in both linkages.
    let mut fwd = Linkage::new(1, 1);
    let mut rev = Linkage::new(1, 1);
    let mut a = zero_joint(1, 1);
    *a.body.particle.x_mut() = 1;
    *a.body.particle.v_x_mut() = 5;
    let mut b = zero_joint(1, 1);
    *b.body.particle.x_mut() = -4;
    *b.body.particle.v_x_mut() = 7;
    fwd.add_joint(1, a.clone()).unwrap();
    fwd.add_joint(2, b.clone()).unwrap();
    rev.add_joint(2, b).unwrap();
    rev.add_joint(1, a).unwrap();
    fwd.update(3);
    rev.update(3);
    for id in [1u64, 2u64] {
        let jf = fwd.get_joint(id).unwrap();
        let jr = rev.get_joint(id).unwrap();
        assert_eq!(jf.body.particle.spatial, jr.body.particle.spatial);
        assert_eq!(jf.body.particle.angular, jr.body.particle.angular);
    }
    assert_eq!(fwd.get_joint(1).unwrap().body.particle.x(), 16);
    assert_eq!(fwd.get_joint(2).unwrap().body.particle.x(), 17);
}

fn bounded_joint() -> Joint {
    // one axis, first order; position bounded to [-5, 5], velocity to
    // [0, 2]; angular side bounded to [1, 3] at order zero.
    Joint::new(
        Body::new(
            1,
            vec![vec![9], vec![-9]],
            vec![vec![0], vec![0]],
        ),
        vec![
            Constraint::new(vec![Some(Range::new(-5, 5))]),
            Constraint::new(vec![Some(Range::new(0, 2))]),
        ],
        vec![
            Constraint::new(vec![Some(Range::new(1, 3))]),
            Constraint::new(vec![None]),
        ],
    )
}

#[test]
fn constrain_joints_clamps_both_stacks() {
    let mut linkage = Linkage::new(1, 1);
    linkage.add_joint(0, bounded_joint()).unwrap();
    linkage.constrain_joints();
    let j = linkage.get_joint(0).unwrap();
    assert_eq!(j.body.particle.x(), 5);
    assert_eq!(j.body.particle.v_x(), 0);
    assert_eq!(j.body.particle.u(), 1);
    assert_eq!(j.body.particle.v_u(), 0);
}

#[test]
fn constrain_joints_twice_equals_once() {
    let mut once = Linkage::new(1, 1);
    once.add_joint(0, bounded_joint()).unwrap();
    once.add_joint(1, zero_joint(1, 1)).unwrap();
    let mut twice = Linkage::new(1, 1);
    twice.add_joint(0, bounded_joint()).unwrap();
    twice.add_joint(1, zero_joint(1, 1)).unwrap();
    once.constrain_joints();
    twice.constrain_joints();
    twice.constrain_joints();
    for id in [0u64, 1u64] {
        let jo = once.get_joint(id).unwrap();
        let jt = twice.get_joint(id).unwrap();
        assert_eq!(jo.body.particle.spatial, jt.body.particle.spatial);
        assert_eq!(jo.body.particle.angular, jt.body.particle.angular);
    }
}

#[test]
fn constrain_joint_positions_touches_only_order_zero() {
    let mut linkage = Linkage::new(1, 1);
    linkage.add_joint(0, bounded_joint()).unwrap();
    linkage.constrain_joint_positions();
    let j = linkage.get_joint(0).unwrap();
    assert_eq!(j.body.particle.x(), 5);
    // the velocity is out of its own bounds but was not touched
    assert_eq!(j.body.particle.v_x(), -9);
    assert_eq!(j.body.particle.u(), 0);
}

#[test]
fn constrain_joint_spatial_velocities_touches_only_order_one() {
    let mut linkage = Linkage::new(1, 1);
    linkage.add_joint(0, bounded_joint()).unwrap();
    linkage.constrain_joint_spatial_velocities();
    let j = linkage.get_joint(0).unwrap();
    assert_eq!(j.body.particle.x(), 9);
    assert_eq!(j.body.particle.v_x(), 0);
}

#[test]
fn get_joint_mut_writes_through() {
    let mut linkage = Linkage::new(1, 0);
    linkage.add_joint(3, zero_joint(1, 0)).unwrap();
    *linkage.get_joint_mut(3).unwrap().body.particle.x_mut() = -77;
    assert_eq!(linkage.get_joint(3).unwrap().body.particle.x(), -77);
    assert!(linkage.get_joint_mut(4).is_none());
}
