use kinematics::body::Body;
use kinematics::particle::Particle;

#[test]
fn particle_new_test() {
    let position: Vec<i64> = vec![1, 2, 3];
    let rotation: Vec<i64> = vec![3, 2, 1];
    let body = Particle::new(
        vec![vec![1, 2, 3], vec![0, 0, 0]],
        vec![vec![3, 2, 1], vec![0, 0, 0]],
    );
    assert_eq!(*body.position(), position);
    assert_eq!(*body.rotation(), rotation);
    assert_eq!(*body.spatial_velocity(), vec![0, 0, 0]);
    assert_eq!(*body.angular_velocity(), vec![0, 0, 0]);
}

#[test]
fn body_new_test() {
    let position: Vec<i64> = vec![1, 2, 3];
    let rotation: Vec<i64> = vec![3, 2, 1];
    let body = Body::new(
        1,
        vec![vec![1, 2, 3], vec![0, 0, 0]],
        vec![vec![3, 2, 1], vec![0, 0, 0]],
    );
    assert_eq!(*body.position(), position);
    assert_eq!(*body.rotation(), rotation);
    assert_eq!(*body.spatial_velocity(), vec![0, 0, 0]);
    assert_eq!(*body.angular_velocity(), vec![0, 0, 0]);
}

#[test]
fn dim_and_ord() {
    let p = Particle::new(
        vec![vec![0, 0], vec![0, 0], vec![0, 0]],
        vec![vec![0, 0], vec![0, 0], vec![0, 0]],
    );
    assert_eq!(p.dim(), 2);
    assert_eq!(p.ord(), 2);
}

#[test]
fn update_moves_position_by_velocity() {
    // first order, three axes: position (0,0,0), velocity (1,0,0);
    // a step of 2 puts the position at (2,0,0) and keeps the velocity.
    let mut p = Particle::new(
        vec![vec![0, 0, 0], vec![1, 0, 0]],
        vec![vec![0, 0, 0], vec![0, 0, 0]],
    );
    p.update(2);
    assert_eq!(*p.position(), vec![2, 0, 0]);
    assert_eq!(*p.spatial_velocity(), vec![1, 0, 0]);
}

#[test]
fn update_uses_pre_step_values() {
    // second order, one axis: position 0, velocity 0, acceleration 5;
    // after one step the velocity is 5 but the position advanced by the
    // pre-step velocity of 0, so it stays 0.
    let mut p = Particle::new(
        vec![vec![0], vec![0], vec![5]],
        vec![vec![0], vec![0], vec![0]],
    );
    p.update(1);
    assert_eq!(p.v_x(), 5);
    assert_eq!(p.x(), 0);
    assert_eq!(p.a_x(), 5);
}

#[test]
fn update_at_rest_keeps_position() {
    let mut p = Particle::new(
        vec![vec![4, -7], vec![0, 0], vec![0, 0]],
        vec![vec![1, 1], vec![0, 0], vec![0, 0]],
    );
    p.update(1234);
    assert_eq!(*p.position(), vec![4, -7]);
    assert_eq!(*p.rotation(), vec![1, 1]);
}

#[test]
fn update_with_zero_step_is_a_no_op() {
    let mut p = Particle::new(
        vec![vec![3], vec![9], vec![-2]],
        vec![vec![5], vec![1], vec![7]],
    );
    p.update(0);
    assert_eq!(p.x(), 3);
    assert_eq!(p.v_x(), 9);
    assert_eq!(p.a_x(), -2);
    assert_eq!(p.u(), 5);
    assert_eq!(p.v_u(), 1);
    assert_eq!(p.a_u(), 7);
}

#[test]
fn update_full_order_six() {
    // all seven derivative slots in play; each slot below pop advances by
    // the next-higher slot times the step.
    let mut p = Particle::new(
        vec![
            vec![0],
            vec![1],
            vec![2],
            vec![3],
            vec![4],
            vec![5],
            vec![6],
        ],
        vec![
            vec![10],
            vec![20],
            vec![30],
            vec![40],
            vec![50],
            vec![60],
            vec![70],
        ],
    );
    p.update(1);
    assert_eq!(p.x(), 1);
    assert_eq!(p.v_x(), 3);
    assert_eq!(p.a_x(), 5);
    assert_eq!(p.j_x(), 7);
    assert_eq!(p.s_x(), 9);
    assert_eq!(p.c_x(), 11);
    assert_eq!(p.p_x(), 6);
    assert_eq!(p.u(), 30);
    assert_eq!(p.v_u(), 50);
    assert_eq!(p.a_u(), 70);
    assert_eq!(p.j_u(), 90);
    assert_eq!(p.s_u(), 110);
    assert_eq!(p.c_u(), 130);
    assert_eq!(p.p_u(), 70);
}

#[test]
fn update_position_stores_backward_difference() {
    // position 10, new observation 16 after a step of 2: velocity (16-10)/2.
    let mut p = Particle::new(vec![vec![10], vec![0]], vec![vec![0], vec![0]]);
    p.update_position(vec![16], 2);
    assert_eq!(p.x(), 16);
    assert_eq!(p.v_x(), 3);
}

#[test]
fn update_position_truncates_toward_zero() {
    // position 10, new observation 7 after a step of 2: (-3)/2 truncates
    // to -1, not -2.
    let mut p = Particle::new(vec![vec![10], vec![0]], vec![vec![0], vec![0]]);
    p.update_position(vec![7], 2);
    assert_eq!(p.x(), 7);
    assert_eq!(p.v_x(), -1);
}

#[test]
fn update_rotation_stores_backward_difference() {
    let mut p = Particle::new(vec![vec![0], vec![0]], vec![vec![4], vec![0]]);
    p.update_rotation(vec![10], 3);
    assert_eq!(p.u(), 10);
    assert_eq!(p.v_u(), 2);
}

#[test]
fn update_spatial_velocity_stores_acceleration() {
    let mut p = Particle::new(
        vec![vec![0], vec![5], vec![0]],
        vec![vec![0], vec![0], vec![0]],
    );
    p.update_spatial_velocity(vec![11], 2);
    assert_eq!(p.v_x(), 11);
    assert_eq!(p.a_x(), 3);
    assert_eq!(p.x(), 0);
}

#[test]
fn update_pop_overwrites_highest_order() {
    let mut p = Particle::new(
        vec![vec![0]; 7],
        vec![vec![0]; 7],
    );
    p.update_spatial_pop(vec![9]);
    p.update_angular_pop(vec![-9]);
    assert_eq!(p.p_x(), 9);
    assert_eq!(p.p_u(), -9);
}

#[test]
fn mut_accessors_write_through() {
    let mut p = Particle::new(
        vec![vec![0, 0], vec![0, 0]],
        vec![vec![0, 0], vec![0, 0]],
    );
    *p.x_mut() = 8;
    *p.v_y_mut() = -3;
    *p.u_mut() = 2;
    assert_eq!(p.x(), 8);
    assert_eq!(p.v_y(), -3);
    assert_eq!(p.u(), 2);
    assert_eq!(p.y(), 0);
    p.position_mut()[1] = 17;
    assert_eq!(p.y(), 17);
}

#[test]
fn body_mass_accessors() {
    let mut b = Body::new(5, vec![vec![0]], vec![vec![0]]);
    assert_eq!(b.mass(), 5);
    *b.mass_mut() = 9;
    assert_eq!(b.mass(), 9);
    assert_eq!(b.particle().dim(), 1);
}
