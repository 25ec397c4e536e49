use kinematics::constraint::{Constraint, Range};

#[test]
fn clamp_within_bounds() {
    let r = Range::new(0, 10);
    assert_eq!(r.min(), 0);
    assert_eq!(r.max(), 10);
    let mut v: i64 = 5;
    r.clamp(&mut v);
    assert_eq!(v, 5);
}

#[test]
fn clamp_below_and_above() {
    let r = Range::new(-4, 7);
    let mut low: i64 = -100;
    r.clamp(&mut low);
    assert_eq!(low, -4);
    let mut high: i64 = 100;
    r.clamp(&mut high);
    assert_eq!(high, 7);
}

#[test]
fn clamp_is_idempotent() {
    let r = Range::new(-3, 3);
    let mut v: i64 = 42;
    r.clamp(&mut v);
    let once = v;
    r.clamp(&mut v);
    assert_eq!(v, once);
    assert_eq!(once, 3);
}

#[test]
fn clamp_degenerate_range() {
    let r = Range::new(2, 2);
    let mut v: i64 = -9;
    r.clamp(&mut v);
    assert_eq!(v, 2);
}

#[test]
fn constrain_mixed_axes() {
    let c = Constraint::new(vec![Some(Range::new(0, 5)), None, Some(Range::new(-1, 1))]);
    let mut v: Vec<i64> = vec![9, 9, -9];
    c.constrain(&mut v);
    assert_eq!(v, vec![5, 9, -1]);
}

#[test]
fn constrain_unconstrained_axes_pass_through() {
    let c = Constraint::new(vec![None, None]);
    let mut v: Vec<i64> = vec![123, -456];
    c.constrain(&mut v);
    assert_eq!(v, vec![123, -456]);
}
