use flunion::fx::{fx_add, fx_div, fx_mul, fx_sub, quot_i, FP, SAT};
use flunion::vecmath::vector2::{cross, crossf, dot, Vector2};

#[test]
fn add_sub_mul_div_exact() {
    let a = Vector2::new(3 * FP, -2 * FP);
    let b = Vector2::new(FP, 4 * FP);
    let s = a.add(b);
    assert_eq!((s.x, s.y), (4 * FP, 2 * FP));
    let d = a.sub(b);
    assert_eq!((d.x, d.y), (2 * FP, -6 * FP));
    let m = a.mul(2 * FP);
    assert_eq!((m.x, m.y), (6 * FP, -4 * FP));
    let q = a.div(2 * FP);
    assert_eq!((q.x, q.y), (3 * FP / 2, -FP));
}

#[test]
fn in_place_variants_match() {
    let a = Vector2::new(3 * FP, -2 * FP);
    let b = Vector2::new(FP, 4 * FP);
    let mut c = a;
    c.set_add(b);
    assert_eq!((c.x, c.y), (a.add(b).x, a.add(b).y));
    let mut c = a;
    c.set_sub(b);
    assert_eq!((c.x, c.y), (a.sub(b).x, a.sub(b).y));
    let mut c = a;
    c.set_mul(2 * FP);
    assert_eq!((c.x, c.y), (a.mul(2 * FP).x, a.mul(2 * FP).y));
    let mut c = a;
    c.set_div(2 * FP);
    assert_eq!((c.x, c.y), (a.div(2 * FP).x, a.div(2 * FP).y));
    let mut c = a;
    c.set_zero();
    assert_eq!((c.x, c.y), (0, 0));
    let mut c = a;
    c.set(7, 8);
    assert_eq!((c.x, c.y), (7, 8));
}

#[test]
fn division_by_zero_yields_zero_vector() {
    let a = Vector2::new(5 * FP, -7 * FP);
    let q = a.div(0);
    assert_eq!((q.x, q.y), (0, 0));
    let mut b = a;
    b.set_div(0);
    assert_eq!((b.x, b.y), (0, 0));
}

#[test]
fn normalize_zero_yields_zero_vector() {
    let z = Vector2::zero();
    let n = z.normalized();
    assert_eq!((n.x, n.y), (0, 0));
}

#[test]
fn length_of_three_four_is_five() {
    let v = Vector2::new(3 * FP, 4 * FP);
    assert_eq!(v.len(), 5 * FP);
    assert_eq!(Vector2::zero().len(), 0);
    assert_eq!(Vector2::new(FP, 0).len(), FP);
}

#[test]
fn normalized_axis_vector_is_unit() {
    let v = Vector2::new(5 * FP, 0);
    let n = v.normalized();
    assert_eq!((n.x, n.y), (FP, 0));
}

#[test]
fn dot_cross_exact() {
    let a = Vector2::new(2 * FP, 3 * FP);
    let b = Vector2::new(4 * FP, -FP);
    assert_eq!(dot(a, b), 8 * FP - 3 * FP);
    assert_eq!(cross(a, b), -2 * FP - 12 * FP);
    let c = crossf(a, FP);
    assert_eq!((c.x, c.y), (-3 * FP, 2 * FP));
    let n = a.neg();
    assert_eq!((n.x, n.y), (-2 * FP, -3 * FP));
}

#[test]
fn rotation_by_zero_angle_is_identity() {
    let a = Vector2::new(2 * FP, 3 * FP);
    let r = a.rot(FP, 0);
    assert_eq!((r.x, r.y), (2 * FP, 3 * FP));
    let r = a.rot_rev(FP, 0);
    assert_eq!((r.x, r.y), (2 * FP, 3 * FP));
}

#[test]
fn quarter_turn_rotation() {
    let a = Vector2::new(2 * FP, 3 * FP);
    let r = a.rot(0, FP);
    assert_eq!((r.x, r.y), (-3 * FP, 2 * FP));
    let back = r.rot_rev(0, FP);
    assert_eq!((back.x, back.y), (2 * FP, 3 * FP));
}

#[test]
fn quotient_truncates_toward_zero() {
    assert_eq!(quot_i(-7, 2), -3);
    assert_eq!(quot_i(7, -2), -3);
    assert_eq!(quot_i(-7, -2), 3);
    assert_eq!(quot_i(7, 0), 0);
}

#[test]
fn arithmetic_saturates_at_bound() {
    assert_eq!(fx_add(SAT, SAT), SAT);
    assert_eq!(fx_sub(-SAT, SAT), -SAT);
    assert_eq!(fx_mul(SAT, SAT), SAT);
    assert_eq!(fx_div(SAT, 1), SAT);
}

#[test]
fn scalar_products_and_quotients_exact() {
    assert_eq!(fx_mul(3 * FP, 2 * FP), 6 * FP);
    assert_eq!(fx_mul(FP / 2, FP / 2), FP / 4);
    assert_eq!(fx_div(FP, 2 * FP), FP / 2);
    assert_eq!(fx_div(3 * FP, 0), 0);
}

#[test]
fn reciprocal_round_trips_below_one() {
    // densities up to one fixed-point unit invert exactly, twice
    assert_eq!(fx_div(FP, fx_div(FP, 12345)), 12345);
    assert_eq!(fx_div(FP, fx_div(FP, 1)), 1);
    assert_eq!(fx_div(FP, fx_div(FP, FP)), FP);
    // the degenerate zero density stays zero through both reciprocals
    assert_eq!(fx_div(FP, 0), 0);
    assert_eq!(fx_div(FP, fx_div(FP, 0)), 0);
    // above one fixed-point unit the round trip can drift
    assert_ne!(fx_div(FP, fx_div(FP, 3145728)), 3145728);
}
