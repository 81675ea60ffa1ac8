use cpu_render::fixed::Fixed;
use cpu_render::math::{Basis, Vector3};

fn f(x: f64) -> Fixed {
    Fixed::from_raw((x * 65536.0).round() as i64)
}

fn to_f64(x: Fixed) -> f64 {
    x.raw as f64 / 65536.0
}

fn unit_x() -> Vector3 {
    Vector3 { x: f(1.), y: f(0.), z: f(0.) }
}

fn unit_y() -> Vector3 {
    Vector3 { x: f(0.), y: f(1.), z: f(0.) }
}

fn unit_z() -> Vector3 {
    Vector3 { x: f(0.), y: f(0.), z: f(1.) }
}

#[test]
fn test_add() {
    let a = Vector3 { x: f(1.), y: f(2.), z: f(3.) };
    let b = Vector3 { x: f(1.), y: f(2.), z: f(3.) };

    assert_eq!(Vector3 { x: f(2.), y: f(4.), z: f(6.) }, &a + &b);
    assert_eq!(Vector3 { x: f(2.), y: f(4.), z: f(6.) }, &b + &a);
    assert_eq!(Vector3 { x: f(2.), y: f(4.), z: f(6.) }, &b + &a);
}

#[test]
fn test_sub() {
    let a = Vector3 { x: f(1.), y: f(2.), z: f(3.) };
    let b = Vector3 { x: f(3.), y: f(2.), z: f(1.) };

    assert_eq!(Vector3 { x: f(-2.), y: f(0.), z: f(2.) }, &a - &b);
    assert_eq!(Vector3 { x: f(-2.), y: f(0.), z: f(2.) }, &a - &b);
    assert_eq!(Vector3 { x: f(2.), y: f(0.), z: f(-2.) }, &b - &a);
    assert_eq!(Vector3 { x: f(2.), y: f(0.), z: f(-2.) }, &b - &a);
}

#[test]
fn test_dot() {
    let a = Vector3 { x: f(1.), y: f(2.), z: f(3.) };
    let b = Vector3 { x: f(1.), y: f(2.), z: f(3.) };

    assert_eq!(f(14.), a.dot(&b));
    assert_eq!(f(14.), b.dot(&a));
    assert_eq!(f(14.), &a * &b);
    assert_eq!(f(14.), &b * &a);
}

#[test]
fn test_cross() {
    let x = unit_x();
    let y = unit_y();
    let z = unit_z();

    assert_eq!(x, y.cross(&z));
    assert_eq!(y, z.cross(&x));
    assert_eq!(z, x.cross(&y));

    assert_eq!(-&x, z.cross(&y));
    assert_eq!(-&y, x.cross(&z));
    assert_eq!(-&z, y.cross(&x));
}

#[test]
fn test_from_single_vector() {
    let basis = Basis::from_single_vector(&Vector3 { x: f(2.5), y: f(1.5), z: f(0.5) });

    let (u, v, w) = (basis.u, basis.v, basis.w);

    assert_eq!(to_f64(u.norm()).round(), 1.);
    assert_eq!(to_f64(v.norm()).round(), 1.);
    assert_eq!(to_f64(w.norm()).round(), 1.);
}

#[test]
fn basis_directions_are_perpendicular() {
    let basis = Basis::from_single_vector(&Vector3 { x: f(2.5), y: f(1.5), z: f(0.5) });
    assert!(to_f64(basis.u.dot(&basis.v)).abs() < 0.001);
    assert!(to_f64(basis.u.dot(&basis.w)).abs() < 0.001);
    assert!(to_f64(basis.v.dot(&basis.w)).abs() < 0.001);
}

#[test]
fn basis_replaces_the_smallest_component() {
    // w = (0, 0, 1): x and y tie at zero, so x is replaced by one:
    // t = (1, 0, 1), u = t x w normalized = (0, -1, 0), v = w x u = (1, 0, 0).
    let basis = Basis::from_single_vector(&Vector3 { x: f(0.), y: f(0.), z: f(4.) });
    assert_eq!(basis.w, unit_z());
    assert_eq!(basis.u, Vector3 { x: f(0.), y: f(-1.), z: f(0.) });
    assert_eq!(basis.v, unit_x());
}

#[test]
fn norm_of_a_pythagorean_triple_is_exact() {
    let v = Vector3::new(f(3.), f(4.), f(12.));
    assert_eq!(v.norm(), f(13.));
}

#[test]
fn normalize_divides_by_the_length() {
    let v = Vector3::new(f(0.), f(3.), f(4.));
    assert_eq!(v.normalize(), Vector3::new(f(0.), Fixed::from_ratio(3, 5), Fixed::from_ratio(4, 5)));
}

#[test]
fn normalize_of_zero_stays_zero() {
    let v = Vector3::zero();
    assert_eq!(v.normalize(), Vector3::zero());
}

#[test]
fn scalar_operators_scale_each_component() {
    let v = Vector3::new(f(1.), f(-2.), f(0.5));
    assert_eq!(&v * f(2.), Vector3::new(f(2.), f(-4.), f(1.)));
    assert_eq!(f(2.) * &v, Vector3::new(f(2.), f(-4.), f(1.)));
    assert_eq!(&v / f(2.), Vector3::new(f(0.5), f(-1.), f(0.25)));
    assert_eq!(v.scaled(f(2.)), &v * f(2.));
    assert_eq!(v.divided(f(2.)), &v / f(2.));
    assert_eq!(v.plus(&v), &v + &v);
    assert_eq!(v.minus(&v), Vector3::zero());
    assert_eq!(v.negated(), -&v);
}
