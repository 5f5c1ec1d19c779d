use tsgraph::{Arithmetic, Op, Series, TransformError};

fn float_arithmetic() -> Arithmetic<f64, impl Fn(Op, f64, f64) -> f64, impl Fn(f64, f64) -> bool> {
    Arithmetic {
        zero: 0.0,
        half: 0.5,
        op: |op: Op, a: f64, b: f64| match op {
            Op::Add => a + b,
            Op::Sub => a - b,
            Op::Mul => a * b,
            Op::Div => a / b,
        },
        same: |a: f64, b: f64| a == b,
    }
}

fn series(points: &[(f64, f64)]) -> Series<f64> {
    Series { name: "s".to_string(), data: points.to_vec() }
}

#[test]
fn differentiate_two_points() {
    let ar = float_arithmetic();
    let r = series(&[(0.0, 0.0), (2.0, 4.0)]).differentiate(&ar).unwrap();
    assert_eq!(r.data, vec![(2.0, 2.0)]);
    assert_eq!(r.name, "s");
}

#[test]
fn differentiate_several_points() {
    let ar = float_arithmetic();
    let r = series(&[(0.0, 1.0), (1.0, 3.0), (3.0, -1.0)]).differentiate(&ar).unwrap();
    assert_eq!(r.data, vec![(1.0, 2.0), (3.0, -2.0)]);
}

#[test]
fn differentiate_single_point_is_insufficient() {
    let ar = float_arithmetic();
    let r = series(&[(1.0, 1.0)]).differentiate(&ar);
    assert_eq!(r.unwrap_err(), TransformError::InsufficientPoints);
    let r = series(&[]).differentiate(&ar);
    assert_eq!(r.unwrap_err(), TransformError::InsufficientPoints);
}

#[test]
fn differentiate_zero_width_is_degenerate() {
    let ar = float_arithmetic();
    let r = series(&[(0.0, 0.0), (1.0, 1.0), (1.0, 5.0)]).differentiate(&ar);
    assert_eq!(r.unwrap_err(), TransformError::DegenerateDomain);
}

#[test]
fn integrate_trapezoids() {
    let ar = float_arithmetic();
    let (r, total) = series(&[(0.0, 0.0), (1.0, 2.0), (2.0, 0.0)]).integrate(&ar);
    assert_eq!(r.data, vec![(0.0, 0.0), (1.0, 1.0), (2.0, 2.0)]);
    assert_eq!(total, 2.0);
}

#[test]
fn integrate_single_point() {
    let ar = float_arithmetic();
    let (r, total) = series(&[(3.0, 7.0)]).integrate(&ar);
    assert_eq!(r.data, vec![(3.0, 0.0)]);
    assert_eq!(total, 0.0);
}

#[test]
fn integrate_empty() {
    let ar = float_arithmetic();
    let (r, total) = series(&[]).integrate(&ar);
    assert!(r.data.is_empty());
    assert_eq!(total, 0.0);
}

#[test]
fn delta_differences() {
    let ar = float_arithmetic();
    let r = series(&[(0.0, 5.0), (1.0, 8.0), (2.0, 3.0)]).delta(&ar);
    assert_eq!(r.data, vec![(0.0, 5.0), (1.0, 3.0), (2.0, -5.0)]);
}

#[test]
fn delta_ignores_interval_width() {
    let ar = float_arithmetic();
    let r = series(&[(0.0, 1.0), (10.0, 4.0)]).delta(&ar);
    assert_eq!(r.data, vec![(0.0, 1.0), (10.0, 3.0)]);
}

#[test]
fn transforms_are_repeatable_and_leave_input_alone() {
    let ar = float_arithmetic();
    let points = [(0.0, 0.1), (0.3, 0.7), (1.1, -2.5), (2.0, 1e-9)];
    let s = series(&points);
    let d1 = s.differentiate(&ar).unwrap();
    let d2 = s.differentiate(&ar).unwrap();
    let (i1, t1) = s.integrate(&ar);
    let (i2, t2) = s.integrate(&ar);
    let e1 = s.delta(&ar);
    let e2 = s.delta(&ar);
    let bits = |v: &Vec<(f64, f64)>| v.iter().map(|p| (p.0.to_bits(), p.1.to_bits())).collect::<Vec<_>>();
    assert_eq!(bits(&d1.data), bits(&d2.data));
    assert_eq!(bits(&i1.data), bits(&i2.data));
    assert_eq!(t1.to_bits(), t2.to_bits());
    assert_eq!(bits(&e1.data), bits(&e2.data));
    assert_eq!(s.data, points.to_vec());
    assert_eq!(s.name, "s");
}

#[test]
fn copied_keeps_points() {
    let s = series(&[(1.0, 2.0), (3.0, 4.0)]);
    let c = s.copied();
    assert_eq!(c.data, s.data);
    assert_eq!(c.name, s.name);
}
