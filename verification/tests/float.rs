use ray_tracer::fixed::ApproxEq;
use ray_tracer::fixed::Fixed;

const EPS: f64 = 0.00001;

fn fx(v: f64) -> Fixed {
    Fixed::from_units((v * 1_000_000.0).round() as i64)
}

#[test]
fn float_tests() {
    assert!(fx(1. + EPS / 2.).xeq(fx(1.)));
    assert!(!fx(1. + EPS * 2.).xeq(fx(1.)));
}

#[test]
fn approx_policy_test() {
    assert!(fx(0.12345).xeq(fx(0.12345)));
    assert_eq!(fx(0.4).xeq(fx(0.4000001)), fx(0.4000001).xeq(fx(0.4)));
    assert!(!fx(1.).xeq(fx(1. + 2. * EPS)));
    assert!(!fx(1. + 2. * EPS).xeq(fx(1.)));
}

#[test]
fn fixed_arithmetic_test() {
    assert_eq!(fx(1.5).add(fx(0.25)).units, 1_750_000);
    assert_eq!(fx(1.5).sub(fx(0.25)).units, 1_250_000);
    assert_eq!(fx(1.5).neg().units, -1_500_000);
    assert_eq!(fx(1.5).mul(fx(-2.0)).units, -3_000_000);
    assert_eq!(fx(1.0).div(fx(-4.0)).units, -250_000);
    assert_eq!(fx(-1.0).div(fx(3.0)).units, -333_333);
}
