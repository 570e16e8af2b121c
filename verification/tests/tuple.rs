use ray_tracer::fixed::ApproxEq;
use ray_tracer::fixed::Fixed;
use ray_tracer::tuple::InvalidOperation;
use ray_tracer::tuple::Tuple;

const EPS: f64 = 0.00001;

fn fx(v: f64) -> Fixed {
    Fixed::from_units((v * 1_000_000.0).round() as i64)
}

#[test]
fn tuple_constructor_test() {
    let a = Tuple::new(fx(4.3), fx(-4.2), fx(3.1), fx(1.0));
    assert_eq!(a.x, fx(4.3));
    assert_eq!(a.y, fx(-4.2));
    assert_eq!(a.z, fx(3.1));
    assert_eq!(a.w, fx(1.0));
}

#[test]
fn tuple_pnt_test() {
    let a = Tuple::pnt(fx(4.3), fx(-4.2), fx(3.1));
    assert!(a.xeq(Tuple::new(fx(4.3), fx(-4.2), fx(3.1), fx(1.0))));
}

#[test]
fn tuple_vec_test() {
    let a = Tuple::vec(fx(4.3), fx(-4.2), fx(3.1));
    assert!(a.xeq(Tuple::new(fx(4.3), fx(-4.2), fx(3.1), fx(0.0))));
}

#[test]
fn tuple_eq_test() {
    let a = Tuple::pnt(fx(0.0), fx(1.0), fx(2.0));
    let b = Tuple::pnt(fx(0.0 + EPS / 4.0), fx(1.0 - EPS / 4.0), fx(2.0 + EPS / 4.0));
    assert!(a.xeq(b));

    let a = Tuple::pnt(fx(0.0), fx(1.0), fx(2.0));
    let b = Tuple::pnt(fx(0.0 + EPS * 4.0), fx(1.0), fx(2.0));
    assert!(!a.xeq(b));
}

#[test]
fn tuple_add_test() {
    let a1 = Tuple::pnt(fx(3.), fx(-2.), fx(5.));
    let a2 = Tuple::vec(fx(-2.), fx(3.), fx(1.));

    assert!(a1.add(a2).xeq(Tuple::pnt(fx(1.), fx(1.), fx(6.))));
}

#[test]
fn tuple_sub_test() {
    let p1 = Tuple::pnt(fx(3.), fx(2.), fx(1.));
    let p2 = Tuple::pnt(fx(5.), fx(6.), fx(7.));
    assert!(p1.sub(p2).xeq(Tuple::vec(fx(-2.), fx(-4.), fx(-6.))));

    let p = Tuple::pnt(fx(3.), fx(2.), fx(1.));
    let v = Tuple::vec(fx(5.), fx(6.), fx(7.));
    assert!(p.sub(v).xeq(Tuple::pnt(fx(-2.), fx(-4.), fx(-6.))));

    let v1 = Tuple::vec(fx(3.), fx(2.), fx(1.));
    let v2 = Tuple::vec(fx(5.), fx(6.), fx(7.));
    assert!(v1.sub(v2).xeq(Tuple::vec(fx(-2.), fx(-4.), fx(-6.))));

    let v = Tuple::vec(fx(1.), fx(-2.), fx(3.));
    assert!(
        Tuple::new(fx(0.), fx(0.), fx(0.), fx(0.)).sub(v).xeq(
            Tuple::vec(fx(-1.), fx(2.), fx(-3.))
        )
    );
}

#[test]
fn tuple_neg_test() {
    let a = Tuple::new(fx(1.), fx(-2.), fx(3.), fx(-4.));
    assert!(a.neg().xeq(Tuple::new(fx(-1.), fx(2.), fx(-3.), fx(4.))));
}

#[test]
fn tuple_scalar_mult_test() {
    let a = Tuple::new(fx(1.), fx(-2.), fx(3.), fx(-4.));
    assert!(a.scale(fx(3.5)).xeq(Tuple::new(fx(3.5), fx(-7.), fx(10.5), fx(-14.))));
    assert!(a.scale(fx(0.5)).xeq(Tuple::new(fx(0.5), fx(-1.), fx(1.5), fx(-2.))));
}

#[test]
fn tuple_scalar_div_test() {
    let a = Tuple::new(fx(1.), fx(-2.), fx(3.), fx(-4.));
    assert!(a.div(fx(2.)).xeq(Tuple::new(fx(0.5), fx(-1.), fx(1.5), fx(-2.))));
}

#[test]
fn tuple_norm_test() {
    assert!(Tuple::vec(fx(1.), fx(0.), fx(0.)).norm().xeq(fx(1.)));
    assert!(Tuple::vec(fx(0.), fx(1.), fx(0.)).norm().xeq(fx(1.)));
    assert!(Tuple::vec(fx(0.), fx(0.), fx(1.)).norm().xeq(fx(1.)));
    assert!(Tuple::vec(fx(1.), fx(2.), fx(3.)).norm().xeq(fx(14f64.sqrt())));
    assert!(Tuple::vec(fx(-1.), fx(-2.), fx(-3.)).norm().xeq(fx(14f64.sqrt())));
}

#[test]
fn tuple_normalize_test() {
    assert!(
        Tuple::vec(fx(4.), fx(0.), fx(0.)).normalize().xeq(Tuple::vec(fx(1.), fx(0.), fx(0.)))
    );
    assert!(
        Tuple::vec(fx(1.), fx(2.), fx(3.)).normalize().xeq(
            Tuple::vec(fx(1. / 14f64.sqrt()), fx(2. / 14f64.sqrt()), fx(3. / 14f64.sqrt()))
        )
    );

    assert!(Tuple::vec(fx(1.), fx(2.), fx(3.)).normalize().norm().xeq(fx(1.)));
}

#[test]
fn tuple_dot_test() {
    let a = Tuple::vec(fx(1.), fx(2.), fx(3.));
    let b = Tuple::vec(fx(2.), fx(3.), fx(4.));
    assert!(a.dot(&b).xeq(fx(20.)));
}

#[test]
fn tuple_cross_test() {
    let a = Tuple::vec(fx(1.), fx(2.), fx(3.));
    let b = Tuple::vec(fx(2.), fx(3.), fx(4.));

    assert!(a.cross(&b).unwrap().xeq(Tuple::vec(fx(-1.), fx(2.), fx(-1.))));
    assert!(b.cross(&a).unwrap().xeq(Tuple::vec(fx(1.), fx(-2.), fx(1.))));
}

#[test]
fn tuple_cross_invalid_test() {
    let p = Tuple::pnt(fx(1.), fx(2.), fx(3.));
    let v = Tuple::vec(fx(2.), fx(3.), fx(4.));

    assert_eq!(p.cross(&v).unwrap_err(), InvalidOperation);
    assert_eq!(v.cross(&p).unwrap_err(), InvalidOperation);
    assert_eq!(p.cross(&p).unwrap_err(), InvalidOperation);
}

#[test]
fn tuple_cross_anticommutes_test() {
    let u = Tuple::vec(fx(1.5), fx(-2.25), fx(0.125));
    let v = Tuple::vec(fx(-4.), fx(3.5), fx(2.75));
    let uv = u.cross(&v).unwrap();
    let vu = v.cross(&u).unwrap();
    assert!(uv.xeq(vu.neg()));
    assert!(vu.xeq(uv.neg()));
}
