use ray_tracer::color::Color;
use ray_tracer::fixed::ApproxEq;
use ray_tracer::fixed::Fixed;

fn fx(v: f64) -> Fixed {
    Fixed::from_units((v * 1_000_000.0).round() as i64)
}

fn color(r: f64, g: f64, b: f64) -> Color {
    Color::new(fx(r), fx(g), fx(b))
}

#[test]
fn color_constructor_test() {
    let c = color(-0.5, 0.4, 1.7);
    assert_eq!(c.red, fx(-0.5));
    assert_eq!(c.green, fx(0.4));
    assert_eq!(c.blue, fx(1.7));
}

#[test]
fn color_add_test() {
    let c1 = color(0.9, 0.6, 0.75);
    let c2 = color(0.7, 0.1, 0.25);
    assert!(c1.add(c2).xeq(color(1.6, 0.7, 1.0)));
}

#[test]
fn color_sub_test() {
    let c1 = color(0.9, 0.6, 0.75);
    let c2 = color(0.7, 0.1, 0.25);
    assert!(c1.sub(c2).xeq(color(0.2, 0.5, 0.5)));
}

#[test]
fn color_mult_scalar_test() {
    let c = color(0.2, 0.3, 0.4);
    assert!(c.scale(fx(2.0)).xeq(color(0.4, 0.6, 0.8)));
}

#[test]
fn color_mult_other_test() {
    let c1 = color(1.0, 0.2, 0.4);
    let c2 = color(0.9, 1.0, 0.1);
    assert!(c1.hadamard(c2).xeq(color(0.9, 0.2, 0.04)));
}

#[test]
fn color_hadamard_differs_from_scale_test() {
    let c = color(1.0, 0.2, 0.4);
    let by_color = c.hadamard(color(0.9, 1.0, 0.1));
    let by_scalar = c.scale(fx(0.9));
    assert!(by_color.xeq(color(0.9, 0.2, 0.04)));
    assert!(by_scalar.xeq(color(0.9, 0.18, 0.36)));
    assert!(!by_color.xeq(by_scalar));
}

#[test]
fn color_to_text_clamp_test() {
    assert_eq!(color(1.5, 0.0, 0.0).to_text(), "255 0 0");
    assert_eq!(color(0.0, 0.5, 0.0).to_text(), "0 127 0");
    assert_eq!(color(-0.5, 0.0, 1.0).to_text(), "0 0 255");
}

#[test]
fn color_to_text_plain_test() {
    assert_eq!(color(1.0, 0.8, 0.6).to_text(), "255 204 153");
    assert_eq!(color(0.0, 0.0, 0.0).to_text(), "0 0 0");
}
