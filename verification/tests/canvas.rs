use ray_tracer::canvas::Canvas;
use ray_tracer::color::Color;
use ray_tracer::fixed::ApproxEq;
use ray_tracer::fixed::Fixed;

fn fx(v: f64) -> Fixed {
    Fixed::from_units((v * 1_000_000.0).round() as i64)
}

fn color(r: f64, g: f64, b: f64) -> Color {
    Color::new(fx(r), fx(g), fx(b))
}

#[test]
fn canvas_constr_test() {
    let canvas = Canvas::new(10, 20);
    let black = color(0.0, 0.0, 0.0);
    assert_eq!(canvas.width(), 10);
    assert_eq!(canvas.height(), 20);

    for i in 0..canvas.width() {
        for j in 0..canvas.height() {
            assert!(canvas.get_pixel(i, j).xeq(black));
        }
    }
}

#[test]
fn canvas_rw_test() {
    let mut canvas = Canvas::new(10, 20);
    let red = color(1.0, 0.0, 0.0);
    canvas.write_pixel(2, 3, &red);
    assert!(canvas.get_pixel(2, 3).xeq(red));
}

#[test]
fn canvas_rw_untouched_cells_test() {
    let mut canvas = Canvas::new(4, 4);
    let red = color(1.0, 0.0, 0.0);
    let green = color(0.0, 1.0, 0.0);
    canvas.write_pixel(1, 2, &green);
    canvas.write_pixel(2, 1, &red);
    assert!(canvas.get_pixel(1, 2).xeq(green));
    assert!(canvas.get_pixel(2, 1).xeq(red));
    let black = color(0.0, 0.0, 0.0);
    for x in 0..4 {
        for y in 0..4 {
            if (x, y) != (1, 2) && (x, y) != (2, 1) {
                assert!(canvas.get_pixel(x, y).xeq(black));
            }
        }
    }
}

#[test]
fn canvas_ppm_header_test() {
    let canvas = Canvas::new(5, 3);
    let ppm = canvas.to_ppm();
    let split: Vec<_> = ppm.split('\n').collect();
    assert_eq!(split[0], "P3");
    assert_eq!(split[1], "5 3");
    assert_eq!(split[2], "255");
}

#[test]
fn canvas_ppm_full_test() {
    let mut canvas = Canvas::new(5, 3);
    canvas.write_pixel(0, 0, &color(1.5, 0.0, 0.0));
    canvas.write_pixel(2, 1, &color(0.0, 0.5, 0.0));
    canvas.write_pixel(4, 2, &color(-0.5, 0.0, 1.0));
    let ppm = canvas.to_ppm();
    let split: Vec<_> = ppm.split('\n').collect();
    assert_eq!(split[3], "255 0 0 0 0 0 0 0 0 0 0 0 0 0 0");
    assert_eq!(split[4], "0 0 0 0 0 0 0 127 0 0 0 0 0 0 0");
    assert_eq!(split[5], "0 0 0 0 0 0 0 0 0 0 0 0 0 0 255");
}

#[test]
fn canvas_ppm_long_test() {
    let mut canvas = Canvas::new(10, 2);

    for i in 0..canvas.width() {
        for j in 0..canvas.height() {
            canvas.write_pixel(i, j, &color(1.0, 0.8, 0.6));
        }
    }

    let ppm = canvas.to_ppm();
    let split: Vec<_> = ppm.split('\n').collect();
    for line in split {
        assert!(line.len() < 70);
    }
}

#[test]
fn canvas_ppm_wrap_content_test() {
    let mut canvas = Canvas::new(10, 2);
    for i in 0..canvas.width() {
        for j in 0..canvas.height() {
            canvas.write_pixel(i, j, &color(1.0, 0.8, 0.6));
        }
    }
    let ppm = canvas.to_ppm();
    let split: Vec<_> = ppm.split('\n').collect();
    let five = "255 204 153 255 204 153 255 204 153 255 204 153 255 204 153";
    assert_eq!(split[3], five);
    assert_eq!(split[4], five);
    assert_eq!(split[5], five);
    assert_eq!(split[6], five);
    assert_eq!(split[7], "");
}

#[test]
fn canvas_ppm_wrap_boundary_test() {
    let mut canvas = Canvas::new(7, 1);
    for i in 0..5 {
        canvas.write_pixel(i, 0, &color(1.0, 0.8, 0.6));
    }
    canvas.write_pixel(5, 0, &color(1.0, 0.8, 0.0));
    let ppm = canvas.to_ppm();
    let split: Vec<_> = ppm.split('\n').collect();
    let long = "255 204 153 255 204 153 255 204 153 255 204 153 255 204 153 255 204 0";
    assert_eq!(long.len(), 69);
    assert_eq!(split[3], long);
    assert_eq!(split[4], "0 0 0");
}

#[test]
fn canvas_ppm_newline_test() {
    let canvas = Canvas::new(5, 3);
    let ppm = canvas.to_ppm();
    assert_eq!(&ppm[ppm.len() - 1..], "\n");
}

#[test]
fn canvas_ppm_empty_test() {
    assert_eq!(Canvas::new(0, 0).to_ppm(), "P3\n0 0\n255\n");
    assert_eq!(Canvas::new(0, 2).to_ppm(), "P3\n0 2\n255\n\n\n");
    assert_eq!(Canvas::new(3, 0).to_ppm(), "P3\n3 0\n255\n");
}
