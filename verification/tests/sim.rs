use ray_tracer::fixed::ApproxEq;
use ray_tracer::fixed::Fixed;
use ray_tracer::sim::Simulation;
use ray_tracer::tuple::Tuple;

fn fx(v: f64) -> Fixed {
    Fixed::from_units((v * 1_000_000.0).round() as i64)
}

#[test]
fn sim_tick_test() {
    let r = Tuple::vec(fx(0.), fx(1.), fx(0.));
    let v = Tuple::vec(fx(1.), fx(1.), fx(0.));
    let mut sim = Simulation::new(r, v, fx(0.1), fx(0.01));

    assert!(sim.active());
    sim.tick();
    assert!(sim.position().xeq(Tuple::vec(fx(1.), fx(2.), fx(0.))));
    assert!(sim.velocity().xeq(Tuple::vec(fx(0.99), fx(0.9), fx(0.))));
}

#[test]
fn sim_runs_to_ground_test() {
    let r = Tuple::vec(fx(0.), fx(1.), fx(0.));
    let v = Tuple::vec(fx(1.), fx(1.), fx(0.));
    let mut sim = Simulation::new(r, v, fx(0.1), fx(0.01));

    let mut steps: u32 = 0;
    while sim.active() {
        sim.tick();
        steps += 1;
        assert!(steps < 1000);
    }
    assert!(sim.position().y.units <= 0);
    assert!(steps > 1);
}
