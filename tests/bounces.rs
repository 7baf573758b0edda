use ray_tracing::integrator::{advance, begin, Step, Surface};

/// Traces one path whose queries are answered in turn by `answers`, returning
/// the final step and the number of scatters.
fn trace(depth: i32, answers: &[Surface]) -> (Step, usize) {
    let mut step = begin(depth);
    let mut scatters = 0;
    while let Step::Query { depth: d } = step {
        let surface = answers[scatters];
        if surface == Surface::Scattered {
            scatters += 1;
        }
        step = advance(d, surface);
    }
    (step, scatters)
}

#[test]
fn exhausted_budget_is_black() {
    assert_eq!(begin(0), Step::Black);
    assert_eq!(begin(-4), Step::Black);
    assert_eq!(trace(0, &[Surface::Miss]), (Step::Black, 0));
    assert_eq!(trace(0, &[Surface::Scattered, Surface::Miss]), (Step::Black, 0));
}

#[test]
fn positive_budget_queries_the_scene() {
    assert_eq!(begin(5), Step::Query { depth: 5 });
}

#[test]
fn miss_sees_sky() {
    assert_eq!(advance(1, Surface::Miss), Step::Sky);
    assert_eq!(trace(50, &[Surface::Miss]), (Step::Sky, 0));
}

#[test]
fn absorption_is_black() {
    assert_eq!(advance(3, Surface::Absorbed), Step::Black);
    assert_eq!(trace(5, &[Surface::Scattered, Surface::Absorbed]), (Step::Black, 1));
}

#[test]
fn scatter_spends_one_bounce() {
    assert_eq!(advance(5, Surface::Scattered), Step::Query { depth: 4 });
    assert_eq!(advance(1, Surface::Scattered), Step::Black);
}

#[test]
fn scatters_are_bounded_by_depth() {
    let answers = vec![Surface::Scattered; 10];
    assert_eq!(trace(3, &answers), (Step::Black, 3));
    assert_eq!(trace(3, &[Surface::Scattered, Surface::Scattered, Surface::Miss]), (Step::Sky, 2));
}

#[test]
fn depth_one_single_sphere_scatter_is_black() {
    assert_eq!(trace(1, &[Surface::Scattered]), (Step::Black, 1));
    assert_eq!(trace(1, &[Surface::Miss]), (Step::Sky, 0));
}
