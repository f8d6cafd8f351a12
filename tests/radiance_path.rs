use raytracer::radiance::{after_bounce, start_path, Bounce, PathStep};

fn run(depth: usize, bounces: &[Bounce]) -> (PathStep, usize) {
    let mut step = start_path(depth);
    let mut traces = 0;
    while let PathStep::Trace { remaining } = step {
        step = after_bounce(remaining, bounces[traces]);
        traces += 1;
    }
    (step, traces)
}

#[test]
fn zero_depth_is_black() {
    assert_eq!(start_path(0), PathStep::Black);
}

#[test]
fn positive_depth_traces() {
    assert_eq!(start_path(10), PathStep::Trace { remaining: 10 });
}

#[test]
fn miss_shows_background() {
    assert_eq!(after_bounce(3, Bounce::Miss), PathStep::Background);
}

#[test]
fn absorption_is_black() {
    assert_eq!(after_bounce(3, Bounce::Absorbed), PathStep::Black);
}

#[test]
fn scatter_spends_one_bounce() {
    assert_eq!(after_bounce(3, Bounce::Scattered), PathStep::Trace { remaining: 2 });
    assert_eq!(after_bounce(1, Bounce::Scattered), PathStep::Black);
}

#[test]
fn scattering_path_ends_black_after_budget() {
    let bounces = vec![Bounce::Scattered; 10];
    assert_eq!(run(4, &bounces), (PathStep::Black, 4));
}

#[test]
fn path_ends_at_first_escape() {
    let bounces = [Bounce::Scattered, Bounce::Scattered, Bounce::Miss, Bounce::Absorbed];
    assert_eq!(run(10, &bounces), (PathStep::Background, 3));
}
