use ray_tracing::integrator::{finished, start, step, Bounce, PathState};

#[test]
fn zero_depth_is_exhausted_at_once() {
    assert_eq!(start(0), PathState::DepthExhausted);
    assert_eq!(start(-5), PathState::DepthExhausted);
    assert!(finished(start(0)));
}

#[test]
fn zero_depth_stays_black_whatever_happens() {
    let mut s = start(0);
    for b in [Bounce::Scattered, Bounce::Missed, Bounce::Absorbed] {
        s = step(s, b);
    }
    assert_eq!(s, PathState::DepthExhausted);
}

#[test]
fn positive_depth_starts_active() {
    assert_eq!(start(3), PathState::Active(3));
    assert!(!finished(start(3)));
}

#[test]
fn miss_ends_in_the_sky() {
    assert_eq!(step(PathState::Active(2), Bounce::Missed), PathState::SkyColor);
}

#[test]
fn absorption_ends_in_black() {
    assert_eq!(step(PathState::Active(2), Bounce::Absorbed), PathState::Absorbed);
}

#[test]
fn scatter_uses_one_bounce() {
    assert_eq!(step(PathState::Active(2), Bounce::Scattered), PathState::Active(1));
    assert_eq!(
        step(PathState::Active(1), Bounce::Scattered),
        PathState::DepthExhausted
    );
}

#[test]
fn path_ends_within_its_depth() {
    let depth = 5;
    let mut s = start(depth);
    let mut tests = 0;
    while !finished(s) {
        s = step(s, Bounce::Scattered);
        tests += 1;
    }
    assert_eq!(tests, depth);
    assert_eq!(s, PathState::DepthExhausted);
}

#[test]
fn finished_paths_do_not_change() {
    for s in [PathState::SkyColor, PathState::Absorbed, PathState::DepthExhausted] {
        assert_eq!(step(s, Bounce::Scattered), s);
        assert!(finished(s));
    }
}
