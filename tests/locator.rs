use wheel_phys::locator::{climb, Climb, MAX_MOVES, TICKS_PER_UNIT};

fn abscissa(start: f32, offset: i64) -> f32 {
    start + offset as f32 / TICKS_PER_UNIT as f32
}

fn ground_dist(x: f32, cx: f32, cy: f32, ground: &dyn Fn(f32) -> f32) -> f32 {
    let dx = cx - x;
    let dy = cy - ground(x);
    dx * dx + dy * dy
}

fn nearest(start: f32, cx: f32, cy: f32, ground: &dyn Fn(f32) -> f32) -> f32 {
    let r = climb(|a: i64, b: i64| {
        ground_dist(abscissa(start, b), cx, cy, ground) < ground_dist(abscissa(start, a), cx, cy, ground)
    });
    abscissa(start, r.offset)
}

fn contact(cx: f32, cy: f32, radius: f32, ground: &dyn Fn(f32) -> f32) -> Option<(f32, f32)> {
    let left = nearest(cx - radius, cx, cy, ground);
    let right = nearest(cx + radius, cx, cy, ground);
    let ld = ground_dist(left, cx, cy, ground);
    let rd = ground_dist(right, cx, cy, ground);
    let (d, x) = if ld < rd { (ld, left) } else { (rd, right) };
    if d <= radius * radius {
        Some((x, ground(x)))
    } else {
        None
    }
}

fn flat(_x: f32) -> f32 {
    0.0
}

#[test]
fn flat_ground_tangent_contact_at_origin() {
    let p = contact(0.0, 50.0, 50.0, &flat).expect("tangent circle touches");
    assert!(p.0.abs() < 1e-3);
    assert!(p.1.abs() < 1e-3);
}

#[test]
fn flat_ground_contact_iff_low_enough() {
    assert!(contact(0.0, 10.0, 50.0, &flat).is_some());
    assert!(contact(0.0, 49.9, 50.0, &flat).is_some());
    assert!(contact(0.0, 50.1, 50.0, &flat).is_none());
    assert!(contact(0.0, 200.0, 50.0, &flat).is_none());
}

#[test]
fn search_direction_follows_first_comparison() {
    // distance grows to the right: the search goes back
    let r = climb(|a: i64, b: i64| b < a);
    assert!(!r.forward);
    assert!(r.offset <= 0);
    // distance grows to the left: the search goes forward
    let s = climb(|a: i64, b: i64| b > a);
    assert!(s.forward);
}

#[test]
fn search_never_turns_back() {
    // distance measured from offset 10000 ticks: the search passes 8192,
    // finds 16384 farther, halves down to 2048 and moves to 10240; every
    // later probe lies beyond that and the step halves away
    let target: i64 = 10000;
    let r = climb(|a: i64, b: i64| (b - target).abs() < (a - target).abs());
    assert!(r.is_done());
    assert_eq!(r.step, 0);
    assert!(r.forward);
    assert_eq!(r.offset, 10240);
    assert_eq!(r.moves, 2);
}

#[test]
fn search_never_closer_halves_to_the_end() {
    let r = climb(|_a: i64, _b: i64| false);
    assert_eq!(r.offset, 0);
    assert_eq!(r.step, 0);
    assert_eq!(r.moves, 0);
}

#[test]
fn search_capped_on_endless_descent() {
    let r = climb(|_a: i64, _b: i64| true);
    assert_eq!(r.moves, MAX_MOVES);
    assert!(r.is_done());
    assert!(!r.forward);
    assert_eq!(r.offset, -((MAX_MOVES * TICKS_PER_UNIT) as i64));
}

#[test]
fn single_decisions() {
    let s = Climb::start(true);
    assert_eq!(s.probe(), TICKS_PER_UNIT as i64);
    let t = s.next(true);
    assert_eq!(t.offset, TICKS_PER_UNIT as i64);
    assert_eq!(t.moves, 1);
    let u = t.next(false);
    assert_eq!(u.step, TICKS_PER_UNIT / 2);
    assert_eq!(u.probe(), (TICKS_PER_UNIT + TICKS_PER_UNIT / 2) as i64);
}

#[test]
fn search_ends_no_farther_than_start() {
    for target in [-40000i64, -3, 0, 7, 5000, 12345, 70000] {
        let r = climb(|a: i64, b: i64| (b - target).abs() < (a - target).abs());
        assert!((r.offset - target).abs() <= target.abs());
    }
}
