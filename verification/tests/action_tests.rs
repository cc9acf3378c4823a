use action_seq::action::{ActionRequest, ActionState, Vec2, WalkRequest, WalkState};

fn walk(speed: u32, x: i32, y: i32) -> WalkRequest {
    WalkRequest { speed, displacement: Vec2 { x, y } }
}

#[test]
fn first_tick_covers_exactly_dt_times_speed() {
    // 80 units/s for 100 ms covers 8 units = 8000 milliunits.
    let mut s = WalkState::start(walk(80, 200_000, 0));
    let (eff, done) = s.advance(100);
    assert_eq!(eff, Vec2 { x: 8000, y: 0 });
    assert!(!done);
}

#[test]
fn overshooting_tick_is_clamped_to_the_remainder() {
    let mut s = WalkState::start(walk(80, 200_000, 0));
    let (eff, done) = s.advance(100);
    assert_eq!(eff, Vec2 { x: 8000, y: 0 });
    assert!(!done);
    // A huge tick emits exactly what remains, no more.
    let (eff2, done2) = s.advance(10_000_000);
    assert_eq!(eff2, Vec2 { x: 192_000, y: 0 });
    assert!(done2);
}

#[test]
fn zero_dt_has_zero_effect_and_keeps_the_action_incomplete() {
    let mut s = WalkState::start(walk(80, 200_000, 0));
    let (eff, done) = s.advance(0);
    assert_eq!(eff, Vec2 { x: 0, y: 0 });
    assert!(!done);
}

#[test]
fn zero_speed_never_makes_progress() {
    let mut s = WalkState::start(walk(0, 200_000, 0));
    let (eff, done) = s.advance(1_000_000);
    assert_eq!(eff, Vec2 { x: 0, y: 0 });
    assert!(!done);
}

#[test]
fn degenerate_displacement_completes_on_the_first_tick() {
    // Zero-length displacement: complete at once, zero effect, any dt.
    let mut s = WalkState::start(walk(80, 0, 0));
    let (eff, done) = s.advance(100);
    assert_eq!(eff, Vec2 { x: 0, y: 0 });
    assert!(done);

    // Even a zero dt observes completion.
    let mut s2 = WalkState::start(walk(80, 0, 0));
    let (eff2, done2) = s2.advance(0);
    assert_eq!(eff2, Vec2 { x: 0, y: 0 });
    assert!(done2);
}

#[test]
fn negative_components_walk_backwards() {
    let mut s = WalkState::start(walk(80, -200_000, 0));
    let (eff, done) = s.advance(100);
    assert_eq!(eff, Vec2 { x: -8000, y: 0 });
    assert!(!done);
}

#[test]
fn effects_sum_to_the_displacement_however_dt_is_chunked() {
    // |(3000, 4001)| rounds down to 5000 milliunits of path.
    // One big tick at 1 unit/s covers it all at once...
    let mut one = WalkState::start(walk(1, 3000, 4001));
    let (eff, done) = one.advance(10_000);
    assert!(done);
    assert_eq!(eff, Vec2 { x: 3000, y: 4001 });

    // ...and ten small ticks sum to exactly the same displacement.
    let mut many = WalkState::start(walk(1, 3000, 4001));
    let mut sum = (0i64, 0i64);
    let mut ticks = 0;
    loop {
        let (eff, done) = many.advance(1000);
        sum.0 += i64::from(eff.x);
        sum.1 += i64::from(eff.y);
        ticks += 1;
        if done {
            break;
        }
        assert!(ticks < 100);
    }
    assert_eq!(sum, (3000, 4001));
    assert_eq!(ticks, 5);
}

#[test]
fn progress_is_monotone_along_each_component() {
    // Per-tick effects never point against the displacement.
    let mut s = WalkState::start(walk(7, -9_999, 123));
    let mut guard = 0;
    loop {
        let (eff, done) = s.advance(53);
        assert!(eff.x <= 0);
        assert!(eff.y >= 0);
        if done {
            break;
        }
        guard += 1;
        assert!(guard < 100_000);
    }
}

#[test]
fn large_displacement_still_sums_exactly() {
    let mut s = WalkState::start(walk(4_000_000, 2_000_000_000, -2_000_000_000));
    let mut sum = (0i64, 0i64);
    let mut guard = 0;
    loop {
        let (eff, done) = s.advance(997);
        sum.0 += i64::from(eff.x);
        sum.1 += i64::from(eff.y);
        if done {
            break;
        }
        guard += 1;
        assert!(guard < 100_000);
    }
    assert_eq!(sum, (2_000_000_000, -2_000_000_000));
}

#[test]
fn action_state_wraps_a_walk() {
    let req = ActionRequest::Walk(walk(80, 0, 200_000));
    let mut a = ActionState::start(req);
    let (eff, done) = a.advance(100);
    assert_eq!(eff, Vec2 { x: 0, y: 8000 });
    assert!(!done);
}
