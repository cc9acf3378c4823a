use action_seq::action::{ActionRequest, Vec2, WalkRequest};
use action_seq::driver::ActionDriver;
use action_seq::program::BehaviorProgram;

fn req(speed: u32, x: i32, y: i32) -> ActionRequest {
    ActionRequest::Walk(WalkRequest { speed, displacement: Vec2 { x, y } })
}

#[test]
fn a_stored_action_resumes_before_the_program_is_touched() {
    // Two requests; the first needs many ticks.  The driver must keep
    // handing back the first action until it completes, then start the
    // second: one action in flight at a time, in program order.
    let script = vec![req(80, 16_000, 0), req(80, 0, 8_000)];
    let mut d = ActionDriver::new(BehaviorProgram::new(script));

    // First tick progresses the first request only.
    let mut a = d.take_action().expect("first request");
    let (eff, done) = a.advance(100);
    assert_eq!(eff, Vec2 { x: 8000, y: 0 });
    assert!(!done);
    d.continue_action(a);

    // Second tick finishes it: the progress was not lost.
    let mut a = d.take_action().expect("stored action");
    let (eff, done) = a.advance(100);
    assert_eq!(eff, Vec2 { x: 8000, y: 0 });
    assert!(done);

    // Only now does the driver resume the program for the second request.
    let mut a = d.take_action().expect("second request");
    let (eff, done) = a.advance(100);
    assert_eq!(eff, Vec2 { x: 0, y: 8000 });
    assert!(done);

    assert!(d.take_action().is_none());
}

#[test]
fn an_exhausted_driver_stays_exhausted() {
    let mut d = ActionDriver::new(BehaviorProgram::new(vec![req(80, 0, 0)]));
    // The single degenerate request completes on its first tick.
    let mut a = d.take_action().expect("the request");
    let (eff, done) = a.advance(5);
    assert_eq!(eff, Vec2 { x: 0, y: 0 });
    assert!(done);
    // Two `None`s in a row, and every later call stays `None`.
    assert!(d.take_action().is_none());
    assert!(d.take_action().is_none());
    for _ in 0..10 {
        assert!(d.take_action().is_none());
    }
}

#[test]
fn a_driver_over_an_empty_program_is_terminal_at_once() {
    let mut d = ActionDriver::new(BehaviorProgram::new(Vec::new()));
    assert!(d.take_action().is_none());
    assert!(d.take_action().is_none());
    assert!(d.take_action().is_none());
}

#[test]
fn square_walk_returns_to_the_origin() {
    // Four legs of 200 units at 80 units/s, ticked at 100 ms: each leg
    // takes exactly 25 ticks, and the path closes on the origin.
    let script = vec![
        req(80, 200_000, 0),
        req(80, 0, 200_000),
        req(80, -200_000, 0),
        req(80, 0, -200_000),
    ];
    let expected_legs = [
        (200_000i64, 0i64),
        (0, 200_000),
        (-200_000, 0),
        (0, -200_000),
    ];
    let mut d = ActionDriver::new(BehaviorProgram::new(script));
    let mut pos = (0i64, 0i64);
    let mut leg_sum = (0i64, 0i64);
    let mut legs = 0usize;
    let mut leg_ticks = 0u32;
    loop {
        let Some(mut a) = d.take_action() else {
            break;
        };
        let (eff, done) = a.advance(100);
        pos.0 += i64::from(eff.x);
        pos.1 += i64::from(eff.y);
        leg_sum.0 += i64::from(eff.x);
        leg_sum.1 += i64::from(eff.y);
        leg_ticks += 1;
        if done {
            assert_eq!(leg_sum, expected_legs[legs]);
            assert_eq!(leg_ticks, 25);
            legs += 1;
            leg_sum = (0, 0);
            leg_ticks = 0;
        } else {
            d.continue_action(a);
        }
        assert!(legs <= 4);
    }
    assert_eq!(legs, 4);
    assert_eq!(pos, (0, 0));
    assert!(d.take_action().is_none());
}
