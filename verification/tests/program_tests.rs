use action_seq::action::{ActionRequest, Vec2, WalkRequest};
use action_seq::program::{BehaviorProgram, Resume};

fn req(x: i32, y: i32) -> ActionRequest {
    ActionRequest::Walk(WalkRequest { speed: 80, displacement: Vec2 { x, y } })
}

#[test]
fn yields_its_script_in_order_then_finishes() {
    let mut p = BehaviorProgram::new(vec![req(1, 0), req(0, 2)]);
    assert!(!p.done());
    assert_eq!(p.resume(), Resume::Yielded(req(1, 0)));
    assert!(!p.done());
    assert_eq!(p.resume(), Resume::Yielded(req(0, 2)));
    // Suspended after its last yield: not yet done.
    assert!(!p.done());
    assert_eq!(p.resume(), Resume::Finished);
    assert!(p.done());
}

#[test]
fn empty_script_finishes_on_the_first_resume() {
    let mut p = BehaviorProgram::new(Vec::new());
    assert!(!p.done());
    assert_eq!(p.resume(), Resume::Finished);
    assert!(p.done());
}
