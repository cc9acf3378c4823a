//! The behavior program: a suspended sequential computation that hands out
//! one action request per resume and eventually finishes.
//!
//! A suspendable stack cannot be expressed here, so the program is the
//! equivalent explicit state machine: the requests still to be delivered,
//! and a cursor that only moves forward.  Completion is one-directional:
//! once `Finished` has been observed the program may never be resumed
//! again, and `resume` demands as much of its caller.

use vstd::prelude::*;

use crate::action::ActionRequest;

verus! {

/// What one resume of a behavior program produced: the next action request,
/// or the observation that the program has returned.
#[derive(Clone, Copy, PartialEq, Eq, Structural, Debug)]
pub enum Resume {
    Yielded(ActionRequest),
    Finished,
}

/// Where the program stands: still running, with the cursor into its
/// script, or completed for good.
#[derive(Clone, Copy, Debug)]
enum ProgState {
    Running(usize),
    Done,
}

/// A single-shot behavior program.  It delivers its scripted requests in
/// order, one per resume, and then finishes.
#[derive(Debug)]
pub struct BehaviorProgram {
    script: Vec<ActionRequest>,
    state: ProgState,
}

impl BehaviorProgram {
    #[verifier::type_invariant]
    spec fn inv(self) -> bool {
        match self.state {
            ProgState::Running(c) => c <= self.script.len(),
            ProgState::Done => true,
        }
    }

    /// The requests the program has yet to deliver, in order.
    pub closed spec fn pending(self) -> Seq<ActionRequest> {
        match self.state {
            ProgState::Running(c) => self.script@.skip(c as int),
            ProgState::Done => Seq::empty(),
        }
    }

    /// The program has returned.  False before the first resume and while
    /// suspended at a yield; true only once a resume has observed
    /// `Finished`, and forever after.
    pub closed spec fn is_done(self) -> bool {
        self.state is Done
    }

    /// A fresh program that will deliver `script` in order, then finish.
    pub fn new(script: Vec<ActionRequest>) -> (p: BehaviorProgram)
        ensures
            p.pending() == script@,
            !p.is_done(),
    {
        let p = BehaviorProgram { script, state: ProgState::Running(0) };
        proof {
            assert(p.pending() =~= p.script@);
        }
        p
    }

    /// Whether the program has returned.  The driver must consult this
    /// before every resume.
    pub fn done(&self) -> (b: bool)
        ensures
            b == self.is_done(),
    {
        match self.state {
            ProgState::Running(_) => false,
            ProgState::Done => true,
        }
    }

    /// Run the program to its next yield, or observe that it has returned.
    /// Must never be called once `done` reports true: completion is a
    /// terminal state.
    pub fn resume(&mut self) -> (r: Resume)
        requires
            !old(self).is_done(),
        ensures
            old(self).pending().len() > 0 ==> {
                &&& r == Resume::Yielded(old(self).pending()[0])
                &&& !final(self).is_done()
                &&& final(self).pending() == old(self).pending().skip(1)
            },
            old(self).pending().len() == 0 ==> {
                &&& r == Resume::Finished
                &&& final(self).is_done()
                &&& final(self).pending().len() == 0
            },
    {
        proof {
            use_type_invariant(&*self);
        }
        match self.state {
            ProgState::Running(c) => {
                if c < self.script.len() {
                    let req = self.script[c];
                    self.state = ProgState::Running(c + 1);
                    proof {
                        assert(self.pending() =~= old(self).pending().skip(1));
                    }
                    Resume::Yielded(req)
                } else {
                    self.state = ProgState::Done;
                    Resume::Finished
                }
            },
            ProgState::Done => {
                proof {
                    assert(false);
                }
                Resume::Finished
            },
        }
    }
}

} // verus!
