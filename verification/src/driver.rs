//! The per-entity driver: it owns one behavior program and at most one
//! in-flight action, and mediates between the caller's tick loop and the
//! program's suspend/resume protocol.
//!
//! The driver resumes the program only when no action is in flight and the
//! program has not yet finished, so a completed program is never resumed
//! again; and because the in-flight action is a single `Option`, an entity
//! never has two actions outstanding.

use vstd::prelude::*;

use crate::action::{ActionRequest, ActionState};
use crate::program::{BehaviorProgram, Resume};

verus! {

/// Per-entity adapter over a behavior program and at most one partially
/// progressed action.
pub struct ActionDriver {
    program: BehaviorProgram,
    current_action: Option<ActionState>,
}

impl ActionDriver {
    /// An action is stored only while it still has something to emit.
    #[verifier::type_invariant]
    spec fn inv(self) -> bool {
        match self.current_action {
            Some(a) => !a.is_complete(),
            None => true,
        }
    }

    /// The action in flight, if any.
    pub closed spec fn action(self) -> Option<ActionState> {
        self.current_action
    }

    /// The requests the owned program has yet to deliver.
    pub closed spec fn pending(self) -> Seq<ActionRequest> {
        self.program.pending()
    }

    /// The owned program has returned.
    pub closed spec fn program_done(self) -> bool {
        self.program.is_done()
    }

    /// Nothing is in flight and the program has returned: every further
    /// `take_action` returns `None` and changes nothing.
    pub open spec fn is_terminal(self) -> bool {
        &&& self.action() is None
        &&& self.program_done()
    }

    /// A fresh driver bundling a fresh program; no action in flight yet.
    pub fn new(program: BehaviorProgram) -> (d: ActionDriver)
        ensures
            d.action() is None,
            d.pending() == program.pending(),
            d.program_done() == program.is_done(),
    {
        ActionDriver { program, current_action: None }
    }

    /// Hand the caller the action to progress this tick: the stored one if
    /// a tick left one behind, else a fresh state for the program's next
    /// request.  Returns `None` exactly when the program has finished and
    /// nothing is in flight, and from then on keeps returning `None`
    /// without ever resuming the program again.
    pub fn take_action(&mut self) -> (r: Option<ActionState>)
        ensures
            final(self).action() is None,
            (match old(self).action() {
                Some(a) => {
                    &&& r == Some(a)
                    &&& !a.is_complete()
                    &&& final(self).pending() == old(self).pending()
                    &&& final(self).program_done() == old(self).program_done()
                },
                None => {
                    if old(self).program_done() {
                        &&& r is None
                        &&& final(self).pending() == old(self).pending()
                        &&& final(self).program_done()
                    } else if old(self).pending().len() > 0 {
                        &&& r matches Some(a) && a.fresh_for(old(self).pending()[0])
                        &&& final(self).pending() == old(self).pending().skip(1)
                        &&& !final(self).program_done()
                    } else {
                        &&& r is None
                        &&& final(self).pending().len() == 0
                        &&& final(self).program_done()
                    }
                },
            }),
            r is None ==> final(self).is_terminal(),
    {
        proof {
            use_type_invariant(&*self);
        }
        let cur: Option<ActionState> = self.current_action;
        match cur {
            Some(a) => {
                self.current_action = None;
                Some(a)
            },
            None => {
                if self.program.done() {
                    None
                } else {
                    let mut prog = BehaviorProgram::new(Vec::new());
                    std::mem::swap(&mut prog, &mut self.program);
                    let res = prog.resume();
                    self.program = prog;
                    match res {
                        Resume::Yielded(req) => Some(ActionState::start(req)),
                        Resume::Finished => None,
                    }
                }
            },
        }
    }

    /// Store a still-incomplete action for the next tick's `take_action`.
    /// Never called with a completed state: a finished action is simply
    /// dropped, and the next tick resumes the program instead.
    pub fn continue_action(&mut self, action: ActionState)
        requires
            !action.is_complete(),
        ensures
            final(self).action() == Some(action),
            final(self).pending() == old(self).pending(),
            final(self).program_done() == old(self).program_done(),
    {
        self.current_action = Some(action);
    }
}

} // verus!
