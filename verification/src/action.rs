//! Action requests and the live, progress-tracking action states.
//!
//! A `Walk` action covers a fixed displacement at a fixed speed.  Distances
//! are in milliunits, speeds in units per second and tick times in
//! milliseconds, so one tick covers exactly `dt * speed` milliunits of path.
//! The effect a tick returns is the difference of two cumulative emitted
//! vectors, so the effects over an action's whole lifetime always sum to
//! exactly the requested displacement.

use vstd::arithmetic::div_mod::{
    lemma_div_basics, lemma_div_is_ordered, lemma_div_multiples_vanish, lemma_div_pos_is_pos,
};
use vstd::arithmetic::mul::lemma_mul_inequality;
use vstd::prelude::*;

use crate::math::{is_isqrt, isqrt};

verus! {

/// A plane vector with integer components, measured in milliunits.
#[derive(Clone, Copy, PartialEq, Eq, Structural, Debug)]
pub struct Vec2 {
    pub x: i32,
    pub y: i32,
}

/// The squared euclidean norm of a vector with components `x` and `y`.
pub open spec fn norm_sq(x: int, y: int) -> int {
    x * x + y * y
}

/// A request to walk a fixed displacement at a fixed speed.
#[derive(Clone, Copy, PartialEq, Eq, Structural, Debug)]
pub struct WalkRequest {
    /// Speed in units per second.
    pub speed: u32,
    /// Target displacement in milliunits.
    pub displacement: Vec2,
}

/// What a behavior program asks for next.  Produced only by program yields,
/// never constructed by the driver.
#[derive(Clone, Copy, PartialEq, Eq, Structural, Debug)]
pub enum ActionRequest {
    Walk(WalkRequest),
}

/// Where the path travelled stands after one tick of `step` milliunits:
/// it grows by the step but never beyond the path's length.
pub open spec fn clamped_advance(t: int, step: int, len: int) -> int {
    if t + step >= len {
        len
    } else {
        t + step
    }
}

/// `t/len` of a non-negative component magnitude `mag`, rounded down;
/// zero for a degenerate (zero-length) path.
pub open spec fn scaled_frac(mag: int, t: int, len: int) -> int {
    if len == 0 {
        0
    } else {
        (t * mag) / len
    }
}

/// The cumulative amount emitted along one displacement component `c`
/// once `t` of `len` milliunits of path are covered.  Rounds towards zero,
/// so it reaches exactly `c` when `t == len`.
pub open spec fn emitted_component(c: int, t: int, len: int) -> int {
    if c >= 0 {
        scaled_frac(c, t, len)
    } else {
        -scaled_frac(-c, t, len)
    }
}

/// `scaled_frac` starts at zero, never decreases as `t` grows, and reaches
/// exactly `mag` at the end of the path.
pub proof fn lemma_scaled_frac_bounds(mag: int, t1: int, t2: int, len: int)
    requires
        0 <= mag <= len,
        0 <= t1 <= t2 <= len,
    ensures
        0 <= scaled_frac(mag, t1, len),
        scaled_frac(mag, t1, len) <= scaled_frac(mag, t2, len),
        scaled_frac(mag, t2, len) <= mag,
        t2 == len ==> scaled_frac(mag, t2, len) == mag,
        t1 == 0 ==> scaled_frac(mag, t1, len) == 0,
{
    if len > 0 {
        lemma_mul_inequality(t1, t2, mag);
        lemma_mul_inequality(t2, len, mag);
        lemma_div_pos_is_pos(t1 * mag, len);
        lemma_div_is_ordered(t1 * mag, t2 * mag, len);
        lemma_div_is_ordered(t2 * mag, len * mag, len);
        lemma_div_multiples_vanish(mag, len);
        lemma_div_basics(len);
        assert(0 * mag == 0);
    }
}

/// The emitted amount along a component moves from 0 towards `c`, never
/// backwards, stays between 0 and `c`, and lands exactly on `c` at the end
/// of the path.
pub proof fn lemma_emitted_bounds(c: int, t1: int, t2: int, len: int)
    requires
        -len <= c <= len,
        0 <= t1 <= t2 <= len,
    ensures
        c >= 0 ==> 0 <= emitted_component(c, t1, len) <= emitted_component(c, t2, len) <= c,
        c < 0 ==> c <= emitted_component(c, t2, len) <= emitted_component(c, t1, len) <= 0,
        t2 == len ==> emitted_component(c, t2, len) == c,
        t1 == 0 ==> emitted_component(c, t1, len) == 0,
{
    if c >= 0 {
        lemma_scaled_frac_bounds(c, t1, t2, len);
    } else {
        lemma_scaled_frac_bounds(-c, t1, t2, len);
    }
}

/// A component of a vector is never longer than the vector itself.
pub proof fn lemma_component_le_len(x: int, y: int, len: int)
    requires
        is_isqrt(norm_sq(x, y), len),
    ensures
        -len <= x <= len,
        -len <= y <= len,
{
    assert(-len <= x <= len && -len <= y <= len) by (nonlinear_arith)
        requires
            0 <= len,
            x * x + y * y < (len + 1) * (len + 1),
    ;
}

/// The length of a displacement with `i32` components fits comfortably
/// under the integer square root's working range.
pub proof fn lemma_len_bound(x: int, y: int, len: int)
    requires
        is_isqrt(norm_sq(x, y), len),
        -2147483648 <= x <= 2147483647,
        -2147483648 <= y <= 2147483647,
    ensures
        0 <= len <= 3037000499,
{
    assert(x * x + y * y <= 9223372036854775808) by (nonlinear_arith)
        requires
            -2147483648 <= x <= 2147483647,
            -2147483648 <= y <= 2147483647,
    ;
    if len > 3037000499 {
        assert(len * len >= 3037000500 * 3037000500) by (nonlinear_arith)
            requires
                len >= 3037000500,
        ;
    }
}

/// The squared norm of a vector, exactly as the model states it.
fn norm_sq_exec(v: Vec2) -> (n: u64)
    ensures
        n as int == norm_sq(v.x as int, v.y as int),
        n < 3037000500 * 3037000500,
{
    let xi: i64 = v.x as i64;
    let yi: i64 = v.y as i64;
    assert(0 <= xi * xi <= 4611686018427387904 && 0 <= yi * yi <= 4611686018427387904)
        by (nonlinear_arith)
        requires
            -2147483648 <= xi <= 2147483647,
            -2147483648 <= yi <= 2147483647,
    ;
    let sx: u64 = (xi * xi) as u64;
    let sy: u64 = (yi * yi) as u64;
    sx + sy
}

/// The cumulative emitted amount along one component, computed on the
/// magnitude and signed afterwards.
fn emitted_component_exec(c: i32, t: u64, len: u64) -> (e: i32)
    requires
        t <= len,
        len <= 3037000499,
        -(len as int) <= c as int <= len as int,
    ensures
        e as int == emitted_component(c as int, t as int, len as int),
{
    if len == 0 {
        return 0;
    }
    let mag: u64 = if c >= 0 {
        c as u64
    } else {
        (-(c as i64)) as u64
    };
    assert(0 <= (t as int) * (mag as int) <= 3037000499 * 3037000499) by (nonlinear_arith)
        requires
            0 <= t as int <= 3037000499,
            0 <= mag as int <= 3037000499,
    ;
    let q: u64 = (t * mag) / len;
    proof {
        lemma_mul_inequality(t as int, len as int, mag as int);
        lemma_div_is_ordered((t as int) * (mag as int), (len as int) * (mag as int), len as int);
        lemma_div_multiples_vanish(mag as int, len as int);
        lemma_div_pos_is_pos((t as int) * (mag as int), len as int);
    }
    if c >= 0 {
        q as i32
    } else {
        (-(q as i64)) as i32
    }
}

/// The live, mutable counterpart of a walk request: the request's fields
/// plus how much of the path has been covered so far.
#[derive(Clone, Copy, Debug)]
pub struct WalkState {
    speed: u32,
    displacement: Vec2,
    length: u64,
    travelled: u64,
}

impl WalkState {
    /// Progress never runs past the end of the path, and the cached length
    /// really is the displacement's euclidean length.
    #[verifier::type_invariant]
    spec fn inv(self) -> bool {
        &&& is_isqrt(
            norm_sq(self.displacement.x as int, self.displacement.y as int),
            self.length as int,
        )
        &&& self.travelled <= self.length
    }

    /// Speed in units per second.
    pub closed spec fn speed(self) -> u32 {
        self.speed
    }

    /// Target displacement in milliunits.
    pub closed spec fn displacement(self) -> Vec2 {
        self.displacement
    }

    /// Length of the displacement in milliunits.
    pub closed spec fn length(self) -> u64 {
        self.length
    }

    /// Milliunits of path covered so far.
    pub closed spec fn travelled(self) -> u64 {
        self.travelled
    }

    /// The whole path is covered: nothing remains to emit.
    pub open spec fn is_complete(self) -> bool {
        self.travelled() == self.length()
    }

    /// Cumulative emitted amount along `x` for the current progress.
    pub open spec fn emitted_x(self) -> int {
        emitted_component(self.displacement().x as int, self.travelled() as int, self.length() as int)
    }

    /// Cumulative emitted amount along `y` for the current progress.
    pub open spec fn emitted_y(self) -> int {
        emitted_component(self.displacement().y as int, self.travelled() as int, self.length() as int)
    }

    /// A fresh in-flight state for a request: no progress yet.
    pub fn start(req: WalkRequest) -> (s: WalkState)
        ensures
            s.speed() == req.speed,
            s.displacement() == req.displacement,
            s.travelled() == 0,
            is_isqrt(
                norm_sq(req.displacement.x as int, req.displacement.y as int),
                s.length() as int,
            ),
    {
        let nsq: u64 = norm_sq_exec(req.displacement);
        let len: u64 = isqrt(nsq);
        WalkState { speed: req.speed, displacement: req.displacement, length: len, travelled: 0 }
    }

    /// Advance the walk by one tick of `dt` milliseconds.  The distance
    /// covered is `dt * speed` milliunits, clamped to what remains of the
    /// path; the returned effect is what this tick emits along each
    /// component, and the flag tells whether the walk is now complete.
    pub fn advance(&mut self, dt: u32) -> (r: (Vec2, bool))
        ensures
            final(self).speed() == old(self).speed(),
            final(self).displacement() == old(self).displacement(),
            final(self).length() == old(self).length(),
            final(self).travelled() as int == clamped_advance(
                old(self).travelled() as int,
                (dt as int) * (old(self).speed() as int),
                old(self).length() as int,
            ),
            old(self).travelled() <= final(self).travelled() <= final(self).length(),
            r.0.x as int == final(self).emitted_x() - old(self).emitted_x(),
            r.0.y as int == final(self).emitted_y() - old(self).emitted_y(),
            r.1 == final(self).is_complete(),
    {
        proof {
            use_type_invariant(&*self);
        }
        let spd: u32 = self.speed;
        let len: u64 = self.length;
        let t1: u64 = self.travelled;
        let dx: i32 = self.displacement.x;
        let dy: i32 = self.displacement.y;
        proof {
            lemma_len_bound(dx as int, dy as int, len as int);
            lemma_component_le_len(dx as int, dy as int, len as int);
        }
        assert(0 <= (dt as int) * (spd as int) <= 4294967295 * 4294967295) by (nonlinear_arith)
            requires
                0 <= dt as int <= 4294967295,
                0 <= spd as int <= 4294967295,
        ;
        let step: u64 = (dt as u64) * (spd as u64);
        let t2: u64 = if step >= len - t1 {
            len
        } else {
            t1 + step
        };
        let ex1: i32 = emitted_component_exec(dx, t1, len);
        let ey1: i32 = emitted_component_exec(dy, t1, len);
        let ex2: i32 = emitted_component_exec(dx, t2, len);
        let ey2: i32 = emitted_component_exec(dy, t2, len);
        proof {
            lemma_emitted_bounds(dx as int, t1 as int, t2 as int, len as int);
            lemma_emitted_bounds(dy as int, t1 as int, t2 as int, len as int);
        }
        self.travelled = t2;
        let effect = (Vec2 { x: ex2 - ex1, y: ey2 - ey1 });
        (effect, t2 == len)
    }
}

/// The live counterpart of an action request, owned by the driver while
/// the action is in flight.
#[derive(Clone, Copy, Debug)]
pub enum ActionState {
    Walk(WalkState),
}

impl ActionState {
    /// The walk this state progresses.
    pub open spec fn walk(self) -> WalkState {
        match self {
            ActionState::Walk(s) => s,
        }
    }

    /// The action has emitted its whole displacement.
    pub open spec fn is_complete(self) -> bool {
        self.walk().is_complete()
    }

    /// `self` is a fresh, unprogressed state for the request `req`.
    pub open spec fn fresh_for(self, req: ActionRequest) -> bool {
        match req {
            ActionRequest::Walk(w) => {
                &&& self.walk().travelled() == 0
                &&& self.walk().speed() == w.speed
                &&& self.walk().displacement() == w.displacement
                &&& is_isqrt(
                    norm_sq(w.displacement.x as int, w.displacement.y as int),
                    self.walk().length() as int,
                )
            },
        }
    }

    /// Construct the fresh in-flight state for a request.
    pub fn start(req: ActionRequest) -> (s: ActionState)
        ensures
            s.fresh_for(req),
    {
        match req {
            ActionRequest::Walk(w) => ActionState::Walk(WalkState::start(w)),
        }
    }

    /// Advance the action by one tick of `dt` milliseconds; see
    /// `WalkState::advance`.
    pub fn advance(&mut self, dt: u32) -> (r: (Vec2, bool))
        ensures
            final(self).walk().speed() == old(self).walk().speed(),
            final(self).walk().displacement() == old(self).walk().displacement(),
            final(self).walk().length() == old(self).walk().length(),
            final(self).walk().travelled() as int == clamped_advance(
                old(self).walk().travelled() as int,
                (dt as int) * (old(self).walk().speed() as int),
                old(self).walk().length() as int,
            ),
            old(self).walk().travelled() <= final(self).walk().travelled()
                <= final(self).walk().length(),
            r.0.x as int == final(self).walk().emitted_x() - old(self).walk().emitted_x(),
            r.0.y as int == final(self).walk().emitted_y() - old(self).walk().emitted_y(),
            r.1 == final(self).is_complete(),
    {
        match *self {
            ActionState::Walk(mut s) => {
                let r = s.advance(dt);
                *self = ActionState::Walk(s);
                r
            },
        }
    }
}

} // verus!
