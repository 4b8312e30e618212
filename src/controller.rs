//! Mouse look and walking input of the player camera.
//!
//! Angles are held in milliarcseconds, so that a half turn and a quarter turn are
//! exact integers: yaw is kept in the half-open interval (-half turn, half turn]
//! and pitch within a configured half-range of at most a quarter turn. Speeds
//! are held in millimetres per second.
use vstd::arithmetic::div_mod::{lemma_fundamental_div_mod, lemma_fundamental_div_mod_converse};
use vstd::prelude::*;

verus! {

/// One full turn, in milliarcseconds.
pub const FULL_TURN: i64 = 1296000000;

/// Half a turn, in milliarcseconds.
pub const HALF_TURN: i64 = 648000000;

/// A quarter turn, in milliarcseconds: looking straight up or straight down.
pub const QUARTER_TURN: i64 = 324000000;

/// The largest accepted magnitude of the mouse sensitivity, in
/// milliarcseconds per mouse count.
pub const MAX_SENSITIVITY: i64 = 1000000000;

/// Default sensitivity: a hundredth of a radian per mouse count, to the
/// nearest milliarcsecond.
pub const DEFAULT_SENSITIVITY: i64 = 2062648;

/// Default walking speed, in millimetres per second.
pub const DEFAULT_WALK_SPEED: u32 = 2000;

/// Default running speed, in millimetres per second.
pub const DEFAULT_RUN_SPEED: u32 = 4000;

/// The motion the mouse reported, in counts.
#[derive(Clone, Copy, Debug, PartialEq, Eq)]
pub struct MouseDelta {
    pub dx: i32,
    pub dy: i32,
}

/// Look and movement settings of the player camera, with the look angles that
/// mouse motion accumulates into.
#[derive(Clone, Copy, Debug, PartialEq, Eq)]
pub struct PlayerControlInput {
    pub sprint: bool,
    pub jump: bool,
    pub crouch: bool,
    /// Up-down look angle, milliarcseconds; positive looks up.
    pub pitch: i64,
    /// Left-right look angle, milliarcseconds.
    pub yaw: i64,
    /// Millimetres per second.
    pub walk_speed: u32,
    /// Millimetres per second.
    pub run_speed: u32,
    /// Milliarcseconds per mouse count; negative inverts the look.
    pub sensitivity: i64,
    /// Pitch stays within [-pitch_limit, pitch_limit].
    pub pitch_limit: i64,
}

/// The angle in (-half turn, half turn] that is congruent to `a` modulo a full turn.
pub open spec fn wrap_angle(a: int) -> int {
    let r = a % (FULL_TURN as int);
    if r > HALF_TURN as int {
        r - FULL_TURN as int
    } else {
        r
    }
}

/// `v` limited to the interval [lo, hi].
pub open spec fn clamp_to(v: int, lo: int, hi: int) -> int {
    if v < lo {
        lo
    } else if v > hi {
        hi
    } else {
        v
    }
}

/// The look state after one mouse motion: moving right turns left-right by
/// the scaled motion, moving down lowers the view; yaw wraps, pitch clamps.
pub open spec fn look_step(c: PlayerControlInput, d: MouseDelta) -> PlayerControlInput {
    PlayerControlInput {
        yaw: wrap_angle(c.yaw - d.dx * c.sensitivity) as i64,
        pitch: clamp_to(c.pitch - d.dy * c.sensitivity, -c.pitch_limit, c.pitch_limit as int) as i64,
        ..c
    }
}

/// The look state after a sequence of mouse motions, applied in order.
pub open spec fn look_run(c: PlayerControlInput, ds: Seq<MouseDelta>) -> PlayerControlInput
    decreases ds.len(),
{
    if ds.len() == 0 {
        c
    } else {
        look_step(look_run(c, ds.drop_last()), ds.last())
    }
}

impl PlayerControlInput {
    /// Settings in range and look angles where mouse look keeps them.
    pub open spec fn wf(&self) -> bool {
        &&& -MAX_SENSITIVITY <= self.sensitivity <= MAX_SENSITIVITY
        &&& 0 <= self.pitch_limit <= QUARTER_TURN
        &&& -HALF_TURN < self.yaw <= HALF_TURN
        &&& -self.pitch_limit <= self.pitch <= self.pitch_limit
    }

    /// Turns the view by one mouse motion.
    pub fn apply_mouse_delta(&mut self, d: MouseDelta)
        requires
            old(self).wf(),
        ensures
            *final(self) == look_step(*old(self), d),
            final(self).wf(),
    {
        proof {
            assert(-2147483648 * MAX_SENSITIVITY <= d.dx * self.sensitivity <= 2147483648
                * MAX_SENSITIVITY) by (nonlinear_arith)
                requires
                    -2147483648 <= d.dx <= 2147483647,
                    -MAX_SENSITIVITY <= self.sensitivity <= MAX_SENSITIVITY,
            ;
            assert(-2147483648 * MAX_SENSITIVITY <= d.dy * self.sensitivity <= 2147483648
                * MAX_SENSITIVITY) by (nonlinear_arith)
                requires
                    -2147483648 <= d.dy <= 2147483647,
                    -MAX_SENSITIVITY <= self.sensitivity <= MAX_SENSITIVITY,
            ;
        }
        let turn: i64 = d.dx as i64 * self.sensitivity;
        let tilt: i64 = d.dy as i64 * self.sensitivity;
        self.yaw = wrap_yaw(self.yaw - turn);
        let limit = self.pitch_limit;
        let p = self.pitch - tilt;
        self.pitch = if p < -limit {
            -limit
        } else if p > limit {
            limit
        } else {
            p
        };
    }

    /// Speed for this tick: running speed while sprint is held, else walking.
    pub fn movement_speed(&self, sprint_held: bool) -> (r: u32)
        ensures
            r == if sprint_held {
                self.run_speed
            } else {
                self.walk_speed
            },
    {
        if sprint_held {
            self.run_speed
        } else {
            self.walk_speed
        }
    }
}

impl Default for PlayerControlInput {
    fn default() -> (r: Self)
        ensures
            r.wf(),
            !r.sprint && !r.jump && !r.crouch,
            r.pitch == 0 && r.yaw == 0,
            r.walk_speed == DEFAULT_WALK_SPEED && r.run_speed == DEFAULT_RUN_SPEED,
            r.sensitivity == DEFAULT_SENSITIVITY && r.pitch_limit == QUARTER_TURN,
    {
        PlayerControlInput {
            sprint: false,
            jump: false,
            crouch: false,
            pitch: 0,
            yaw: 0,
            walk_speed: DEFAULT_WALK_SPEED,
            run_speed: DEFAULT_RUN_SPEED,
            sensitivity: DEFAULT_SENSITIVITY,
            pitch_limit: QUARTER_TURN,
        }
    }
}

/// `v` wrapped into (-half turn, half turn].
fn wrap_yaw(v: i64) -> (r: i64)
    requires
        -2200000000000000000 <= v <= 2200000000000000000,
    ensures
        r == wrap_angle(v as int),
{
    let f = FULL_TURN;
    let m: i64 = if v >= 0 {
        v % f
    } else {
        let p: i64 = (-v) % f;
        proof {
            lemma_fundamental_div_mod(-v, f as int);
            let q = (-v) / (f as int);
            if p == 0 {
                lemma_fundamental_div_mod_converse(v as int, f as int, -q, 0);
            } else {
                lemma_fundamental_div_mod_converse(v as int, f as int, -q - 1, f - p);
            }
        }
        if p == 0 {
            0
        } else {
            f - p
        }
    };
    if m > HALF_TURN {
        m - f
    } else {
        m
    }
}

/// Applies the mouse motions of one tick, in order, to the look angles.
pub fn camera_mouse_movement(input: &mut PlayerControlInput, deltas: &Vec<MouseDelta>)
    requires
        old(input).wf(),
    ensures
        *final(input) == look_run(*old(input), deltas@),
        final(input).wf(),
{
    let mut i: usize = 0;
    while i < deltas.len()
        invariant
            i <= deltas@.len(),
            input.wf(),
            *input == look_run(*old(input), deltas@.take(i as int)),
        decreases deltas@.len() - i,
    {
        input.apply_mouse_delta(deltas[i]);
        proof {
            assert(deltas@.take(i + 1).drop_last() =~= deltas@.take(i as int));
        }
        i = i + 1;
    }
    assert(deltas@.take(i as int) =~= deltas@);
}

/// Mouse look keeps its bounds for every sequence of motions, however large:
/// yaw stays in (-half turn, half turn], pitch within the configured
/// half-range, and the settings are untouched.
pub proof fn lemma_look_bounds(c: PlayerControlInput, ds: Seq<MouseDelta>)
    requires
        c.wf(),
    ensures
        look_run(c, ds).wf(),
        -HALF_TURN < look_run(c, ds).yaw <= HALF_TURN,
        -c.pitch_limit <= look_run(c, ds).pitch <= c.pitch_limit,
        look_run(c, ds).sensitivity == c.sensitivity,
        look_run(c, ds).pitch_limit == c.pitch_limit,
    decreases ds.len(),
{
    if ds.len() > 0 {
        lemma_look_bounds(c, ds.drop_last());
        let before = look_run(c, ds.drop_last());
        let d = ds.last();
        let a = before.yaw - d.dx * before.sensitivity;
        assert(0 <= a % (FULL_TURN as int) < FULL_TURN) by {
            lemma_fundamental_div_mod(a, FULL_TURN as int);
        }
    }
}

/// With the half-range at a quarter turn, as the default settings have it,
/// one mouse motion leaves pitch at the tilted angle clamped to straight up
/// and straight down.
pub proof fn lemma_pitch_clamps_to_quarter_turn(c: PlayerControlInput, d: MouseDelta)
    requires
        c.wf(),
        c.pitch_limit == QUARTER_TURN,
    ensures
        look_step(c, d).pitch == clamp_to(
            c.pitch - d.dy * c.sensitivity,
            -QUARTER_TURN as int,
            QUARTER_TURN as int,
        ),
        -QUARTER_TURN <= look_step(c, d).pitch <= QUARTER_TURN,
{
}

/// Which way the pressed movement keys push the player: +1 forward, -1 back,
/// 0 when neither or both of a pair are held.
#[derive(Clone, Copy, Debug, PartialEq, Eq)]
pub struct MoveIntent {
    pub forward: i8,
    pub right: i8,
}

pub open spec fn axis(plus: bool, minus: bool) -> int {
    (if plus {
        1int
    } else {
        0int
    }) - (if minus {
        1int
    } else {
        0int
    })
}

/// Combines the four movement keys into one direction on each axis.
pub fn movement_intent(forward: bool, back: bool, left: bool, right: bool) -> (r: MoveIntent)
    ensures
        r.forward == axis(forward, back),
        r.right == axis(right, left),
{
    let f: i8 = if forward {
        1
    } else {
        0
    };
    let b: i8 = if back {
        1
    } else {
        0
    };
    let l: i8 = if left {
        1
    } else {
        0
    };
    let rt: i8 = if right {
        1
    } else {
        0
    };
    MoveIntent { forward: f - b, right: rt - l }
}

} // verus!
