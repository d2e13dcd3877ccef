//! Orbit and zoom updaters for a third-person camera.
//!
//! Each simulation step the host aggregates raw pointer-motion and
//! scroll events, then runs the orbit updater (gated on the cursor lock
//! and an optional orbit button) and the zoom updater. The orbit
//! updater composes a yaw-and-pitch candidate rotation, validates it
//! against every configured bound in order, commits it only if all
//! pass, and always recomputes the derived camera position. The zoom
//! updater rescales the orbit radius and clamps it into the configured
//! limits. The spec functions `orbit_step_s` and `zoom_step_s` state
//! both updates exactly.

use vstd::prelude::*;
use crate::fixed::{
    SCALE, tdiv, fmul_s, clamp_s, fmul, fmul_wide, fdiv, clamp_fx, lemma_div_nonneg,
    lemma_tdiv_bounds, lemma_fmul_bounds,
};
use crate::trig::PI_FX;
use crate::quat::{
    Vec2, Vec3, Quat, vec3_wf_bnd, quat_wf, quat_mul_s, quat_mul, sumsq, qnormalize_s, qnormalize,
    up_y_s, up_y, pos_x_s, pos_y_s, pos_z_s, position_from, yaw_quat_s, pitch_quat_s,
    quat_from_yaw, quat_from_pitch,
};

verus! {

/// Largest coordinate, radius or zoom limit the core accepts.
pub const MAX_COORD: i64 = 500_000_000_000;

/// Largest sensitivity magnitude the core accepts.
pub const MAX_SENS: i64 = 100_000_000;

/// Largest aggregated pointer-delta component the core accepts.
pub const MAX_DELTA: i64 = 10_000_000_000;

/// Largest aggregated scroll delta the core accepts.
pub const MAX_SCROLL: i64 = 10_000_000_000;

/// Half-space tolerance: grazing contact up to this far behind a plane
/// still passes.
pub const EPS_TOL: i64 = 1_000;

/// The zoom step factor: one tenth, in fixed point.
pub const TENTH: i64 = 100_000;

/// Most input events accepted per step.
pub const MAX_EVENTS: usize = 1000;

/// Largest single-event delta component accepted.
pub const MAX_EVENT_DELTA: i64 = 10_000_000;

/// An orientation constraint: either a half-space the camera position
/// must stay inside, or the special no-flip constraint.
#[derive(Clone, Copy, Debug, PartialEq, Eq, Structural)]
pub struct Bound {
    pub normal: Vec3,
    pub point: Vec3,
}

/// Immutable per-step camera configuration.
#[derive(Clone, Debug)]
pub struct CameraConfig {
    pub sensitivity: Vec2,
    pub zoom_sensitivity: i64,
    pub zoom_min: i64,
    pub zoom_max: i64,
    pub orbit_button_enabled: bool,
    pub orbit_button: u8,
    pub cursor_lock_active: bool,
    pub bounds: Vec<Bound>,
}

/// Mutable camera state: orientation, derived position, orbit radius.
#[derive(Clone, Copy, Debug, PartialEq, Eq, Structural)]
pub struct CameraState {
    pub orientation: Quat,
    pub position: Vec3,
    pub radius: i64,
}

/// A bound's fields are within the core's coordinate limits.
pub open spec fn bound_wf(b: Bound) -> bool {
    &&& -(SCALE as int) <= b.normal.x <= SCALE as int
    &&& -(SCALE as int) <= b.normal.y <= SCALE as int
    &&& -(SCALE as int) <= b.normal.z <= SCALE as int
    &&& -(MAX_COORD as int) <= b.point.x <= MAX_COORD as int
    &&& -(MAX_COORD as int) <= b.point.y <= MAX_COORD as int
    &&& -(MAX_COORD as int) <= b.point.z <= MAX_COORD as int
}

/// The configuration is within the core's limits.
pub open spec fn config_wf(cfg: CameraConfig) -> bool {
    &&& -(MAX_SENS as int) <= cfg.sensitivity.x <= MAX_SENS as int
    &&& -(MAX_SENS as int) <= cfg.sensitivity.y <= MAX_SENS as int
    &&& -(MAX_SENS as int) <= cfg.zoom_sensitivity <= MAX_SENS as int
    &&& 0 <= cfg.zoom_min <= cfg.zoom_max <= MAX_COORD as int
    &&& forall|i: int| 0 <= i < cfg.bounds@.len() ==> bound_wf(#[trigger] cfg.bounds@[i])
}

/// The state invariant: a well-formed orientation and a radius within
/// the configured zoom limits.
pub open spec fn state_wf(s: CameraState, cfg: CameraConfig) -> bool {
    &&& quat_wf(s.orientation)
    &&& cfg.zoom_min <= s.radius <= cfg.zoom_max
}

/// The position equals the orientation's rotation matrix applied to
/// `(0, 0, radius)`.
pub open spec fn pos_consistent(s: CameraState) -> bool {
    &&& s.position.x == pos_x_s(s.orientation, s.radius as int)
    &&& s.position.y == pos_y_s(s.orientation, s.radius as int)
    &&& s.position.z == pos_z_s(s.orientation, s.radius as int)
}

/// The special no-flip bound: normal pointing straight down from the
/// origin. It constrains the camera's up-vector, not its position.
pub open spec fn is_no_flip(b: Bound) -> bool {
    &&& b.normal.x == 0
    &&& b.normal.y as int == -(SCALE as int)
    &&& b.normal.z == 0
    &&& b.point.x == 0
    &&& b.point.y == 0
    &&& b.point.z == 0
}

/// Signed distance (scaled by the normal's magnitude) of the candidate
/// camera position from the bound's plane.
pub open spec fn half_space_margin(b: Bound, q: Quat, radius: int) -> int {
    fmul_s(b.normal.x as int, pos_x_s(q, radius) - b.point.x as int) + fmul_s(
        b.normal.y as int,
        pos_y_s(q, radius) - b.point.y as int,
    ) + fmul_s(b.normal.z as int, pos_z_s(q, radius) - b.point.z as int)
}

/// A candidate orientation satisfies one bound.
pub open spec fn bound_ok(b: Bound, q: Quat, radius: int) -> bool {
    if is_no_flip(b) {
        up_y_s(q) > 0
    } else {
        half_space_margin(b, q, radius) >= -(EPS_TOL as int)
    }
}

/// A candidate orientation satisfies every bound.
pub open spec fn all_bounds_ok(bounds: Seq<Bound>, q: Quat, radius: int) -> bool {
    forall|i: int| 0 <= i < bounds.len() ==> bound_ok(#[trigger] bounds[i], q, radius)
}

/// The bound list contains the no-flip bound.
pub open spec fn has_no_flip(bounds: Seq<Bound>) -> bool {
    exists|i: int| 0 <= i < bounds.len() && is_no_flip(#[trigger] bounds[i])
}

/// Check the candidate orientation against every bound, in order,
/// stopping at the first failure.
pub fn check_bounds(bounds: &Vec<Bound>, q: &Quat, radius: i64) -> (ok: bool)
    requires
        quat_wf(*q),
        0 <= radius <= MAX_COORD,
        forall|i: int| 0 <= i < bounds@.len() ==> bound_wf(#[trigger] bounds@[i]),
    ensures
        ok == all_bounds_ok(bounds@, *q, radius as int),
{
    let pos = position_from(q, radius);
    let uy = up_y(q);
    let mut i: usize = 0;
    while i < bounds.len()
        invariant
            0 <= i <= bounds@.len(),
            quat_wf(*q),
            0 <= radius <= MAX_COORD,
            forall|j: int| 0 <= j < bounds@.len() ==> bound_wf(#[trigger] bounds@[j]),
            pos.x == pos_x_s(*q, radius as int),
            pos.y == pos_y_s(*q, radius as int),
            pos.z == pos_z_s(*q, radius as int),
            vec3_wf_bnd(pos, 2_000_000_000_000),
            uy == up_y_s(*q),
            forall|j: int| 0 <= j < i ==> bound_ok(#[trigger] bounds@[j], *q, radius as int),
        decreases bounds@.len() - i,
    {
        let b = &bounds[i];
        let no_flip = b.normal.x == 0 && b.normal.y == -SCALE && b.normal.z == 0 && b.point.x == 0
            && b.point.y == 0 && b.point.z == 0;
        let ok_here: bool;
        if no_flip {
            ok_here = uy > 0;
        } else {
            let tx = pos.x - b.point.x;
            let ty = pos.y - b.point.y;
            let tz = pos.z - b.point.z;
            proof {
                lemma_fmul_bounds(b.normal.x as int, 1_000_000, tx as int, 2_500_000_000_000);
                lemma_fmul_bounds(b.normal.y as int, 1_000_000, ty as int, 2_500_000_000_000);
                lemma_fmul_bounds(b.normal.z as int, 1_000_000, tz as int, 2_500_000_000_000);
            }
            let d = fmul(b.normal.x, tx) + fmul(b.normal.y, ty) + fmul(b.normal.z, tz);
            ok_here = d >= -EPS_TOL;
        }
        if !ok_here {
            assert(!bound_ok(bounds@[i as int], *q, radius as int));
            return false;
        }
        i = i + 1;
    }
    true
}

/// The pointer delta converted to an angle: divided by the viewport
/// dimension, scaled by a half turn and by the sensitivity once more.
pub open spec fn angle_s(rot: int, dim: int, sens: int) -> int {
    fmul_s(fmul_s(tdiv(rot, dim), PI_FX as int), sens)
}

/// Convert a sensitivity-scaled pointer delta to an angle.
pub fn angle_from(rot: i64, dim: u32, sens: i64) -> (a: i64)
    requires
        -1_000_000_000_000 <= rot <= 1_000_000_000_000,
        1 <= dim,
        -MAX_SENS <= sens <= MAX_SENS,
    ensures
        a == angle_s(rot as int, dim as int, sens as int),
        -1_000_000_000_000_000 <= a <= 1_000_000_000_000_000,
{
    let t1 = fdiv(rot, dim as i64);
    proof {
        lemma_tdiv_bounds(rot as int, 1_000_000_000_000, dim as int);
        lemma_div_nonneg(1_000_000_000_000, dim as int);
    }
    let t2 = fmul_wide(t1, PI_FX);
    proof {
        lemma_fmul_bounds(t1 as int, 1_000_000_000_000, PI_FX as int, 3_141_593);
    }
    let t3 = fmul_wide(t2, sens);
    proof {
        lemma_fmul_bounds(t2 as int, 3_200_000_000_000, sens as int, 100_000_000);
    }
    t3
}

/// The candidate rotation for a step: yaw about the world vertical
/// axis, the current orientation, then pitch in camera-local space,
/// renormalised; the current orientation when the candidate degenerates
/// or fails a bound.
pub open spec fn orbit_rotation_s(
    s: CameraState,
    cfg: CameraConfig,
    rx: int,
    ry: int,
    w: int,
    h: int,
) -> Quat {
    let dx = angle_s(rx, w, cfg.sensitivity.x as int);
    let dy = angle_s(ry, h, cfg.sensitivity.y as int);
    let raw = quat_mul_s(quat_mul_s(yaw_quat_s(-dx), s.orientation), pitch_quat_s(-dy));
    if sumsq(raw) == 0 {
        s.orientation
    } else {
        let cand = qnormalize_s(raw);
        if all_bounds_ok(cfg.bounds@, cand, s.radius as int) {
            cand
        } else {
            s.orientation
        }
    }
}

/// One orbit-updater step: the exact new camera state.
pub open spec fn orbit_step_s(
    s: CameraState,
    cfg: CameraConfig,
    delta: Vec2,
    w: int,
    h: int,
    button_held: bool,
) -> CameraState {
    if cfg.orbit_button_enabled && !button_held {
        s
    } else {
        let rx = fmul_s(delta.x as int, cfg.sensitivity.x as int);
        let ry = fmul_s(delta.y as int, cfg.sensitivity.y as int);
        let orient = if rx != 0 || ry != 0 {
            orbit_rotation_s(s, cfg, rx, ry, w, h)
        } else {
            s.orientation
        };
        CameraState {
            orientation: orient,
            position: Vec3 {
                x: pos_x_s(orient, s.radius as int) as i64,
                y: pos_y_s(orient, s.radius as int) as i64,
                z: pos_z_s(orient, s.radius as int) as i64,
            },
            radius: s.radius,
        }
    }
}

/// Run the orbit updater for one step.
///
/// When the orbit button gate is open, this scales the aggregated
/// pointer delta by the sensitivity, converts it to yaw and pitch
/// angles, composes the candidate orientation, commits it only if
/// every configured bound accepts it (atomically: a failure leaves the
/// orientation untouched), and always recomputes the derived position.
pub fn orbit_update(
    s: &mut CameraState,
    cfg: &CameraConfig,
    delta: Vec2,
    width: u32,
    height: u32,
    button_held: bool,
)
    requires
        state_wf(*old(s), *cfg),
        config_wf(*cfg),
        1 <= width,
        1 <= height,
        -MAX_DELTA <= delta.x <= MAX_DELTA,
        -MAX_DELTA <= delta.y <= MAX_DELTA,
    ensures
        *final(s) == orbit_step_s(*old(s), *cfg, delta, width as int, height as int, button_held),
        state_wf(*final(s), *cfg),
        final(s).radius == old(s).radius,
        cfg.orbit_button_enabled && !button_held ==> *final(s) == *old(s),
        !(cfg.orbit_button_enabled && !button_held) ==> pos_consistent(*final(s)),
        has_no_flip(cfg.bounds@) && up_y_s(old(s).orientation) > 0 ==> up_y_s(
            final(s).orientation,
        ) > 0,
        final(s).orientation == old(s).orientation || all_bounds_ok(
            cfg.bounds@,
            final(s).orientation,
            old(s).radius as int,
        ),
{
    if cfg.orbit_button_enabled && !button_held {
        return ;
    }
    let rx = fmul(delta.x, cfg.sensitivity.x);
    let ry = fmul(delta.y, cfg.sensitivity.y);
    proof {
        lemma_fmul_bounds(delta.x as int, 10_000_000_000, cfg.sensitivity.x as int, 100_000_000);
        lemma_fmul_bounds(delta.y as int, 10_000_000_000, cfg.sensitivity.y as int, 100_000_000);
    }
    if rx != 0 || ry != 0 {
        let dx = angle_from(rx, width, cfg.sensitivity.x);
        let dy = angle_from(ry, height, cfg.sensitivity.y);
        let yawq = quat_from_yaw(-dx);
        let pitchq = quat_from_pitch(-dy);
        let c1 = quat_mul(&yawq, &s.orientation);
        let c2 = quat_mul(&c1, &pitchq);
        let ghost raw = quat_mul_s(quat_mul_s(yaw_quat_s(-(dx as int)), old(s).orientation),
            pitch_quat_s(-(dy as int)));
        assert(c2 == raw);
        match qnormalize(&c2) {
            Option::Some(cand) => {
                if check_bounds(&cfg.bounds, &cand, s.radius) {
                    s.orientation = cand;
                }
            },
            Option::None => {},
        }
    }
    let p = position_from(&s.orientation, s.radius);
    s.position = p;
    proof {
        if has_no_flip(cfg.bounds@) && up_y_s(old(s).orientation) > 0 && s.orientation != old(
            s,
        ).orientation {
            let i = choose|i: int|
                0 <= i < cfg.bounds@.len() && is_no_flip(#[trigger] cfg.bounds@[i]);
            assert(bound_ok(cfg.bounds@[i], s.orientation, s.radius as int));
        }
    }
}

/// One zoom-updater step: the exact new camera state. A nonzero scroll
/// rescales the radius by a tenth of itself per scroll unit, times the
/// zoom sensitivity, clamped into the configured limits.
pub open spec fn zoom_step_s(s: CameraState, cfg: CameraConfig, scroll: int) -> CameraState {
    if scroll == 0 {
        s
    } else {
        let t1 = fmul_s(scroll, s.radius as int);
        let t2 = fmul_s(t1, TENTH as int);
        let t3 = fmul_s(t2, cfg.zoom_sensitivity as int);
        CameraState {
            orientation: s.orientation,
            position: s.position,
            radius: clamp_s(
                s.radius as int - t3,
                cfg.zoom_min as int,
                cfg.zoom_max as int,
            ) as i64,
        }
    }
}

/// Run the zoom updater for one step.
///
/// It does not recompute the derived position; the orbit updater's
/// final recomputation, or `refresh_position`, propagates the new
/// radius into the position.
pub fn zoom_update(s: &mut CameraState, cfg: &CameraConfig, scroll: i64)
    requires
        state_wf(*old(s), *cfg),
        config_wf(*cfg),
        -MAX_SCROLL <= scroll <= MAX_SCROLL,
    ensures
        *final(s) == zoom_step_s(*old(s), *cfg, scroll as int),
        state_wf(*final(s), *cfg),
        cfg.zoom_min <= final(s).radius <= cfg.zoom_max,
        final(s).orientation == old(s).orientation,
        final(s).position == old(s).position,
{
    if scroll != 0 {
        let t1 = fmul(scroll, s.radius);
        proof {
            lemma_fmul_bounds(scroll as int, 10_000_000_000, s.radius as int, 500_000_000_000);
        }
        let t2 = fmul_wide(t1, TENTH);
        proof {
            lemma_fmul_bounds(t1 as int, 5_000_000_000_000_000, TENTH as int, 100_000);
        }
        let t3 = fmul_wide(t2, cfg.zoom_sensitivity);
        proof {
            lemma_fmul_bounds(t2 as int, 500_000_000_000_000, cfg.zoom_sensitivity as int,
                100_000_000);
        }
        let new_radius = clamp_fx(s.radius - t3, cfg.zoom_min, cfg.zoom_max);
        s.radius = new_radius;
    }
}

/// Recompute the derived position from the current orientation and
/// radius, leaving both unchanged.
pub fn refresh_position(s: &mut CameraState)
    requires
        quat_wf(old(s).orientation),
        0 <= old(s).radius <= MAX_COORD,
    ensures
        final(s).orientation == old(s).orientation,
        final(s).radius == old(s).radius,
        pos_consistent(*final(s)),
{
    let p = position_from(&s.orientation, s.radius);
    s.position = p;
}

/// Whether the orbit updater should run this step: the cursor lock
/// gate, open when no camera is configured.
pub fn orbit_condition(cam: Option<&CameraConfig>) -> (run: bool)
    ensures
        run == match cam {
            Option::Some(cfg) => cfg.cursor_lock_active,
            Option::None => true,
        },
{
    match cam {
        Option::Some(cfg) => cfg.cursor_lock_active,
        Option::None => true,
    }
}

/// Sum of the x components of a motion-event sequence.
pub open spec fn sum_x(s: Seq<Vec2>) -> int
    decreases s.len(),
{
    if s.len() == 0 {
        0
    } else {
        sum_x(s.drop_last()) + s.last().x
    }
}

/// Sum of the y components of a motion-event sequence.
pub open spec fn sum_y(s: Seq<Vec2>) -> int
    decreases s.len(),
{
    if s.len() == 0 {
        0
    } else {
        sum_y(s.drop_last()) + s.last().y
    }
}

/// Sum of a scroll-event sequence.
pub open spec fn sum_scroll(s: Seq<i64>) -> int
    decreases s.len(),
{
    if s.len() == 0 {
        0
    } else {
        sum_scroll(s.drop_last()) + s.last()
    }
}

/// Aggregate the step's pointer-motion events into one delta.
pub fn aggregate_motion(events: &Vec<Vec2>) -> (total: Vec2)
    requires
        events@.len() <= MAX_EVENTS,
        forall|i: int|
            0 <= i < events@.len() ==> -MAX_EVENT_DELTA <= (#[trigger] events@[i]).x
                <= MAX_EVENT_DELTA && -MAX_EVENT_DELTA <= events@[i].y <= MAX_EVENT_DELTA,
    ensures
        total.x == sum_x(events@),
        total.y == sum_y(events@),
        -MAX_DELTA <= total.x <= MAX_DELTA,
        -MAX_DELTA <= total.y <= MAX_DELTA,
{
    let mut tx: i64 = 0;
    let mut ty: i64 = 0;
    let mut i: usize = 0;
    while i < events.len()
        invariant
            0 <= i <= events@.len(),
            events@.len() <= MAX_EVENTS,
            forall|j: int|
                0 <= j < events@.len() ==> -MAX_EVENT_DELTA <= (#[trigger] events@[j]).x
                    <= MAX_EVENT_DELTA && -MAX_EVENT_DELTA <= events@[j].y <= MAX_EVENT_DELTA,
            tx == sum_x(events@.take(i as int)),
            ty == sum_y(events@.take(i as int)),
            -10_000_000 * (i as int) <= tx <= 10_000_000 * (i as int),
            -10_000_000 * (i as int) <= ty <= 10_000_000 * (i as int),
        decreases events@.len() - i,
    {
        proof {
            assert(events@.take(i as int + 1).drop_last() =~= events@.take(i as int));
            assert(events@.take(i as int + 1).last() == events@[i as int]);
        }
        let e = &events[i];
        tx = tx + e.x;
        ty = ty + e.y;
        i = i + 1;
    }
    proof {
        assert(events@.take(events@.len() as int) =~= events@);
    }
    Vec2 { x: tx, y: ty }
}

/// Aggregate the step's scroll events into one delta.
pub fn aggregate_scroll(events: &Vec<i64>) -> (total: i64)
    requires
        events@.len() <= MAX_EVENTS,
        forall|i: int|
            0 <= i < events@.len() ==> -MAX_EVENT_DELTA <= #[trigger] events@[i]
                <= MAX_EVENT_DELTA,
    ensures
        total == sum_scroll(events@),
        -MAX_SCROLL <= total <= MAX_SCROLL,
{
    let mut t: i64 = 0;
    let mut i: usize = 0;
    while i < events.len()
        invariant
            0 <= i <= events@.len(),
            events@.len() <= MAX_EVENTS,
            forall|j: int|
                0 <= j < events@.len() ==> -MAX_EVENT_DELTA <= #[trigger] events@[j]
                    <= MAX_EVENT_DELTA,
            t == sum_scroll(events@.take(i as int)),
            -10_000_000 * (i as int) <= t <= 10_000_000 * (i as int),
        decreases events@.len() - i,
    {
        proof {
            assert(events@.take(i as int + 1).drop_last() =~= events@.take(i as int));
            assert(events@.take(i as int + 1).last() == events@[i as int]);
        }
        let e = events[i];
        t = t + e;
        i = i + 1;
    }
    proof {
        assert(events@.take(events@.len() as int) =~= events@);
    }
    t
}

} // verus!
