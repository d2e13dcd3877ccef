//! Laws of the camera core, proved over the step spec functions.

use vstd::prelude::*;
use crate::fixed::fmul_s;
use crate::quat::{
    Vec2, quat_wf, quat_mul_s, sumsq, up_y_s, yaw_quat_s, pitch_quat_s, lemma_quat_mul_s_bnd,
    lemma_qnormalize_wf, lemma_pos_bounds,
};
use crate::camera::{
    CameraConfig, CameraState, config_wf, state_wf, pos_consistent, is_no_flip, bound_ok,
    all_bounds_ok, has_no_flip, angle_s, orbit_rotation_s, orbit_step_s, zoom_step_s,
};

verus! {

/// The orientation an orbit step leaves behind is well formed.
pub proof fn lemma_orbit_rotation_wf(
    s: CameraState,
    cfg: CameraConfig,
    rx: int,
    ry: int,
    w: int,
    h: int,
)
    requires
        state_wf(s, cfg),
        config_wf(cfg),
    ensures
        quat_wf(orbit_rotation_s(s, cfg, rx, ry, w, h)),
{
    let dx = angle_s(rx, w, cfg.sensitivity.x as int);
    let dy = angle_s(ry, h, cfg.sensitivity.y as int);
    let yaw = yaw_quat_s(-dx);
    let pitch = pitch_quat_s(-dy);
    let c1 = quat_mul_s(yaw, s.orientation);
    let raw = quat_mul_s(c1, pitch);
    lemma_quat_mul_s_bnd(yaw, s.orientation, 1_000_000);
    lemma_quat_mul_s_bnd(c1, pitch, 4_000_000);
    if sumsq(raw) != 0 {
        lemma_qnormalize_wf(raw);
    }
}

/// An orbit step preserves the state invariant and never touches the
/// radius.
pub proof fn lemma_orbit_step_wf(
    s: CameraState,
    cfg: CameraConfig,
    delta: Vec2,
    w: int,
    h: int,
    held: bool,
)
    requires
        state_wf(s, cfg),
        config_wf(cfg),
    ensures
        state_wf(orbit_step_s(s, cfg, delta, w, h, held), cfg),
        orbit_step_s(s, cfg, delta, w, h, held).radius == s.radius,
{
    let rx = fmul_s(delta.x as int, cfg.sensitivity.x as int);
    let ry = fmul_s(delta.y as int, cfg.sensitivity.y as int);
    lemma_orbit_rotation_wf(s, cfg, rx, ry, w, h);
}

/// Position consistency: after any step in which the orbit updater
/// ran, the position is exactly the orientation's rotation matrix
/// applied to `(0, 0, radius)`.
pub proof fn lemma_orbit_position_consistent(
    s: CameraState,
    cfg: CameraConfig,
    delta: Vec2,
    w: int,
    h: int,
    held: bool,
)
    requires
        state_wf(s, cfg),
        config_wf(cfg),
        !(cfg.orbit_button_enabled && !held),
    ensures
        pos_consistent(orbit_step_s(s, cfg, delta, w, h, held)),
{
    let rx = fmul_s(delta.x as int, cfg.sensitivity.x as int);
    let ry = fmul_s(delta.y as int, cfg.sensitivity.y as int);
    let orient = orbit_step_s(s, cfg, delta, w, h, held).orientation;
    if rx != 0 || ry != 0 {
        lemma_orbit_rotation_wf(s, cfg, rx, ry, w, h);
    }
    lemma_pos_bounds(orient, s.radius as int);
}

/// No-flip invariant, one step: with the no-flip bound configured, an
/// orbit step keeps the camera's up-vector strictly above the horizon.
pub proof fn lemma_no_flip_preserved(
    s: CameraState,
    cfg: CameraConfig,
    delta: Vec2,
    w: int,
    h: int,
    held: bool,
)
    requires
        state_wf(s, cfg),
        config_wf(cfg),
        has_no_flip(cfg.bounds@),
        up_y_s(s.orientation) > 0,
    ensures
        up_y_s(orbit_step_s(s, cfg, delta, w, h, held).orientation) > 0,
{
    let next = orbit_step_s(s, cfg, delta, w, h, held);
    if next.orientation != s.orientation {
        let i = choose|i: int|
            0 <= i < cfg.bounds@.len() && is_no_flip(#[trigger] cfg.bounds@[i]);
        assert(all_bounds_ok(cfg.bounds@, next.orientation, s.radius as int));
        assert(bound_ok(cfg.bounds@[i], next.orientation, s.radius as int));
    }
}

/// A sequence of orbit-step inputs: each entry is a pointer delta and
/// the button-held flag for that step.
pub open spec fn orbit_steps_s(
    s: CameraState,
    cfg: CameraConfig,
    inputs: Seq<(Vec2, bool)>,
    w: int,
    h: int,
) -> CameraState
    decreases inputs.len(),
{
    if inputs.len() == 0 {
        s
    } else {
        orbit_step_s(
            orbit_steps_s(s, cfg, inputs.drop_last(), w, h),
            cfg,
            inputs.last().0,
            w,
            h,
            inputs.last().1,
        )
    }
}

/// Any sequence of orbit steps preserves the state invariant.
pub proof fn lemma_orbit_steps_wf(
    s: CameraState,
    cfg: CameraConfig,
    inputs: Seq<(Vec2, bool)>,
    w: int,
    h: int,
)
    requires
        state_wf(s, cfg),
        config_wf(cfg),
    ensures
        state_wf(orbit_steps_s(s, cfg, inputs, w, h), cfg),
        orbit_steps_s(s, cfg, inputs, w, h).radius == s.radius,
    decreases inputs.len(),
{
    if inputs.len() > 0 {
        lemma_orbit_steps_wf(s, cfg, inputs.drop_last(), w, h);
        lemma_orbit_step_wf(
            orbit_steps_s(s, cfg, inputs.drop_last(), w, h),
            cfg,
            inputs.last().0,
            w,
            h,
            inputs.last().1,
        );
    }
}

/// No-flip invariant: with the no-flip bound configured, no sequence
/// of pointer deltas ever commits an orientation whose up-vector
/// points at or below the horizon.
pub proof fn lemma_no_flip_invariant(
    s: CameraState,
    cfg: CameraConfig,
    inputs: Seq<(Vec2, bool)>,
    w: int,
    h: int,
)
    requires
        state_wf(s, cfg),
        config_wf(cfg),
        has_no_flip(cfg.bounds@),
        up_y_s(s.orientation) > 0,
    ensures
        up_y_s(orbit_steps_s(s, cfg, inputs, w, h).orientation) > 0,
    decreases inputs.len(),
{
    if inputs.len() > 0 {
        lemma_no_flip_invariant(s, cfg, inputs.drop_last(), w, h);
        lemma_orbit_steps_wf(s, cfg, inputs.drop_last(), w, h);
        lemma_no_flip_preserved(
            orbit_steps_s(s, cfg, inputs.drop_last(), w, h),
            cfg,
            inputs.last().0,
            w,
            h,
            inputs.last().1,
        );
    }
}

/// Idempotence on zero input: a step fed a zero pointer delta and a
/// zero scroll delta leaves the whole camera state unchanged.
pub proof fn lemma_zero_input_idempotent(
    s: CameraState,
    cfg: CameraConfig,
    w: int,
    h: int,
    held: bool,
)
    requires
        state_wf(s, cfg),
        config_wf(cfg),
        pos_consistent(s),
    ensures
        orbit_step_s(s, cfg, Vec2 { x: 0, y: 0 }, w, h, held) == s,
        zoom_step_s(s, cfg, 0) == s,
{
    if !(cfg.orbit_button_enabled && !held) {
        assert(fmul_s(0, cfg.sensitivity.x as int) == 0);
        assert(fmul_s(0, cfg.sensitivity.y as int) == 0);
        lemma_pos_bounds(s.orientation, s.radius as int);
        let next = orbit_step_s(s, cfg, Vec2 { x: 0, y: 0 }, w, h, held);
        assert(next.position == s.position);
    }
}

/// Atomic rejection: an orbit step either leaves the orientation
/// untouched or commits an orientation that every bound accepts.
pub proof fn lemma_atomic_rejection(
    s: CameraState,
    cfg: CameraConfig,
    delta: Vec2,
    w: int,
    h: int,
    held: bool,
)
    requires
        state_wf(s, cfg),
        config_wf(cfg),
    ensures
        orbit_step_s(s, cfg, delta, w, h, held).orientation == s.orientation || all_bounds_ok(
            cfg.bounds@,
            orbit_step_s(s, cfg, delta, w, h, held).orientation,
            s.radius as int,
        ),
{
}

/// Radius clamp: after any zoom step the radius lies within the
/// configured zoom limits.
pub proof fn lemma_zoom_radius_in_limits(s: CameraState, cfg: CameraConfig, scroll: int)
    requires
        state_wf(s, cfg),
        config_wf(cfg),
    ensures
        cfg.zoom_min <= zoom_step_s(s, cfg, scroll).radius <= cfg.zoom_max,
        state_wf(zoom_step_s(s, cfg, scroll), cfg),
{
}

} // verus!
