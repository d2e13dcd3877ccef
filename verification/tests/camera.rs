use orbit_camera::camera::{
    aggregate_motion, aggregate_scroll, check_bounds, orbit_condition, orbit_update,
    refresh_position, zoom_update, Bound, CameraConfig, CameraState, EPS_TOL,
};
use orbit_camera::fixed::{clamp_fx, fdiv, fmul, SCALE};
use orbit_camera::quat::{isqrt, position_from, quat_mul, up_y, Quat, Vec2, Vec3};
use orbit_camera::trig::{sin_cos, PI_FX};

fn identity() -> Quat {
    Quat { x: 0, y: 0, z: 0, w: SCALE }
}

fn base_config() -> CameraConfig {
    CameraConfig {
        sensitivity: Vec2 { x: SCALE, y: SCALE },
        zoom_sensitivity: SCALE,
        zoom_min: 2_000_000,
        zoom_max: 50_000_000,
        orbit_button_enabled: false,
        orbit_button: 0,
        cursor_lock_active: true,
        bounds: Vec::new(),
    }
}

fn base_state(radius: i64) -> CameraState {
    let mut s = CameraState {
        orientation: identity(),
        position: Vec3 { x: 0, y: 0, z: 0 },
        radius,
    };
    refresh_position(&mut s);
    s
}

fn no_flip_bound() -> Bound {
    Bound {
        normal: Vec3 { x: 0, y: -SCALE, z: 0 },
        point: Vec3 { x: 0, y: 0, z: 0 },
    }
}

#[test]
fn zoom_step_reduces_radius() {
    // radius 10, scroll +1, zoom sensitivity 1: new radius is exactly 9.
    let cfg = base_config();
    let mut s = base_state(10_000_000);
    zoom_update(&mut s, &cfg, SCALE);
    assert_eq!(s.radius, 9_000_000);
}

#[test]
fn zoom_clamps_to_min() {
    // radius 1, scroll +50: the raw radius goes deeply negative and the
    // committed value is exactly the minimum.
    let mut cfg = base_config();
    cfg.zoom_min = 2_000_000;
    cfg.zoom_max = 50_000_000;
    let mut s = CameraState {
        orientation: identity(),
        position: Vec3 { x: 0, y: 0, z: 0 },
        radius: 1_000_000,
    };
    zoom_update(&mut s, &cfg, 50 * SCALE);
    assert_eq!(s.radius, 2_000_000);
}

#[test]
fn zoom_clamps_to_max() {
    let cfg = base_config();
    let mut s = base_state(10_000_000);
    zoom_update(&mut s, &cfg, -2_000 * SCALE);
    assert_eq!(s.radius, 50_000_000);
}

#[test]
fn zoom_zero_scroll_is_noop() {
    let cfg = base_config();
    let mut s = base_state(10_000_000);
    let before = s;
    zoom_update(&mut s, &cfg, 0);
    assert_eq!(s, before);
}

#[test]
fn zoom_radius_stays_within_limits() {
    let cfg = base_config();
    let mut s = base_state(10_000_000);
    let scrolls = [SCALE, -SCALE, 7 * SCALE, -30 * SCALE, 100 * SCALE, -100 * SCALE, 1, -1];
    for &scroll in scrolls.iter() {
        zoom_update(&mut s, &cfg, scroll);
        assert!(cfg.zoom_min <= s.radius && s.radius <= cfg.zoom_max);
    }
}

#[test]
fn orbit_zero_delta_keeps_state() {
    let cfg = base_config();
    let mut s = base_state(10_000_000);
    let before = s;
    orbit_update(&mut s, &cfg, Vec2 { x: 0, y: 0 }, 1280, 720, false);
    assert_eq!(s.orientation, before.orientation);
    assert_eq!(s.radius, before.radius);
    assert_eq!(s.position, before.position);
}

#[test]
fn orbit_button_gate_blocks_update() {
    let mut cfg = base_config();
    cfg.orbit_button_enabled = true;
    let mut s = base_state(10_000_000);
    let before = s;
    orbit_update(&mut s, &cfg, Vec2 { x: 50_000_000, y: 20_000_000 }, 1280, 720, false);
    assert_eq!(s, before);
}

#[test]
fn orbit_button_held_allows_update() {
    let mut cfg = base_config();
    cfg.orbit_button_enabled = true;
    let mut s = base_state(10_000_000);
    orbit_update(&mut s, &cfg, Vec2 { x: 100_000_000, y: 0 }, 1000, 1000, true);
    assert_ne!(s.orientation, identity());
}

#[test]
fn orbit_commit_recomputes_position() {
    let cfg = base_config();
    let mut s = base_state(10_000_000);
    orbit_update(&mut s, &cfg, Vec2 { x: 100_000_000, y: 30_000_000 }, 1000, 1000, false);
    let expected = position_from(&s.orientation, s.radius);
    assert_eq!(s.position, expected);
}

#[test]
fn orbit_yaw_exact_values() {
    // 100 pixels of pointer x across a 1000-pixel window at unit
    // sensitivity is a yaw of -0.1 half turns; every tick of the
    // resulting orientation and position is pinned.
    let cfg = base_config();
    let mut s = base_state(10_000_000);
    orbit_update(&mut s, &cfg, Vec2 { x: 100_000_000, y: 0 }, 1000, 1000, false);
    assert_eq!(s.orientation, Quat { x: 0, y: -156_434, z: 0, w: 987_689 });
    assert_eq!(s.position, Vec3 { x: -3_090_160, y: 0, z: 9_510_580 });
    assert_eq!(s.radius, 10_000_000);
}

#[test]
fn orbit_identity_position_is_along_z() {
    let s = base_state(10_000_000);
    assert_eq!(s.position, Vec3 { x: 0, y: 0, z: 10_000_000 });
}

#[test]
fn orbit_no_flip_rejects_deep_pitch() {
    // A pitch of about 0.6 of a half turn would swing the up-vector
    // below the horizon; with the no-flip bound present the whole
    // candidate is rejected and the orientation stays at identity.
    let mut cfg = base_config();
    cfg.bounds.push(no_flip_bound());
    let mut s = base_state(10_000_000);
    orbit_update(&mut s, &cfg, Vec2 { x: 0, y: 60_000_000 }, 100, 100, false);
    assert_eq!(s.orientation, identity());
    assert_eq!(s.position, Vec3 { x: 0, y: 0, z: 10_000_000 });
}

#[test]
fn orbit_no_flip_allows_small_pitch() {
    let mut cfg = base_config();
    cfg.bounds.push(no_flip_bound());
    let mut s = base_state(10_000_000);
    orbit_update(&mut s, &cfg, Vec2 { x: 0, y: 5_000_000 }, 1000, 1000, false);
    assert_ne!(s.orientation, identity());
    assert!(up_y(&s.orientation) > 0);
}

#[test]
fn no_flip_holds_over_many_steps() {
    let mut cfg = base_config();
    cfg.bounds.push(no_flip_bound());
    let mut s = base_state(10_000_000);
    let deltas = [
        Vec2 { x: 30_000_000, y: 40_000_000 },
        Vec2 { x: -10_000_000, y: 55_000_000 },
        Vec2 { x: 0, y: 80_000_000 },
        Vec2 { x: 25_000_000, y: -35_000_000 },
        Vec2 { x: 0, y: -90_000_000 },
    ];
    for step in 0..60 {
        let delta = deltas[step % deltas.len()];
        orbit_update(&mut s, &cfg, delta, 800, 600, false);
        assert!(up_y(&s.orientation) > 0);
    }
}

#[test]
fn orbit_half_space_rejects_atomically() {
    // A plane looking down the negative z axis through the origin puts
    // the whole orbit sphere outside: every candidate fails and the
    // orientation is left untouched.
    let mut cfg = base_config();
    cfg.bounds.push(Bound {
        normal: Vec3 { x: 0, y: 0, z: -SCALE },
        point: Vec3 { x: 0, y: 0, z: 0 },
    });
    let mut s = base_state(10_000_000);
    orbit_update(&mut s, &cfg, Vec2 { x: 40_000_000, y: 10_000_000 }, 1000, 1000, false);
    assert_eq!(s.orientation, identity());
}

#[test]
fn orbit_half_space_allows_grazing() {
    // A floor plane through the origin: a pure yaw keeps the camera at
    // height zero, which grazes the plane and must still pass.
    let mut cfg = base_config();
    cfg.bounds.push(Bound {
        normal: Vec3 { x: 0, y: SCALE, z: 0 },
        point: Vec3 { x: 0, y: 0, z: 0 },
    });
    let mut s = base_state(10_000_000);
    orbit_update(&mut s, &cfg, Vec2 { x: 100_000_000, y: 0 }, 1000, 1000, false);
    assert_ne!(s.orientation, identity());
}

#[test]
fn check_bounds_orders_and_short_circuits() {
    let q = identity();
    let mut bounds: Vec<Bound> = Vec::new();
    assert!(check_bounds(&bounds, &q, 10_000_000));
    bounds.push(Bound {
        normal: Vec3 { x: 0, y: 0, z: SCALE },
        point: Vec3 { x: 0, y: 0, z: 0 },
    });
    assert!(check_bounds(&bounds, &q, 10_000_000));
    bounds.push(Bound {
        normal: Vec3 { x: 0, y: 0, z: -SCALE },
        point: Vec3 { x: 0, y: 0, z: 0 },
    });
    assert!(!check_bounds(&bounds, &q, 10_000_000));
}

#[test]
fn check_bounds_tolerates_small_margin() {
    // The camera sits exactly on the plane z == radius; pushing the
    // plane out by no more than the tolerance still passes.
    let q = identity();
    let mut bounds: Vec<Bound> = Vec::new();
    bounds.push(Bound {
        normal: Vec3 { x: 0, y: 0, z: SCALE },
        point: Vec3 { x: 0, y: 0, z: 10_000_000 + EPS_TOL },
    });
    assert!(check_bounds(&bounds, &q, 10_000_000));
    bounds.clear();
    bounds.push(Bound {
        normal: Vec3 { x: 0, y: 0, z: SCALE },
        point: Vec3 { x: 0, y: 0, z: 10_000_000 + EPS_TOL + 1 },
    });
    assert!(!check_bounds(&bounds, &q, 10_000_000));
}

#[test]
fn refresh_position_propagates_zoom() {
    let cfg = base_config();
    let mut s = base_state(10_000_000);
    zoom_update(&mut s, &cfg, SCALE);
    // The zoom updater does not touch the position by itself.
    assert_eq!(s.position, Vec3 { x: 0, y: 0, z: 10_000_000 });
    refresh_position(&mut s);
    assert_eq!(s.position, Vec3 { x: 0, y: 0, z: 9_000_000 });
}

#[test]
fn orbit_condition_is_fail_open() {
    assert!(orbit_condition(None));
    let mut cfg = base_config();
    cfg.cursor_lock_active = false;
    assert!(!orbit_condition(Some(&cfg)));
    cfg.cursor_lock_active = true;
    assert!(orbit_condition(Some(&cfg)));
}

#[test]
fn aggregate_motion_sums_events() {
    let mut events: Vec<Vec2> = Vec::new();
    assert_eq!(aggregate_motion(&events), Vec2 { x: 0, y: 0 });
    events.push(Vec2 { x: 1_500_000, y: -2_000_000 });
    events.push(Vec2 { x: 500_000, y: 250_000 });
    events.push(Vec2 { x: -2_000_000, y: 250_000 });
    assert_eq!(aggregate_motion(&events), Vec2 { x: 0, y: -1_500_000 });
}

#[test]
fn aggregate_scroll_sums_events() {
    let mut events: Vec<i64> = Vec::new();
    assert_eq!(aggregate_scroll(&events), 0);
    events.push(SCALE);
    events.push(-3 * SCALE);
    events.push(SCALE / 2);
    assert_eq!(aggregate_scroll(&events), -1_500_000);
}

#[test]
fn sin_cos_of_zero() {
    assert_eq!(sin_cos(0), (0, SCALE));
}

#[test]
fn sin_cos_quarter_turn() {
    // At a quarter turn the sine is within a small truncation error of
    // one and the cosine of zero.
    let (s, c) = sin_cos(PI_FX / 2);
    assert!((s - SCALE).abs() < 10_000);
    assert!(c.abs() < 10_000);
}

#[test]
fn isqrt_brackets() {
    assert_eq!(isqrt(0), 0);
    assert_eq!(isqrt(1), 1);
    assert_eq!(isqrt(2), 1);
    assert_eq!(isqrt(15), 3);
    assert_eq!(isqrt(16), 4);
    assert_eq!(isqrt(1_000_000_000_000), 1_000_000);
}

#[test]
fn quat_mul_identity() {
    let q = Quat { x: 200_000, y: 300_000, z: 0, w: 900_000 };
    assert_eq!(quat_mul(&identity(), &q), q);
    assert_eq!(quat_mul(&q, &identity()), q);
}

#[test]
fn fixed_point_helpers() {
    assert_eq!(fmul(3 * SCALE, 2 * SCALE), 6 * SCALE);
    assert_eq!(fmul(-3 * SCALE, 2 * SCALE), -6 * SCALE);
    assert_eq!(fdiv(7, 2), 3);
    assert_eq!(fdiv(-7, 2), -3);
    assert_eq!(clamp_fx(5, 0, 10), 5);
    assert_eq!(clamp_fx(-5, 0, 10), 0);
    assert_eq!(clamp_fx(15, 0, 10), 10);
}
