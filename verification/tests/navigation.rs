//! The dead-reckoning model held against real-valued trigonometry, and the
//! documented pose scenarios.

use dji_tello_lib::nav::{
    apply_rotation, atan2_to_degrees, cos_of_heading, move_offsets, rotation_step, sin_of_heading,
    Direction,
};
use dji_tello_lib::tello::Tello;

/// Difference between two angles in degrees, reduced to `[0, 180]`.
fn angle_gap(a: f64, b: f64) -> f64 {
    let mut d = (a - b).abs() % 360.0;
    if d > 180.0 {
        d = 360.0 - d;
    }
    d
}

#[test]
fn scaled_sine_and_cosine_track_the_real_functions() {
    for h in 0u16..360 {
        let rad = (h as f64).to_radians();
        let s = sin_of_heading(h) as f64;
        let c = cos_of_heading(h) as f64;
        assert!(
            (s - rad.sin() * 10000.0).abs() <= 0.51,
            "sin table off at {} degrees: {}",
            h,
            s
        );
        assert!(
            (c - rad.cos() * 10000.0).abs() <= 0.51,
            "cos table off at {} degrees: {}",
            h,
            c
        );
    }
}

#[test]
fn bearings_round_to_the_nearest_degree() {
    let samples: [(i64, i64); 16] = [
        (1000, 0),
        (0, 1000),
        (-1000, 0),
        (0, -1000),
        (1000, 1000),
        (-737, 411),
        (123456, -654321),
        (-5, -8),
        (1, 1000000),
        (-99999999, 1),
        (317, 204),
        (-317, -204),
        (204, -317),
        (86602540, 50000000),
        (-86602540, 50000000),
        (7, 24),
    ];
    for (dx, dy) in samples {
        let got = atan2_to_degrees(dy, dx) as f64;
        let truth = ((dy as f64).atan2(dx as f64).to_degrees() + 360.0) % 360.0;
        assert!(
            angle_gap(got, truth) <= 0.501,
            "bearing for ({}, {}) was {}, truth {}",
            dx,
            dy,
            got,
            truth
        );
    }
}

#[test]
fn planar_moves_travel_the_commanded_distance() {
    // Every planar direction, a spread of headings and distances: the
    // Euclidean displacement must match the commanded distance to within
    // the fixed-point tolerance (well under a millimeter per meter).
    let dirs = [Direction::Forward, Direction::Back, Direction::Left, Direction::Right];
    for &dir in &dirs {
        for h in [0u16, 1, 29, 45, 90, 135, 179, 180, 222, 270, 315, 359] {
            for d in [1i32, 2, 10, 100, 250, 500] {
                let (dx, dy, dz) = move_offsets(h, dir, d);
                assert_eq!(dz, 0);
                let d_mm = (d * 10) as f64;
                let disp = ((dx * dx + dy * dy) as f64).sqrt();
                assert!(
                    (disp - d_mm).abs() <= 3.0,
                    "move {:?} at {} deg by {} cm displaced {} mm",
                    dir,
                    h,
                    d,
                    disp
                );
            }
        }
    }
}

#[test]
fn planar_moves_travel_in_the_heading_direction() {
    for h in [0u16, 33, 90, 200, 359] {
        let (dx, dy, _) = move_offsets(h, Direction::Forward, 400);
        // Heading 0 is +Y and headings grow clockwise toward +X.
        let truth = (h as f64).to_radians();
        let got = (dx as f64).atan2(dy as f64);
        assert!(angle_gap(got.to_degrees(), truth.to_degrees()) <= 0.1);
    }
}

#[test]
fn vertical_moves_change_only_altitude() {
    let (dx, dy, dz) = move_offsets(123, Direction::Up, 70);
    assert_eq!((dx, dy, dz), (0, 0, 700));
    let (dx, dy, dz) = move_offsets(321, Direction::Down, 70);
    assert_eq!((dx, dy, dz), (0, 0, -700));
}

#[test]
fn rotation_stays_normalized_and_round_trips() {
    for h in [0u16, 1, 90, 181, 359] {
        for r in [1i32, 45, 90, 180, 270, 360] {
            let cw = apply_rotation(h, r, true);
            assert!(cw < 360);
            assert_eq!(apply_rotation(cw, r, false), h);
            let ccw = apply_rotation(h, r, false);
            assert!(ccw < 360);
            assert_eq!(apply_rotation(ccw, r, true), h);
        }
    }
}

#[test]
fn facing_and_facing_away_differ_by_half_a_turn() {
    let poses: [(i64, i64, u16); 5] =
        [(0, 0, 0), (1000, 2000, 45), (-500, 800, 300), (250, -99, 179), (-4, -4, 90)];
    for (x, y, h) in poses {
        let mut tello = Tello::new();
        tello.set_position(x, y, 0);
        if h > 0 {
            tello.confirm_rotate(true, h as i32, "ok").unwrap();
        }
        let toward = tello.point_camera_to_center(5000, -7000);
        let away = tello.point_camera_from_center(5000, -7000);
        let t = toward.map_or(0i32, |s| if s.clockwise { s.degrees } else { -s.degrees });
        let a = away.map_or(0i32, |s| if s.clockwise { s.degrees } else { -s.degrees });
        let gap = (t - a).rem_euclid(360);
        assert_eq!(gap, 180, "toward {} and away {} at pose ({}, {}, {})", t, a, x, y, h);
    }
}

#[test]
fn pose_scenario_move_rotate_and_aim() {
    // Start at the origin facing heading 0 (the +Y axis).
    let mut tello = Tello::new();

    // Move forward one meter: the pose becomes (0, 1.0, 0) in meters.
    tello.confirm_move(Direction::Forward, 100, "ok").unwrap();
    let p = tello.get_position();
    assert_eq!((p.x, p.y, p.z), (0, 1000, 0));

    // A quarter turn clockwise.
    tello.confirm_rotate(true, 90, "ok").unwrap();
    assert_eq!(tello.get_heading(), 90);

    // Aiming at the origin needs a non-zero rotation of at most 180
    // degrees, and afterwards the heading points at the origin to within a
    // degree.
    let step = tello.point_camera_to_center(0, 0).expect("not yet aligned");
    assert!(step.degrees > 0 && step.degrees <= 180);
    tello.confirm_rotate(step.clockwise, step.degrees, "ok").unwrap();

    let p = tello.get_position();
    let dx = (0 - p.x) as f64;
    let dy = (0 - p.y) as f64;
    let true_target = (dy.atan2(dx).to_degrees() + 90.0 + 360.0) % 360.0;
    assert!(angle_gap(tello.get_heading() as f64, true_target) < 1.0);
    assert!(tello.point_camera_to_center(0, 0).is_none());
}

#[test]
fn aiming_lands_within_a_degree_of_the_true_bearing() {
    let targets: [(i64, i64); 6] =
        [(10000, 0), (-3000, 4000), (777, -777), (-1, -100000), (99999, 99998), (2, 3)];
    for (cx, cy) in targets {
        let mut tello = Tello::new();
        tello.set_position(-1500, 2500, 0);
        tello.confirm_rotate(true, 123, "ok").unwrap();
        if let Some(step) = tello.point_camera_to_center(cx, cy) {
            tello.confirm_rotate(step.clockwise, step.degrees, "ok").unwrap();
        }
        let p = tello.get_position();
        let true_target =
            (((cy - p.y) as f64).atan2((cx - p.x) as f64).to_degrees() + 90.0 + 360.0) % 360.0;
        assert!(
            angle_gap(tello.get_heading() as f64, true_target) <= 1.0,
            "aimed {} instead of {} for target ({}, {})",
            tello.get_heading(),
            true_target,
            cx,
            cy
        );
    }
}

#[test]
fn aiming_at_the_current_position_is_well_defined() {
    // A target that coincides with the pose degenerates to a bearing of 0
    // by convention, so some definite rotation (or none) comes back rather
    // than an error.
    let mut tello = Tello::new();
    tello.set_position(2000, -3000, 0);
    let step = tello
        .point_camera_to_center(2000, -3000)
        .expect("heading 0 is a quarter turn off the degenerate target heading");
    assert!(step.clockwise);
    assert_eq!(step.degrees, 90);

    // Already aligned with the degenerate target heading: nothing to do.
    tello.confirm_rotate(true, 90, "ok").unwrap();
    assert!(tello.point_camera_to_center(2000, -3000).is_none());
}

#[test]
fn rotation_step_picks_the_short_way() {
    assert_eq!(rotation_step(0, 90), 90);
    assert_eq!(rotation_step(0, 270), -90);
    assert_eq!(rotation_step(350, 10), 20);
    assert_eq!(rotation_step(10, 350), -20);
    assert_eq!(rotation_step(0, 180), 180);
    assert_eq!(rotation_step(77, 77), 0);
}

#[test]
fn update_position_after_movement_matches_direction_tokens() {
    let mut tello = Tello::new();
    tello.update_position_after_movement("up", 120);
    let p = tello.get_position();
    assert_eq!((p.x, p.y, p.z), (0, 0, 1200));

    tello.update_position_after_movement("forward", 50);
    let p = tello.get_position();
    assert_eq!((p.x, p.y, p.z), (0, 500, 1200));

    // An unknown token leaves the pose untouched.
    tello.update_position_after_movement("sideways", 50);
    let p = tello.get_position();
    assert_eq!((p.x, p.y, p.z), (0, 500, 1200));
}
