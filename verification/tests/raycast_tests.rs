use doomie::fixed::{FP_ONE, HALF_PI_FP, PI_FP, TAU_FP, sin_fp, cos_fp, atan2_fp, wrap_angle, isqrt};
use doomie::map::map::{Grid, MapObject};
use doomie::map::pos::{Pos, MapPos};
use doomie::map::raycasting::{calculate_horizontal_intersection, calculate_vertical_intersection,
    select_closest_intersection, correct_fishbowl_effect, calculate_projection_height};
use doomie::map::traverse::traverse_grid;

#[test]
fn east_ray_strikes_the_shield_wall() {
    let grid = Grid::standard();
    // Player at (1.5, 5.0), facing exactly east.
    let pos = Pos::new(98304, 327680);
    let map_pos = pos.map();
    let sin_a = sin_fp(0);
    let cos_a = cos_fp(0);
    assert_eq!(sin_a, 0);
    assert_eq!(cos_a, FP_ONE);
    let v = calculate_vertical_intersection(&grid, &pos, &map_pos, sin_a, cos_a);
    // One and a half cells east stands the shield pillar at (3, 5).
    assert_eq!(v.0, 98304);
    assert_eq!(v.2, Some(MapObject::S));
    let h = calculate_horizontal_intersection(&grid, &pos, &map_pos, sin_a, cos_a);
    // The horizontal branch degenerates and runs off the map.
    assert_eq!(h.2, None);
    let (depth, offset, texture) = select_closest_intersection(
        h.0, h.1, h.2, v.0, v.1, v.2, sin_a, cos_a,
    );
    assert_eq!(depth, 98304);
    assert_eq!(offset, 0);
    assert_eq!(texture, Some(MapObject::S));
}

#[test]
fn selection_takes_the_minimum_depth() {
    // Horizontal branch nearer: its depth, offset and texture win.
    let r = select_closest_intersection(
        4 * FP_ONE,
        3,
        Some(MapObject::W),
        9 * FP_ONE,
        7,
        Some(MapObject::B),
        1,
        1,
    );
    assert_eq!(r.0, 4 * FP_ONE);
    assert_eq!(r.1, FP_ONE - 3);
    assert_eq!(r.2, Some(MapObject::W));
    // Vertical branch nearer.
    let r2 = select_closest_intersection(
        9 * FP_ONE,
        3,
        Some(MapObject::W),
        4 * FP_ONE,
        7,
        Some(MapObject::B),
        1,
        1,
    );
    assert_eq!(r2.0, 4 * FP_ONE);
    assert_eq!(r2.1, 7);
    assert_eq!(r2.2, Some(MapObject::B));
}

#[test]
fn selection_tie_favors_the_vertical_face() {
    let r = select_closest_intersection(
        5 * FP_ONE,
        3,
        Some(MapObject::W),
        5 * FP_ONE,
        7,
        Some(MapObject::B),
        1,
        1,
    );
    assert_eq!(r.0, 5 * FP_ONE);
    assert_eq!(r.2, Some(MapObject::B));
}

#[test]
fn fishbowl_correction_is_identity_along_the_view_axis() {
    let depth = 12345678;
    assert_eq!(correct_fishbowl_effect(depth, 51472, 51472), depth);
}

#[test]
fn projection_height_exact_value_and_monotone() {
    // Screen distance 800 pixels, depth one cell: height is the screen
    // distance scaled by FP_ONE / (depth + 1).
    let sd = 800 * FP_ONE;
    assert_eq!(calculate_projection_height(sd, FP_ONE - 1), 800 * FP_ONE);
    let mut prev = calculate_projection_height(sd, 0);
    for k in 1..200 {
        let h = calculate_projection_height(sd, k * 1000);
        assert!(h <= prev);
        assert!(h >= 0);
        prev = h;
    }
}

#[test]
fn trace_starting_inside_a_wall_stops_at_once() {
    let grid = Grid::standard();
    let r = traverse_grid(&grid, Pos::new(0, 0), Pos::new(FP_ONE, 0), 77, 5);
    assert_eq!(r.0, 77);
    assert_eq!(r.2, Some(MapObject::W));
}

#[test]
fn trace_off_the_map_exhausts_without_a_hit() {
    let grid = Grid::standard();
    let r = traverse_grid(
        &grid,
        Pos::new(20 * FP_ONE, 20 * FP_ONE),
        Pos::new(-FP_ONE, 0),
        0,
        FP_ONE,
    );
    assert_eq!(r.2, None);
    assert_eq!(r.0, 19 * FP_ONE);
}

#[test]
fn fixed_point_sine_tracks_the_real_sine() {
    for k in 0..64 {
        let a = k * TAU_FP / 64;
        let ours = sin_fp(a) as f64 / FP_ONE as f64;
        let real = ((a as f64) / FP_ONE as f64).sin();
        assert!((ours - real).abs() < 0.01, "sin mismatch at {}: {} vs {}", a, ours, real);
        let oc = cos_fp(a) as f64 / FP_ONE as f64;
        let rc = ((a as f64) / FP_ONE as f64).cos();
        assert!((oc - rc).abs() < 0.01, "cos mismatch at {}: {} vs {}", a, oc, rc);
    }
    assert_eq!(sin_fp(0), 0);
    assert_eq!(sin_fp(HALF_PI_FP), FP_ONE);
    assert_eq!(cos_fp(0), FP_ONE);
    assert_eq!(sin_fp(PI_FP), 0);
}

#[test]
fn angle_wrapping_lands_in_one_turn() {
    assert_eq!(wrap_angle(0), 0);
    assert_eq!(wrap_angle(TAU_FP), 0);
    assert_eq!(wrap_angle(-1), TAU_FP - 1);
    assert_eq!(wrap_angle(TAU_FP + 5), 5);
    assert_eq!(wrap_angle(-TAU_FP - 3), TAU_FP - 3);
}

#[test]
fn quadrants_of_the_fixed_point_arctangent() {
    assert_eq!(atan2_fp(0, 100), 0);
    assert_eq!(atan2_fp(100, 0), HALF_PI_FP);
    assert_eq!(atan2_fp(0, -100), PI_FP);
    assert_eq!(atan2_fp(-100, 0), -HALF_PI_FP);
    // 45 degrees comes out near a quarter of pi.
    let a = atan2_fp(1000, 1000) as f64 / FP_ONE as f64;
    assert!((a - core::f64::consts::FRAC_PI_4).abs() < 0.01);
}

#[test]
fn integer_square_root_brackets_its_argument() {
    assert_eq!(isqrt(0), 0);
    assert_eq!(isqrt(1), 1);
    assert_eq!(isqrt(15), 3);
    assert_eq!(isqrt(16), 4);
    assert_eq!(isqrt(1 << 40), 1 << 20);
    for n in 0..2000i64 {
        let r = isqrt(n);
        assert!(r * r <= n && (r + 1) * (r + 1) > n);
    }
}
