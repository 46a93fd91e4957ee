use crate::fixed::{FP_ONE, QUARTER_PI_FP, HALF_PI_FP, sin_fp_spec, cos_fp_spec,
    wrap_angle_spec, sin_fp, cos_fp, lemma_sin_fp_spec_bounds};
use vstd::arithmetic::div_mod::lemma_div_pos_is_pos;
use vstd::prelude::*;

verus! {

/// Screen width in pixels.
pub const WIDTH: u32 = 1600;

/// Screen height in pixels.
pub const HEIGHT: u32 = 900;

/// Half the screen width in pixels.
pub const HALF_WIDTH: u32 = 800;

/// Half the screen height in pixels.
pub const HALF_HEIGHT: u32 = 450;

/// Simulation and rendering rate, in ticks per second.
pub const FPS: u32 = 60;

/// The player's starting cell center, in fixed-point grid units:
/// (1.5, 5.0).
pub const PLAYER_START_X: i64 = 98304;

pub const PLAYER_START_Y: i64 = 327680;

/// Movement speed in fixed-point grid units per delta-time unit:
/// 0.004 cells.
pub const PLAYER_SPEED: i64 = 262;

/// The player's starting facing, in fixed-point radians.
pub const PLAYER_ANGLE: i64 = 0;

/// Horizontal field of view: a quarter turn.
pub const FOV: i64 = 2 * QUARTER_PI_FP;

/// Half the field of view.
pub const HALF_FOV: i64 = QUARTER_PI_FP;

/// Number of rays swept across the field of view: one per two screen
/// pixels.
pub const NUM_RAYS: usize = 800;

pub const HALF_NUM_RAYS: usize = 400;

/// Angle between neighboring rays, in fixed-point radians:
/// `FOV / NUM_RAYS`, rounded.
pub const DELTA_ANGLE: i64 = 129;

/// Small angular nudge added to the first ray so no ray runs exactly
/// parallel to a grid axis.
pub const RAY_EPS: i64 = 7;

/// Longest ray trace, in grid cells: both DDA branches give up after
/// this many steps, so every ray terminates even on an open map.
pub const MAX_DEPTH: usize = 20;

/// Width in pixels of the screen band one ray paints.
pub const SCALE: u32 = 2;

/// Side length of the wall texture, in pixels.
pub const TEXTURE_SIZE: u32 = 256;

pub const HALF_TEXTURE_SIZE: u32 = 128;

/// Mouse sensitivity: fixed-point radians per mouse unit per
/// delta-time unit.
pub const MOUSE_SENSITIVITY: i64 = 20;

/// Largest relative mouse movement honored in one tick.
pub const MOUSE_MAX_REL: i32 = 40;

/// Mouse positions outside these screen borders recenter the cursor.
pub const MOUSE_BORDER_LEFT: i32 = 100;

pub const MOUSE_BORDER_RIGHT: i32 = 1500;

/// The projection-plane distance in fixed-point pixels:
/// `HALF_WIDTH / tan(HALF_FOV)`.
pub open spec fn screen_dist_spec() -> int {
    let s = sin_fp_spec(HALF_FOV as int);
    let c = cos_fp_spec(wrap_angle_spec(HALF_FOV as int));
    let t = s * FP_ONE / (if c == 0 {
        1int
    } else {
        c as int
    });
    (HALF_WIDTH * FP_ONE) * (FP_ONE as int) / (if t == 0 {
        1int
    } else {
        t
    })
}

/// Distance from the eye to the projection plane, in fixed-point
/// pixels, computed from the half field of view.
pub fn screen_dist() -> (r: i64)
    ensures
        r == screen_dist_spec(),
        r >= 0,
{
    let s = sin_fp(HALF_FOV);
    let c = cos_fp(HALF_FOV);
    proof {
        assert(wrap_angle_spec(HALF_FOV as int + HALF_PI_FP) == HALF_FOV as int + HALF_PI_FP);
        assert(c >= 0) by {
            lemma_sin_fp_spec_bounds(HALF_FOV as int + HALF_PI_FP);
        }
    }
    let cd = if c == 0 {
        1
    } else {
        c
    };
    let t = s * FP_ONE / cd;
    let td = if t == 0 {
        1
    } else {
        t
    };
    let num = (HALF_WIDTH as i64 * FP_ONE) * FP_ONE;
    proof {
        if td > 0 {
            lemma_div_pos_is_pos(num as int, td as int);
        }
    }
    num / td
}

} // verus!
