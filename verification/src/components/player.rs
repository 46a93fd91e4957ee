use crate::conf::{HALF_FOV, NUM_RAYS, PLAYER_ANGLE, PLAYER_SPEED, PLAYER_START_X, PLAYER_START_Y,
    DELTA_ANGLE, RAY_EPS};
use crate::engine::{Sprite, TextureID};
use crate::fixed::{FP_ONE, TAU_FP, COORD_LIMIT, div_tr, sin_fp_spec, cos_fp_spec,
    wrap_angle_spec, sin_fp, cos_fp, wrap_angle, lemma_mul_abs_bound, lemma_div_tr_bound};
use crate::map::map::{Grid, is_wall};
use crate::map::mov::Mov;
use crate::map::pos::Pos;
use crate::map::raycasting::{horizontal_intersection_spec, vertical_intersection_spec,
    select_closest_spec, ray_origin_ok, calculate_horizontal_intersection,
    calculate_vertical_intersection, select_closest_intersection, correct_fishbowl_effect,
    calculate_projection_height, ray_origin_within};
use vstd::prelude::*;

verus! {

/// The player: a continuous pose (position and facing angle), a life
/// total and a short-lived pain overlay state.
#[derive(Clone, Copy, PartialEq, Eq, Structural, Debug)]
pub struct Player {
    pub life: u32,
    pub pos: Pos,
    pub angle: i64,
    pub pain: bool,
    pub pain_count: u8,
}

/// The facing after spinning by `delta`, wrapped back into one turn.
pub open spec fn spin_spec(cur: int, delta: int) -> int {
    if delta >= 0 {
        if cur + delta > TAU_FP {
            cur + delta - TAU_FP
        } else {
            cur + delta
        }
    } else {
        if cur + delta < 0 {
            TAU_FP + cur + delta
        } else {
            cur + delta
        }
    }
}

/// The position a walking step aims for: one speed-scaled step along
/// (or across) the facing direction.
pub open spec fn walk_target_spec(p: Player, mov: Mov, delta_time: int) -> Pos {
    let sin_a = sin_fp_spec(p.angle as int);
    let cos_a = cos_fp_spec(p.angle as int);
    let speed = PLAYER_SPEED * delta_time;
    let speed_sin = div_tr(speed * sin_a, FP_ONE as int);
    let speed_cos = div_tr(speed * cos_a, FP_ONE as int);
    let d = match mov {
        Mov::North => (speed_cos, speed_sin),
        Mov::South => (-speed_cos, -speed_sin),
        Mov::West => (speed_sin, -speed_cos),
        Mov::East => (-speed_sin, speed_cos),
    };
    Pos { x: (p.pos.x + d.0) as i64, y: (p.pos.y + d.1) as i64 }
}

/// The pose a walking step leaves the player at: the aimed-for target
/// unless it lands in a wall cell or outside the engine's coordinate
/// margin, in which case the player stays put.
pub open spec fn walk_result_spec(p: Player, grid: Grid, mov: Mov, delta_time: int) -> Pos {
    let target = walk_target_spec(p, mov, delta_time);
    if !grid.is_wall_spec(target) && ray_origin_ok(target) {
        target
    } else {
        p.pos
    }
}

/// The angle of the ray behind screen band `num`, fanned across the
/// field of view around the facing, nudged off exact axis alignment.
pub open spec fn ray_angle_spec(angle: int, num: int) -> int {
    angle - HALF_FOV + RAY_EPS + num * DELTA_ANGLE
}

/// The wall column that ray `num` paints, or nothing when the ray left
/// the map without striking a wall: both DDA branches are walked, the
/// closer intersection wins (ties vertical), the depth is
/// fishbowl-corrected and projected into a slice height, and the
/// column is keyed by the uncorrected depth.
pub open spec fn new_ray_spec(grid: Grid, p: Player, num: int, sd: int) -> Option<Sprite> {
    let ra = ray_angle_spec(p.angle as int, num);
    let wa = wrap_angle_spec(ra);
    let sin_a = sin_fp_spec(wa);
    let cos_a = cos_fp_spec(wa);
    let m = p.pos.map_spec();
    let h = horizontal_intersection_spec(grid, p.pos, m, sin_a, cos_a);
    let v = vertical_intersection_spec(grid, p.pos, m, sin_a, cos_a);
    let s = select_closest_spec(h.0, h.1, h.2, v.0, v.1, v.2, sin_a, cos_a);
    match s.2 {
        Option::None => None,
        Option::Some(_) => {
            let corrected = div_tr(
                s.0 * cos_fp_spec(wrap_angle_spec(p.angle - ra)),
                FP_ONE as int,
            );
            let d = if corrected < 0 {
                0
            } else {
                corrected
            };
            let height = sd * FP_ONE / (d + 1);
            Some(
                Sprite::Column(s.0 as i64, TextureID::Wall, num as usize, s.1 as i64, height as i64),
            )
        },
    }
}

/// The wall columns of all rays in order, those that struck nothing
/// left out.
pub open spec fn viewport_spec(grid: Grid, p: Player, sd: int, i: int) -> Seq<Sprite>
    decreases NUM_RAYS - i,
{
    if i < 0 || i >= NUM_RAYS {
        Seq::empty()
    } else {
        match new_ray_spec(grid, p, i, sd) {
            Option::None => viewport_spec(grid, p, sd, i + 1),
            Option::Some(sp) => seq![sp] + viewport_spec(grid, p, sd, i + 1),
        }
    }
}

/// One pain-overlay tick: while in pain the counter advances (wrapping
/// as a byte), and on reaching one hundred the pain clears.
pub open spec fn player_update_spec(p: Player) -> Player {
    if p.pain {
        let c = if p.pain_count == 255 {
            0u8
        } else {
            (p.pain_count + 1) as u8
        };
        if c == 100 {
            Player { pain: false, pain_count: 0, ..p }
        } else {
            Player { pain_count: c, ..p }
        }
    } else {
        p
    }
}

impl Player {
    /// A pose the projection math accepts: a wrapped facing and a
    /// position within the ray-origin margin.
    pub open spec fn wf(&self) -> bool {
        &&& 0 <= self.angle <= TAU_FP
        &&& ray_origin_ok(self.pos)
    }

    /// The standard starting player: full life, the fixed start pose.
    pub fn new_player() -> (r: Player)
        ensures
            r.wf(),
            r.life == 100,
            r.pos.x == PLAYER_START_X && r.pos.y == PLAYER_START_Y,
            r.angle == PLAYER_ANGLE,
            !r.pain,
            r.pain_count == 100,
    {
        Player {
            life: 100,
            pos: Pos::new(PLAYER_START_X, PLAYER_START_Y),
            angle: PLAYER_ANGLE,
            pain: false,
            pain_count: 100,
        }
    }

    /// Takes a hit: life drops by the damage (never below zero) and the
    /// pain overlay turns on.
    pub fn hit(&mut self, damage: u32)
        ensures
            final (self).pain,
            final (self).life == if damage >= old(self).life {
                0u32
            } else {
                (old(self).life - damage) as u32
            },
            final (self).pos == old(self).pos && final (self).angle == old(self).angle,
            final (self).pain_count == old(self).pain_count,
    {
        self.pain = true;
        self.life = if damage >= self.life {
            0
        } else {
            self.life - damage
        };
    }

    /// Whether any life is left.
    pub fn alive(&self) -> (r: bool)
        ensures
            r == (self.life > 0),
    {
        self.life > 0
    }

    /// The continuous position.
    pub fn pos(&self) -> (r: Pos)
        ensures
            r == self.pos,
    {
        self.pos
    }

    /// The facing angle in fixed-point radians.
    pub fn angle(&self) -> (r: i64)
        ensures
            r == self.angle,
    {
        self.angle
    }

    /// Turns by `angle`, keeping the facing wrapped within one turn.
    pub fn spin(&mut self, angle: i64)
        requires
            old(self).wf(),
            -TAU_FP <= angle <= TAU_FP,
        ensures
            final (self).wf(),
            final (self).angle == spin_spec(old(self).angle as int, angle as int),
            final (self).pos == old(self).pos,
            final (self).life == old(self).life && final (self).pain == old(self).pain,
            final (self).pain_count == old(self).pain_count,
    {
        if angle >= 0 {
            if self.angle + angle > TAU_FP {
                let dif = TAU_FP - self.angle;
                self.angle = angle - dif;
                return ;
            }
        } else {
            if self.angle + angle < 0 {
                let dif = self.angle + angle;
                self.angle = TAU_FP + dif;
                return ;
            }
        }
        self.angle = self.angle + angle;
    }

    /// One walking step: aims a speed-scaled step in the chosen
    /// direction and takes it unless it would enter a wall cell or
    /// leave the engine's coordinate margin.
    pub fn walk(&mut self, grid: &Grid, mov: Mov, delta_time: i64)
        requires
            old(self).wf(),
            grid.wf(),
            0 <= delta_time <= 100000,
        ensures
            final (self).wf(),
            final (self).pos == walk_result_spec(*old(self), *grid, mov, delta_time as int),
            final (self).angle == old(self).angle,
            final (self).life == old(self).life && final (self).pain == old(self).pain,
            final (self).pain_count == old(self).pain_count,
    {
        let sin_a = sin_fp(self.angle);
        let cos_a = cos_fp(self.angle);
        let speed = PLAYER_SPEED * delta_time;
        proof {
            lemma_mul_abs_bound(speed as int, sin_a as int, 26200000, FP_ONE as int);
            lemma_mul_abs_bound(speed as int, cos_a as int, 26200000, FP_ONE as int);
            lemma_div_tr_bound(speed as int * sin_a as int, FP_ONE as int, 26200000);
            lemma_div_tr_bound(speed as int * cos_a as int, FP_ONE as int, 26200000);
        }
        let speed_sin = crate::fixed::div_fp(speed * sin_a, FP_ONE);
        let speed_cos = crate::fixed::div_fp(speed * cos_a, FP_ONE);
        let (dx, dy): (i64, i64) = match mov {
            Mov::North => (speed_cos, speed_sin),
            Mov::South => (-speed_cos, -speed_sin),
            Mov::West => (speed_sin, -speed_cos),
            Mov::East => (-speed_sin, speed_cos),
        };
        let target = self.pos.add(Pos::new(dx, dy));
        if !is_wall(grid, target) && ray_origin_within(target) {
            self.pos = target;
        }
    }

    /// One overlay tick: advances and eventually clears the pain flash.
    pub fn update(&mut self)
        ensures
            *final (self) == player_update_spec(*old(self)),
    {
        if self.pain {
            self.pain_count = if self.pain_count == 255 {
                0
            } else {
                self.pain_count + 1
            };
            if self.pain_count == 100 {
                self.pain = false;
                self.pain_count = 0;
            }
        }
    }

    /// The wall column that one ray paints, if it struck a wall.
    pub fn new_ray(&self, grid: &Grid, num: usize, screen_dist: i64) -> (r: Option<Sprite>)
        requires
            self.wf(),
            grid.wf(),
            num < NUM_RAYS,
            0 <= screen_dist <= COORD_LIMIT,
        ensures
            r == new_ray_spec(*grid, *self, num as int, screen_dist as int),
    {
        let ra = self.angle - HALF_FOV + RAY_EPS + (num as i64) * DELTA_ANGLE;
        let wa = wrap_angle(ra);
        let sin_a = sin_fp(wa);
        let cos_a = cos_fp(wa);
        let map_pos = self.pos.map();
        let h = calculate_horizontal_intersection(grid, &self.pos, &map_pos, sin_a, cos_a);
        let v = calculate_vertical_intersection(grid, &self.pos, &map_pos, sin_a, cos_a);
        let (depth, offset, texture) = select_closest_intersection(
            h.0,
            h.1,
            h.2,
            v.0,
            v.1,
            v.2,
            sin_a,
            cos_a,
        );
        match texture {
            Option::None => None,
            Option::Some(_) => {
                let corrected = correct_fishbowl_effect(depth, self.angle, ra);
                let d = if corrected < 0 {
                    0
                } else {
                    corrected
                };
                let proj_height = calculate_projection_height(screen_dist, d);
                Some(Sprite::Column(depth, TextureID::Wall, num, offset, proj_height))
            },
        }
    }

    /// Sweeps the fan of rays across the field of view and collects the
    /// struck wall columns in ray order.
    pub fn viewport(&self, grid: &Grid, screen_dist: i64) -> (r: Vec<Sprite>)
        requires
            self.wf(),
            grid.wf(),
            0 <= screen_dist <= COORD_LIMIT,
        ensures
            r@ == viewport_spec(*grid, *self, screen_dist as int, 0),
    {
        let mut rays: Vec<Sprite> = Vec::new();
        let mut i: usize = 0;
        while i < NUM_RAYS
            invariant
                self.wf(),
                grid.wf(),
                0 <= screen_dist <= COORD_LIMIT,
                i <= NUM_RAYS,
                rays@ + viewport_spec(*grid, *self, screen_dist as int, i as int) == viewport_spec(
                    *grid,
                    *self,
                    screen_dist as int,
                    0,
                ),
            decreases NUM_RAYS - i,
        {
            let ray = self.new_ray(grid, i, screen_dist);
            match ray {
                Option::None => {},
                Option::Some(sp) => {
                    proof {
                        assert(rays@ + (seq![sp] + viewport_spec(
                            *grid,
                            *self,
                            screen_dist as int,
                            i + 1,
                        )) =~= rays@.push(sp) + viewport_spec(
                            *grid,
                            *self,
                            screen_dist as int,
                            i + 1,
                        ));
                    }
                    rays.push(sp);
                },
            }
            i = i + 1;
        }
        proof {
            assert(rays@ + viewport_spec(*grid, *self, screen_dist as int, NUM_RAYS as int)
                =~= rays@);
        }
        rays
    }

    /// Everything the player contributes to a frame: the wall columns,
    /// the life counter, and the pain flash while hurt.
    pub fn get_sprites(&self, grid: &Grid, screen_dist: i64) -> (r: Vec<Sprite>)
        requires
            self.wf(),
            grid.wf(),
            0 <= screen_dist <= COORD_LIMIT,
        ensures
            r@ == viewport_spec(*grid, *self, screen_dist as int, 0) + seq![
                Sprite::LifeCounter(self.life),
            ] + if self.pain {
                seq![Sprite::PainScreen]
            } else {
                Seq::empty()
            },
    {
        let mut objects = self.viewport(grid, screen_dist);
        objects.push(Sprite::LifeCounter(self.life));
        if self.pain {
            objects.push(Sprite::PainScreen);
            proof {
                assert(objects@ =~= viewport_spec(*grid, *self, screen_dist as int, 0) + seq![
                    Sprite::LifeCounter(self.life),
                ] + seq![Sprite::PainScreen]);
            }
        } else {
            proof {
                assert(objects@ =~= viewport_spec(*grid, *self, screen_dist as int, 0) + seq![
                    Sprite::LifeCounter(self.life),
                ] + Seq::<Sprite>::empty());
            }
        }
        objects
    }
}

} // verus!
