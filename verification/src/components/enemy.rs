use crate::components::player::Player;
use crate::conf::{DELTA_ANGLE, HALF_HEIGHT, HALF_NUM_RAYS, HALF_WIDTH, MAX_DEPTH, SCALE, WIDTH};
use crate::engine::Sprite;
use crate::events::Event;
use crate::fixed::{FP_ONE, PI_FP, TAU_FP, COORD_LIMIT, div_tr, atan2_fp_spec, cos_fp_spec,
    sin_fp_spec, wrap_angle_spec, sqrt_floor, atan2_fp, cos_fp, wrap_angle, isqrt, div_fp,
    lemma_mul_abs_bound, lemma_div_tr_bound, lemma_sqrt_floor_bounds};
use crate::map::map::{Grid, in_map, is_wall};
use crate::map::path::{PathFinding, first_step_spec, way, way_spec};
use crate::map::pos::{Pos, MapPos, cell_of};
use crate::map::raycasting::{nonzero, ray_origin_ok};
use crate::map::traverse::wall_at_coords;
use crate::sequence::{EnemySequence, Sequence, next_spec};
use crate::texture::TextureRef;
use vstd::prelude::*;

verus! {

/// How close to screen center (in fixed-point pixels) the enemy's
/// sprite must sit for a shot to land on it.
pub const HIT_MARGIN: i64 = 5242880;

/// Distance covered per movement tick, in fixed-point grid units:
/// 0.002 cells.
pub const ENEMY_STEP: i64 = 131;

/// The shoot cooldown ceiling, in ticks.
pub const SHOOT_WAIT_MAX: u32 = 300;

/// All texture metrics an enemy's sprites may carry stay within sane
/// projection bounds.
pub open spec fn textures_ok(ts: Seq<TextureRef>) -> bool {
    forall|k: int|
        0 <= k < ts.len() ==> 0 <= (#[trigger] ts[k]).ratio <= 16 * FP_ONE && ts[k].width <= 65536
}

/// One enemy: life, pose, pathfinding handle, animation bundle, sprite
/// metrics, the behavior flags and the cached screen projection.
pub struct Enemy {
    pub life: i32,
    pub damage: u32,
    pub pos: Pos,
    pub pathfinding: PathFinding,
    pub sequence: EnemySequence,
    pub shift: i64,
    pub scale: i64,
    pub dying: bool,
    pub in_pain: bool,
    pub moving: bool,
    pub shooting: bool,
    pub shoot_wait: u32,
    pub screen_x: i64,
    pub dist: i64,
}

/// Whether the enemy stands within one full cell (in any of the eight
/// directions) of the player's cell.
pub open spec fn near_player_spec(e: Enemy, player: Player) -> bool {
    exists|i: int|
        0 <= i < 8 && (Pos {
            x: (e.pos.x + way_spec(i).0 * FP_ONE) as i64,
            y: (e.pos.y + way_spec(i).1 * FP_ONE) as i64,
        }).map_spec() == player.pos.map_spec()
}

/// The occupied-cell snapshot the pathfinder receives: the cells of
/// the first `n` snapshot positions, the enemy's own position left
/// out, in snapshot order.
pub open spec fn occupied_cells_spec(enemies: Seq<Pos>, own: Pos, n: nat) -> Seq<MapPos>
    decreases n,
{
    if n == 0 {
        Seq::empty()
    } else {
        let prev = occupied_cells_spec(enemies, own, (n - 1) as nat);
        let p = enemies[n - 1];
        if p == own {
            prev
        } else {
            prev.push(p.map_spec())
        }
    }
}

/// The pose after one movement tick toward the center of `step`: a
/// fixed-magnitude sub-cell move along the angle to that center, taken
/// only while it stays on the map and inside the engine margin.
pub open spec fn movement_step_spec(e: Enemy, step: MapPos) -> Pos {
    let tx = step.x * FP_ONE + FP_ONE as int / 2;
    let ty = step.y * FP_ONE + FP_ONE as int / 2;
    let wa = wrap_angle_spec(atan2_fp_spec(ty - e.pos.y, tx - e.pos.x));
    let dx = div_tr(cos_fp_spec(wa) * ENEMY_STEP, FP_ONE as int);
    let dy = div_tr(sin_fp_spec(wa) * ENEMY_STEP, FP_ONE as int);
    let target = Pos { x: (e.pos.x + dx) as i64, y: (e.pos.y + dy) as i64 };
    if ray_origin_ok(target) && in_map(cell_of(target.x as int), cell_of(target.y as int)) {
        target
    } else {
        e.pos
    }
}

/// The movement behavior as a value: adjacent to the player's cell and
/// not already firing, the enemy opens fire and raises exactly one
/// attack event carrying its damage, instead of moving; otherwise it
/// holds position (clearing `moving`) when the player's cell is off
/// the map or the pathfinder finds no step, and else advances one
/// fixed sub-cell step toward the found step's center.
pub open spec fn movement_result_spec(e: Enemy, player: Player, enemies: Seq<Pos>) -> (
    Enemy,
    Option<Event>,
) {
    if near_player_spec(e, player) && !e.shooting {
        (Enemy { shooting: true, ..e }, Some(Event::EnemyAttack(e.damage)))
    } else {
        let gm = player.pos.map_spec();
        if !in_map(gm.x as int, gm.y as int) {
            (Enemy { moving: false, ..e }, None)
        } else {
            let occ = occupied_cells_spec(enemies, e.pos, enemies.len());
            match first_step_spec(e.pathfinding, e.pos.map_spec(), gm, occ) {
                Option::None => (Enemy { moving: false, ..e }, None),
                Option::Some(p) => (
                    Enemy { moving: true, pos: movement_step_spec(e, p), ..e },
                    None,
                ),
            }
        }
    }
}

/// One behavior tick as a value: whichever animation steps the flags
/// call for (the pain one-shot until it completes, the shoot cycle
/// while its cooldown runs, walking while moving, dying until the
/// corpse frame locks), the refreshed screen projection, and then,
/// while alive and not firing, the movement behavior with its possible
/// attack event.
pub open spec fn enemy_update_spec(e: Enemy, player: Player, enemies: Seq<Pos>) -> (
    Enemy,
    Option<Event>,
) {
    let pain_done = e.sequence.pain_textures.last_frame_spec()
        && e.sequence.pain_textures.timeout_spec();
    let e1 = if e.in_pain {
        if pain_done {
            Enemy {
                in_pain: false,
                sequence: EnemySequence {
                    pain_textures: Sequence {
                        current_texture: 0,
                        animation_count: 0,
                        blocked: false,
                        ..e.sequence.pain_textures
                    },
                    ..e.sequence
                },
                ..e
            }
        } else {
            Enemy {
                sequence: EnemySequence {
                    pain_textures: next_spec(e.sequence.pain_textures),
                    ..e.sequence
                },
                ..e
            }
        }
    } else {
        e
    };
    let e2 = if e1.shoot_wait == SHOOT_WAIT_MAX {
        Enemy { shoot_wait: 0u32, shooting: false, ..e1 }
    } else {
        e1
    };
    let e3 = if e2.shooting {
        Enemy {
            shoot_wait: (e2.shoot_wait + 1) as u32,
            sequence: EnemySequence {
                shooting_textures: next_spec(e2.sequence.shooting_textures),
                ..e2.sequence
            },
            ..e2
        }
    } else {
        e2
    };
    let e4 = if e3.moving {
        Enemy {
            sequence: EnemySequence {
                walking_textures: next_spec(e3.sequence.walking_textures),
                ..e3.sequence
            },
            ..e3
        }
    } else {
        e3
    };
    let e5 = if e4.life <= 0 {
        let d1 = next_spec(e4.sequence.dying_textures);
        let d2 = if d1.current_texture == d1.textures@.len() - 1 {
            Sequence { blocked: true, ..d1 }
        } else {
            d1
        };
        Enemy { sequence: EnemySequence { dying_textures: d2, ..e4.sequence }, ..e4 }
    } else {
        e4
    };
    let pr = projection_spec(e5, player);
    let e6 = Enemy { screen_x: pr.0 as i64, dist: pr.1 as i64, ..e5 };
    if e6.life > 0 && !e6.shooting {
        movement_result_spec(e6, player, enemies)
    } else {
        (e6, None)
    }
}

impl Enemy {
    /// The shape every live enemy keeps: valid sequences with sane
    /// texture metrics, a pose on the map within the engine margin, a
    /// plain traversal graph, and bounded stats.
    pub open spec fn wf(&self) -> bool {
        &&& self.sequence.wf()
        &&& textures_ok(self.sequence.walking_textures.textures@)
        &&& textures_ok(self.sequence.dying_textures.textures@)
        &&& textures_ok(self.sequence.shooting_textures.textures@)
        &&& textures_ok(self.sequence.pain_textures.textures@)
        &&& ray_origin_ok(self.pos)
        &&& in_map(self.pos.map_spec().x as int, self.pos.map_spec().y as int)
        &&& self.pathfinding.graph_ok()
        &&& self.shoot_wait <= SHOOT_WAIT_MAX
        &&& 0 <= self.scale <= 4 * FP_ONE
        &&& -4 * FP_ONE <= self.shift <= 4 * FP_ONE
        &&& -100000 * FP_ONE <= self.screen_x <= 100000 * FP_ONE
        &&& -200 * FP_ONE <= self.dist <= 200 * FP_ONE
    }

    /// A fresh enemy at a starting pose with fixed stats.
    pub fn new(
        life: i32,
        damage: u32,
        pos: (i64, i64),
        sequences: EnemySequence,
        shift: i64,
        scale: i64,
        pathfinding: PathFinding,
    ) -> (r: Enemy)
        requires
            sequences.wf(),
            textures_ok(sequences.walking_textures.textures@),
            textures_ok(sequences.dying_textures.textures@),
            textures_ok(sequences.shooting_textures.textures@),
            textures_ok(sequences.pain_textures.textures@),
            ray_origin_ok(Pos { x: pos.0, y: pos.1 }),
            in_map(
                (Pos { x: pos.0, y: pos.1 }).map_spec().x as int,
                (Pos { x: pos.0, y: pos.1 }).map_spec().y as int,
            ),
            pathfinding.graph_ok(),
            0 <= scale <= 4 * FP_ONE,
            -4 * FP_ONE <= shift <= 4 * FP_ONE,
        ensures
            r.wf(),
            r.life == life,
            r.damage == damage,
            r.pos.x == pos.0 && r.pos.y == pos.1,
            r.sequence == sequences,
            r.pathfinding == pathfinding,
            !r.dying && !r.in_pain && !r.moving && !r.shooting,
            r.shoot_wait == 0,
    {
        Enemy {
            life,
            damage,
            pos: Pos::new(pos.0, pos.1),
            sequence: sequences,
            dying: false,
            shift,
            scale,
            pathfinding,
            in_pain: false,
            moving: false,
            shooting: false,
            shoot_wait: 0,
            screen_x: 0,
            dist: 0,
        }
    }

    /// Marks the enemy dying once its life is gone; already-dying
    /// enemies stay as they are.
    pub fn check_dead(&mut self)
        ensures
            final (self).dying == (old(self).dying || old(self).life <= 0),
            *final (self) == (Enemy { dying: final (self).dying, ..*old(self) }),
    {
        if self.life <= 0 && !self.dying {
            self.dying = true;
        }
    }

    /// Whether any life is left.
    pub fn alive(&self) -> (r: bool)
        ensures
            r == (self.life > 0),
    {
        self.life > 0
    }

    /// The attack event this enemy deals.
    fn attack(&self) -> (r: Event)
        ensures
            r == Event::EnemyAttack(self.damage),
    {
        Event::EnemyAttack(self.damage)
    }

    /// Applies damage: life drops (saturating at the integer floor)
    /// and a kill flips the dying flag, once.
    pub fn receive_damage(&mut self, damage: i32)
        requires
            0 <= damage,
        ensures
            final (self).life == if old(self).life as int - damage < i32::MIN {
                i32::MIN as int
            } else {
                old(self).life - damage
            },
            final (self).dying == (old(self).dying || final (self).life <= 0),
            *final (self) == (Enemy {
                life: final (self).life,
                dying: final (self).dying,
                ..*old(self)
            }),
    {
        self.life = if self.life < i32::MIN + damage {
            i32::MIN
        } else {
            self.life - damage
        };
        self.check_dead();
    }

    /// Whether the enemy stands one grid step (any of the eight
    /// directions) from the player's cell.
    pub fn near_player(&self, player: &Player) -> (r: bool)
        requires
            ray_origin_ok(self.pos),
        ensures
            r == near_player_spec(*self, *player),
    {
        let mut result = false;
        let mut i: usize = 0;
        while i < 8
            invariant
                ray_origin_ok(self.pos),
                i <= 8,
                result == exists|k: int|
                    0 <= k < i && (Pos {
                        x: (self.pos.x + way_spec(k).0 * FP_ONE) as i64,
                        y: (self.pos.y + way_spec(k).1 * FP_ONE) as i64,
                    }).map_spec() == player.pos.map_spec(),
            decreases 8 - i,
        {
            let (dx, dy) = way(i);
            let probe = self.pos.add(Pos::new(dx * FP_ONE, dy * FP_ONE));
            let pm = probe.map();
            let gm = player.pos.map();
            if pm.x == gm.x && pm.y == gm.y {
                proof {
                    assert((Pos {
                        x: (self.pos.x + way_spec(i as int).0 * FP_ONE) as i64,
                        y: (self.pos.y + way_spec(i as int).1 * FP_ONE) as i64,
                    }).map_spec() == player.pos.map_spec());
                }
                result = true;
            }
            i = i + 1;
        }
        result
    }
    /// The texture the enemy currently shows, by state priority:
    /// dying, then shooting, then pain, then walking.
    pub open spec fn texture_spec(&self) -> TextureRef {
        if self.life <= 0 {
            self.sequence.dying_textures.textures@[self.sequence.dying_textures.current_texture as int]
        } else if self.shooting {
            self.sequence.shooting_textures.textures@[self.sequence.shooting_textures.current_texture as int]
        } else if self.in_pain {
            self.sequence.pain_textures.textures@[self.sequence.pain_textures.current_texture as int]
        } else {
            self.sequence.walking_textures.textures@[self.sequence.walking_textures.current_texture as int]
        }
    }

    /// The texture to draw this tick.
    pub fn get_texture(&self) -> (r: TextureRef)
        requires
            self.sequence.wf(),
        ensures
            r == self.texture_spec(),
    {
        if self.life <= 0 {
            self.sequence.dying_textures.get_texture()
        } else if self.shooting {
            self.sequence.shooting_textures.get_texture()
        } else if self.in_pain {
            self.sequence.pain_textures.get_texture()
        } else {
            self.sequence.walking_textures.get_texture()
        }
    }

    /// Whether the sprite overlaps the screen and stands far enough
    /// from the eye to draw.
    pub fn visible(&self) -> (r: bool)
        requires
            self.wf(),
        ensures
            r == enemy_visible_spec(*self),
    {
        let texture = self.get_texture();
        let image_half_width = ((texture.width() / 2) as i64) * FP_ONE;
        -image_half_width < self.screen_x && self.screen_x < (WIDTH as i64) * FP_ONE
            + image_half_width && self.dist > FP_ONE / 2
    }
}

/// The screen projection of an enemy as seen by the player: the
/// screen-space x of its sprite center in fixed-point pixels, and the
/// fishbowl-normalized distance.
pub open spec fn projection_spec(e: Enemy, player: Player) -> (int, int) {
    let dx = e.pos.x - player.pos.x;
    let dy = e.pos.y - player.pos.y;
    let theta = atan2_fp_spec(dy as int, dx as int);
    let delta0 = theta - player.angle;
    let delta = if (dx > 0 && player.angle > PI_FP) || (dx < 0 && dy < 0) {
        delta0 + TAU_FP
    } else {
        delta0
    };
    let screen_x = HALF_NUM_RAYS * SCALE * FP_ONE + div_tr(
        delta * SCALE * FP_ONE,
        DELTA_ANGLE as int,
    );
    let hyp = sqrt_floor((dx * dx + dy * dy) as nat);
    let dist = div_tr(hyp * cos_fp_spec(wrap_angle_spec(delta)), FP_ONE as int);
    (screen_x, dist)
}

/// Whether the enemy's sprite overlaps the screen and stands far
/// enough from the eye to draw.
pub open spec fn enemy_visible_spec(e: Enemy) -> bool {
    let hw = (e.texture_spec().width / 2) * FP_ONE;
    -hw < e.screen_x && e.screen_x < WIDTH * FP_ONE + hw && e.dist > FP_ONE / 2
}

/// The sprite rectangle of an enemy: top-left corner, width and height
/// in fixed-point pixels, from the cached projection and the current
/// texture's metrics.
pub open spec fn sprite_rect_spec(e: Enemy, screen_dist: int) -> (int, int, int, int) {
    let t1 = div_tr(screen_dist * FP_ONE, e.dist as int);
    let h = div_tr(t1 * e.scale, FP_ONE as int);
    let w = div_tr(h * e.texture_spec().ratio, FP_ONE as int);
    let shift_px = div_tr(h * e.shift, FP_ONE as int);
    let x = e.screen_x - div_tr(w, 2);
    let y = HALF_HEIGHT * FP_ONE - div_tr(h, 2) + shift_px;
    (x, y, w, h)
}

/// The one billboard sprite an enemy draws, for the given
/// projection-plane distance.
pub open spec fn enemy_sprite_spec(e: Enemy, screen_dist: int) -> Sprite {
    let p = sprite_rect_spec(e, screen_dist);
    Sprite::Sprite(e.dist, e.texture_spec().id, p.0 as i64, p.1 as i64, p.2 as i64, p.3 as i64)
}

/// Whether a shot from the player lands on this enemy: its sprite
/// sits within the crosshair margin of screen center, and the line of
/// sight between the two is clear.
pub open spec fn shot_hits_spec(e: Enemy, grid: Grid, player: Player) -> bool {
    let in_screen = (HALF_WIDTH * FP_ONE) - HIT_MARGIN < e.screen_x && e.screen_x < (HALF_WIDTH
        * FP_ONE) + HIT_MARGIN;
    let theta = atan2_fp_spec(e.pos.y - player.pos.y, e.pos.x - player.pos.x);
    in_screen && visible_spec(grid, player.pos, theta, e.pos.map_spec(), player.pos.map_spec())
}

/// One enemy's state after the player's shot has been resolved against
/// it: a living enemy the shot lands on flinches into pain and takes
/// the weapon's damage (its death flagged once its life is gone);
/// every other enemy is untouched. The second component says whether
/// the shot landed.
pub open spec fn shot_result_spec(e: Enemy, grid: Grid, player: Player, damage: i32) -> (
    Enemy,
    bool,
) {
    if e.life > 0 && shot_hits_spec(e, grid, player) {
        let life2 = if e.life - damage < i32::MIN {
            i32::MIN as int
        } else {
            e.life - damage
        };
        (Enemy { in_pain: true, life: life2 as i32, dying: e.dying || life2 <= 0, ..e }, true)
    } else {
        (e, false)
    }
}

impl Enemy {
    /// Recomputes the cached screen projection from the player's pose:
    /// the angle to the player wrapped into one turn with explicit
    /// quadrant correction, mapped to a ray offset and scaled to
    /// screen space; the distance normalized by the angular offset's
    /// cosine.
    pub fn update_projection(&mut self, player: &Player)
        requires
            old(self).wf(),
            player.wf(),
        ensures
            final (self).wf(),
            (final (self).screen_x as int, final (self).dist as int) == projection_spec(
                *old(self),
                *player,
            ),
            *final (self) == (Enemy {
                screen_x: final (self).screen_x,
                dist: final (self).dist,
                ..*old(self)
            }),
    {
        let d = self.pos.sub(player.pos());
        let theta = atan2_fp(d.y, d.x);
        let mut delta = theta - player.angle();
        if (d.x > 0 && player.angle() > PI_FP) || (d.x < 0 && d.y < 0) {
            delta = delta + TAU_FP;
        }
        proof {
            lemma_mul_abs_bound(delta as int, SCALE as int * FP_ONE, 700000, SCALE as int * FP_ONE);
            lemma_div_tr_bound(
                delta as int * (SCALE as int * FP_ONE),
                DELTA_ANGLE as int,
                1300000000,
            );
        }
        let rays_px = div_fp(delta * (SCALE as i64 * FP_ONE), DELTA_ANGLE);
        let hnr = HALF_NUM_RAYS;
        let sc = SCALE;
        proof {
            assert(hnr == 400 && sc == 2 && FP_ONE == 65536);
        }
        let base = (hnr as i64) * (sc as i64);
        self.screen_x = base * FP_ONE + rays_px;
        proof {
            lemma_mul_abs_bound(d.x as int, d.x as int, 64 * FP_ONE, 64 * FP_ONE);
            lemma_mul_abs_bound(d.y as int, d.y as int, 64 * FP_ONE, 64 * FP_ONE);
            assert(d.x as int * d.x as int >= 0 && d.y as int * d.y as int >= 0)
                by (nonlinear_arith);
        }
        let sq = d.x * d.x + d.y * d.y;
        proof {
            lemma_sqrt_floor_bounds(sq as nat);
            assert(sqrt_floor(sq as nat) <= 128 * FP_ONE) by {
                if sqrt_floor(sq as nat) > 128 * FP_ONE {
                    assert(sqrt_floor(sq as nat) * sqrt_floor(sq as nat) > (128 * FP_ONE) * (128
                        * FP_ONE)) by (nonlinear_arith)
                        requires
                            sqrt_floor(sq as nat) > 128 * FP_ONE,
                    ;
                }
            }
        }
        let hyp = isqrt(sq);
        let c = cos_fp(wrap_angle(delta));
        proof {
            lemma_mul_abs_bound(hyp as int, c as int, 128 * FP_ONE, FP_ONE as int);
            lemma_div_tr_bound(hyp as int * c as int, FP_ONE as int, 128 * FP_ONE);
        }
        self.dist = div_fp(hyp * c, FP_ONE);
    }

    /// The one billboard sprite the enemy contributes to a frame, for
    /// the current projection-plane distance.
    pub fn get_sprites(&self, screen_dist: i64) -> (r: Vec<Sprite>)
        requires
            self.wf(),
            0 <= screen_dist <= 2000 * FP_ONE,
            self.dist >= FP_ONE / 2,
        ensures
            r@.len() == 1,
            r@[0] == enemy_sprite_spec(*self, screen_dist as int),
    {
        proof {
            lemma_mul_abs_bound(screen_dist as int, FP_ONE as int, 2000 * FP_ONE, FP_ONE as int);
            assert((4000 * FP_ONE) * (self.dist as int) >= 2000 * FP_ONE * FP_ONE)
                by (nonlinear_arith)
                requires
                    self.dist >= 32768,
                    FP_ONE == 65536,
            ;
            lemma_div_tr_bound(screen_dist as int * FP_ONE, self.dist as int, 4000 * FP_ONE);
        }
        let t1 = div_fp(screen_dist * FP_ONE, self.dist);
        proof {
            lemma_mul_abs_bound(t1 as int, self.scale as int, 4000 * FP_ONE, 4 * FP_ONE);
            lemma_div_tr_bound(t1 as int * self.scale as int, FP_ONE as int, 16000 * FP_ONE);
        }
        let texture = self.get_texture();
        let h = div_fp(t1 * self.scale, FP_ONE);
        proof {
            lemma_mul_abs_bound(h as int, texture.ratio as int, 16000 * FP_ONE, 16 * FP_ONE);
            lemma_div_tr_bound(h as int * texture.ratio as int, FP_ONE as int, 256000 * FP_ONE);
            lemma_mul_abs_bound(h as int, self.shift as int, 16000 * FP_ONE, 4 * FP_ONE);
            lemma_div_tr_bound(h as int * self.shift as int, FP_ONE as int, 64000 * FP_ONE);
        }
        let w = div_fp(h * texture.ratio, FP_ONE);
        let shift_px = div_fp(h * self.shift, FP_ONE);
        let x = self.screen_x - w / 2;
        let y = (HALF_HEIGHT as i64) * FP_ONE - h / 2 + shift_px;
        let mut v: Vec<Sprite> = Vec::new();
        v.push(Sprite::Sprite(self.dist, texture.id(), x, y, w, h));
        v
    }
}

/// One branch of the line-of-sight walk: racing two markers down the
/// grid, the walk reports the depth at which it entered the target
/// cell (as first component) or struck a wall (as second), leaving the
/// other marker at zero; both stay zero when the fuel runs out first.
pub open spec fn vis_branch_spec(
    grid: Grid,
    px: int,
    py: int,
    dx: int,
    dy: int,
    depth: int,
    delta: int,
    tx: int,
    ty: int,
    fuel: nat,
) -> (int, int)
    decreases fuel,
{
    if fuel == 0 {
        (0, 0)
    } else if cell_of(px) == tx && cell_of(py) == ty {
        (depth, 0)
    } else if wall_at_coords(grid, px, py) {
        (0, depth)
    } else {
        vis_branch_spec(grid, px + dx, py + dy, dx, dy, depth + delta, delta, tx, ty, (fuel
            - 1) as nat)
    }
}

/// Walks one line-of-sight branch: steps across the grid until the
/// target cell or a wall is entered, reporting the depth of whichever
/// came first in its marker.
pub fn vis_branch(grid: &Grid, pos: Pos, dist: Pos, depth: i64, delta_depth: i64, target: MapPos)
    -> (r: (i64, i64))
    requires
        grid.wf(),
        -COORD_LIMIT <= pos.x <= COORD_LIMIT,
        -COORD_LIMIT <= pos.y <= COORD_LIMIT,
        -COORD_LIMIT <= depth <= COORD_LIMIT,
        -COORD_LIMIT <= dist.x <= COORD_LIMIT,
        -COORD_LIMIT <= dist.y <= COORD_LIMIT,
        -COORD_LIMIT <= delta_depth <= COORD_LIMIT,
    ensures
        (r.0 as int, r.1 as int) == vis_branch_spec(
            *grid,
            pos.x as int,
            pos.y as int,
            dist.x as int,
            dist.y as int,
            depth as int,
            delta_depth as int,
            target.x as int,
            target.y as int,
            MAX_DEPTH as nat,
        ),
{
    let ghost t = vis_branch_spec(
        *grid,
        pos.x as int,
        pos.y as int,
        dist.x as int,
        dist.y as int,
        depth as int,
        delta_depth as int,
        target.x as int,
        target.y as int,
        MAX_DEPTH as nat,
    );
    let mut p = pos;
    let mut d = depth;
    let mut player_dist: i64 = 0;
    let mut wall_dist: i64 = 0;
    let mut hit = false;
    let mut k: usize = 0;
    while k < MAX_DEPTH && !hit
        invariant
            grid.wf(),
            k <= MAX_DEPTH,
            -COORD_LIMIT <= dist.x <= COORD_LIMIT,
            -COORD_LIMIT <= dist.y <= COORD_LIMIT,
            -COORD_LIMIT <= delta_depth <= COORD_LIMIT,
            -(k as int + 1) * COORD_LIMIT <= p.x <= (k as int + 1) * COORD_LIMIT,
            -(k as int + 1) * COORD_LIMIT <= p.y <= (k as int + 1) * COORD_LIMIT,
            -(k as int + 1) * COORD_LIMIT <= d <= (k as int + 1) * COORD_LIMIT,
            !hit ==> t == vis_branch_spec(
                *grid,
                p.x as int,
                p.y as int,
                dist.x as int,
                dist.y as int,
                d as int,
                delta_depth as int,
                target.x as int,
                target.y as int,
                (MAX_DEPTH - k) as nat,
            ),
            !hit ==> player_dist == 0 && wall_dist == 0,
            hit ==> t == (player_dist as int, wall_dist as int),
        decreases MAX_DEPTH - k + (if hit {
            0int
        } else {
            1int
        }),
    {
        let m = p.map();
        if m.x == target.x && m.y == target.y {
            player_dist = d;
            hit = true;
        } else if is_wall(grid, p) {
            wall_dist = d;
            hit = true;
        } else {
            proof {
                assert((k as int + 1) * COORD_LIMIT + COORD_LIMIT == (k as int + 2) * COORD_LIMIT)
                    by (nonlinear_arith);
            }
            p = p.add(dist);
            d = d + delta_depth;
            k = k + 1;
        }
    }
    (player_dist, wall_dist)
}

/// The horizontal line-of-sight branch for a ray from `o` (inside cell
/// `base`) toward the direction `(cos_a, sin_a)`, racing toward the
/// target cell.
pub open spec fn vis_hor_spec(
    grid: Grid,
    o: Pos,
    base: MapPos,
    sin_a: int,
    cos_a: int,
    target: MapPos,
) -> (int, int) {
    let y0 = if sin_a >= 0 {
        (base.y + 1) * FP_ONE
    } else {
        base.y * FP_ONE - 1
    };
    let dy = if sin_a >= 0 {
        FP_ONE as int
    } else {
        -(FP_ONE as int)
    };
    let s = nonzero(sin_a);
    let depth0 = div_tr((y0 - o.y) * FP_ONE, s);
    let x0 = o.x + div_tr(depth0 * cos_a, FP_ONE as int);
    let delta = div_tr(dy * FP_ONE, s);
    let dx = div_tr(delta * cos_a, FP_ONE as int);
    vis_branch_spec(
        grid,
        x0,
        y0,
        dx,
        dy,
        depth0,
        delta,
        target.x as int,
        target.y as int,
        MAX_DEPTH as nat,
    )
}

/// The vertical line-of-sight branch.
pub open spec fn vis_vert_spec(
    grid: Grid,
    o: Pos,
    base: MapPos,
    sin_a: int,
    cos_a: int,
    target: MapPos,
) -> (int, int) {
    let x0 = if cos_a >= 0 {
        (base.x + 1) * FP_ONE
    } else {
        base.x * FP_ONE - 1
    };
    let dx = if cos_a >= 0 {
        FP_ONE as int
    } else {
        -(FP_ONE as int)
    };
    let c = nonzero(cos_a);
    let depth0 = div_tr((x0 - o.x) * FP_ONE, c);
    let y0 = o.y + div_tr(depth0 * sin_a, FP_ONE as int);
    let delta = div_tr(dx * FP_ONE, c);
    let dy = div_tr(delta * sin_a, FP_ONE as int);
    vis_branch_spec(
        grid,
        x0,
        y0,
        dx,
        dy,
        depth0,
        delta,
        target.x as int,
        target.y as int,
        MAX_DEPTH as nat,
    )
}

/// Line of sight between two cells along a ray from `o`: trivially
/// clear within one cell; otherwise both branch walks race their
/// markers, the larger marker of each kind wins, and sight holds iff
/// the target was reached strictly before any wall (or no wall was
/// struck at all).
pub open spec fn visible_spec(
    grid: Grid,
    o: Pos,
    ray_angle: int,
    target: MapPos,
    base: MapPos,
) -> bool {
    if target == base {
        true
    } else {
        let wa = wrap_angle_spec(ray_angle);
        let sin_a = sin_fp_spec(wa);
        let cos_a = cos_fp_spec(wa);
        let h = vis_hor_spec(grid, o, base, sin_a, cos_a, target);
        let v = vis_vert_spec(grid, o, base, sin_a, cos_a, target);
        let pd = if v.0 > h.0 {
            v.0
        } else {
            h.0
        };
        let wd = if v.1 > h.1 {
            v.1
        } else {
            h.1
        };
        (0 < pd && pd < wd) || wd == 0
    }
}

/// A walk that strikes a wall without ever entering the target cell
/// reports sight blocked: if both branches run out that way, the ray
/// does not see the target.
pub proof fn lemma_wall_blocks_sight(
    grid: Grid,
    o: Pos,
    ray_angle: int,
    target: MapPos,
    base: MapPos,
)
    requires
        target != base,
        ({
            let wa = wrap_angle_spec(ray_angle);
            let sin_a = sin_fp_spec(wa);
            let cos_a = cos_fp_spec(wa);
            let h = vis_hor_spec(grid, o, base, sin_a, cos_a, target);
            let v = vis_vert_spec(grid, o, base, sin_a, cos_a, target);
            h.0 == 0 && v.0 == 0 && (h.1 > 0 || v.1 > 0)
        }),
    ensures
        !visible_spec(grid, o, ray_angle, target, base),
{
}

impl Enemy {
    /// Casts the line-of-sight ray from the player's position toward
    /// this enemy and reports whether no wall interrupts it.
    pub fn new_ray(
        &self,
        grid: &Grid,
        o: Pos,
        ray_angle: i64,
        target: MapPos,
        base: MapPos,
    ) -> (r: bool)
        requires
            grid.wf(),
            ray_origin_ok(o),
            base.x <= 32,
            base.y <= 32,
            -COORD_LIMIT <= ray_angle <= COORD_LIMIT,
        ensures
            r == visible_spec(*grid, o, ray_angle as int, target, base),
            target == base ==> r,
    {
        if target.x == base.x && target.y == base.y {
            return true;
        }
        let wa = wrap_angle(ray_angle);
        let sin_a = crate::fixed::sin_fp(wa);
        let cos_a = cos_fp(wa);
        let (y_hor, dy): (i64, i64) = if sin_a >= 0 {
            (((base.y + 1) as i64) * FP_ONE, FP_ONE)
        } else {
            ((base.y as i64) * FP_ONE - 1, -FP_ONE)
        };
        let s = if sin_a == 0 {
            1
        } else {
            sin_a
        };
        let depth_hor = div_fp((y_hor - o.y) * FP_ONE, s);
        proof {
            lemma_mul_abs_bound(depth_hor as int, cos_a as int, 66 * FP_ONE * FP_ONE, FP_ONE as int);
            lemma_div_tr_bound(depth_hor as int * cos_a as int, FP_ONE as int, 66 * FP_ONE * FP_ONE);
        }
        let x_hor = o.x + div_fp(depth_hor * cos_a, FP_ONE);
        let delta_h = div_fp(dy * FP_ONE, s);
        proof {
            lemma_mul_abs_bound(delta_h as int, cos_a as int, FP_ONE as int * FP_ONE, FP_ONE as int);
            lemma_div_tr_bound(delta_h as int * cos_a as int, FP_ONE as int, FP_ONE as int * FP_ONE);
        }
        let dx_h = div_fp(delta_h * cos_a, FP_ONE);
        let h = vis_branch(grid, Pos::new(x_hor, y_hor), Pos::new(dx_h, dy), depth_hor, delta_h, target);

        let (x_vert, dx): (i64, i64) = if cos_a >= 0 {
            (((base.x + 1) as i64) * FP_ONE, FP_ONE)
        } else {
            ((base.x as i64) * FP_ONE - 1, -FP_ONE)
        };
        let c = if cos_a == 0 {
            1
        } else {
            cos_a
        };
        let depth_vert = div_fp((x_vert - o.x) * FP_ONE, c);
        proof {
            lemma_mul_abs_bound(depth_vert as int, sin_a as int, 66 * FP_ONE * FP_ONE, FP_ONE as int);
            lemma_div_tr_bound(depth_vert as int * sin_a as int, FP_ONE as int, 66 * FP_ONE * FP_ONE);
        }
        let y_vert = o.y + div_fp(depth_vert * sin_a, FP_ONE);
        let delta_v = div_fp(dx * FP_ONE, c);
        proof {
            lemma_mul_abs_bound(delta_v as int, sin_a as int, FP_ONE as int * FP_ONE, FP_ONE as int);
            lemma_div_tr_bound(delta_v as int * sin_a as int, FP_ONE as int, FP_ONE as int * FP_ONE);
        }
        let dy_v = div_fp(delta_v * sin_a, FP_ONE);
        let v = vis_branch(grid, Pos::new(x_vert, y_vert), Pos::new(dx, dy_v), depth_vert, delta_v, target);

        let player_dist = if v.0 > h.0 {
            v.0
        } else {
            h.0
        };
        let wall_dist = if v.1 > h.1 {
            v.1
        } else {
            h.1
        };
        (0 < player_dist && player_dist < wall_dist) || wall_dist == 0
    }

    /// Movement behavior against a snapshot of the other enemies'
    /// positions: adjacent to the player's cell it opens fire instead
    /// of moving and raises exactly one attack event carrying its
    /// damage; otherwise it asks the pathfinder for the next step
    /// toward the player, avoiding the snapshot cells, and advances a
    /// small fixed step toward that cell's center (holding position
    /// when no path exists).
    pub fn movement(&mut self, player: &Player, enemies: &Vec<Pos>) -> (r: Option<Event>)
        requires
            old(self).wf(),
            player.wf(),
        ensures
            final (self).wf(),
            (*final (self), r) == movement_result_spec(*old(self), *player, enemies@),
            near_player_spec(*old(self), *player) && !old(self).shooting ==> r == Some(
                Event::EnemyAttack(old(self).damage),
            ) && *final (self) == (Enemy { shooting: true, ..*old(self) }),
            !(near_player_spec(*old(self), *player) && !old(self).shooting) ==> r is None,
    {
        if self.near_player(player) && !self.shooting {
            self.shooting = true;
            return Some(self.attack());
        }
        let mut enemies_pos: Vec<MapPos> = Vec::new();
        let mut i: usize = 0;
        while i < enemies.len()
            invariant
                i <= enemies@.len(),
                self == old(self),
                enemies_pos@ == occupied_cells_spec(enemies@, old(self).pos, i as nat),
            decreases enemies@.len() - i,
        {
            let p = enemies[i];
            if !(p.x == self.pos.x && p.y == self.pos.y) {
                enemies_pos.push(p.map());
            }
            i = i + 1;
        }
        let gm = player.pos().map();
        if !crate::map::map::is_in_map(gm.x as i64, gm.y as i64) {
            self.moving = false;
            return None;
        }
        let maybe_path = self.pathfinding.get_path(self.pos.map(), gm, enemies_pos);
        match maybe_path {
            Option::None => {
                self.moving = false;
            },
            Option::Some(path) => {
                self.moving = true;
                proof {
                    crate::map::path::lemma_node_at_idx(path);
                }
                let tx = (path.x() as i64) * FP_ONE + FP_ONE / 2;
                let ty = (path.y() as i64) * FP_ONE + FP_ONE / 2;
                let angle = atan2_fp(ty - self.pos.y, tx - self.pos.x);
                let wa = wrap_angle(angle);
                let ca = cos_fp(wa);
                let sa = crate::fixed::sin_fp(wa);
                proof {
                    lemma_mul_abs_bound(ca as int, ENEMY_STEP as int, FP_ONE as int, ENEMY_STEP as int);
                    lemma_mul_abs_bound(sa as int, ENEMY_STEP as int, FP_ONE as int, ENEMY_STEP as int);
                    lemma_div_tr_bound(ca as int * ENEMY_STEP, FP_ONE as int, ENEMY_STEP as int);
                    lemma_div_tr_bound(sa as int * ENEMY_STEP, FP_ONE as int, ENEMY_STEP as int);
                }
                let dx = div_fp(ca * ENEMY_STEP, FP_ONE);
                let dy = div_fp(sa * ENEMY_STEP, FP_ONE);
                let target = self.pos.add(Pos::new(dx, dy));
                let tm = target.map();
                if crate::map::raycasting::ray_origin_within(target) && crate::map::map::is_in_map(
                    tm.x as i64,
                    tm.y as i64,
                ) {
                    self.pos = target;
                }
            },
        }
        None
    }

    /// One behavior tick: advances whichever animations the flags call
    /// for (pain until its one-shot completes, the shoot cycle while
    /// the cooldown runs, walking while moving, dying until the corpse
    /// frame locks), refreshes the screen projection, and, while alive
    /// and not firing, runs the movement behavior, which may raise an
    /// attack event.
    #[verifier::rlimit(100)]
    pub fn update(&mut self, player: &Player, enemies: &Vec<Pos>) -> (r: Option<Event>)
        requires
            old(self).wf(),
            player.wf(),
        ensures
            final (self).wf(),
            (*final (self), r) == enemy_update_spec(*old(self), *player, enemies@),
    {
        if self.in_pain {
            if self.sequence.pain_textures.done() {
                self.in_pain = false;
                self.sequence.pain_textures.reset();
            } else {
                self.sequence.pain_textures.next();
            }
        }
        if self.shoot_wait == SHOOT_WAIT_MAX {
            self.shoot_wait = 0;
            self.shooting = false;
        }
        if self.shooting {
            self.shoot_wait = self.shoot_wait + 1;
            self.sequence.shooting_textures.next();
        }
        if self.moving {
            self.sequence.walking_textures.next();
        }
        if self.life <= 0 {
            self.sequence.dying_textures.next();
            if self.sequence.dying_textures.last_frame() {
                self.sequence.dying_textures.block();
            }
        }
        self.update_projection(player);
        if self.alive() {
            if !self.shooting {
                return self.movement(player, enemies);
            } else {
                return None;
            }
        }
        None
    }

    /// Resolves a shot from the player: a hit registers iff the
    /// enemy's sprite sits within the crosshair margin of screen
    /// center and the line of sight between the two is clear. A hit
    /// puts the enemy in pain.
    pub fn hit(&mut self, grid: &Grid, player: &Player) -> (r: bool)
        requires
            old(self).wf(),
            player.wf(),
            grid.wf(),
        ensures
            final (self).wf(),
            r == shot_hits_spec(*old(self), *grid, *player),
            final (self).in_pain == (old(self).in_pain || r),
            *final (self) == (Enemy { in_pain: final (self).in_pain, ..*old(self) }),
    {
        let map_pos = self.pos.map();
        let d = self.pos.sub(player.pos());
        let theta = atan2_fp(d.y, d.x);
        let in_screen = (HALF_WIDTH as i64) * FP_ONE - HIT_MARGIN < self.screen_x && self.screen_x
            < (HALF_WIDTH as i64) * FP_ONE + HIT_MARGIN;
        let not_wall_between = self.new_ray(grid, player.pos(), theta, map_pos, player.pos().map());
        if in_screen && not_wall_between {
            self.in_pain = true;
            true
        } else {
            false
        }
    }
}

} // verus!
