use crate::components::background::Background;
use crate::components::enemy::{Enemy, enemy_update_spec, enemy_visible_spec, enemy_sprite_spec,
    shot_result_spec, textures_ok};
use crate::components::player::{Player, player_update_spec, walk_result_spec};
use crate::components::weapon::{Weapon, WeaponState, weapon_update_spec, weapon_sprite_spec};
use crate::conf::{MOUSE_BORDER_LEFT, MOUSE_BORDER_RIGHT, MOUSE_MAX_REL, MOUSE_SENSITIVITY,
    PLAYER_ANGLE, PLAYER_START_X, PLAYER_START_Y, screen_dist, screen_dist_spec};
use crate::engine::{Controlls, Sprite};
use crate::events::Event;
use crate::fixed::FP_ONE;
use crate::map::map::{Grid, in_map, level_cell};
use crate::map::mov::Mov;
use crate::map::path::PathFinding;
use crate::map::pos::Pos;
use crate::sequence::EnemySequence;
use crate::texture::TextureRef;
use vstd::prelude::*;

verus! {

/// Scaling factor from input units to simulation units per tick.
pub const DELTA_TIME: i64 = 60;

/// The player's pose after one damage event has been applied to it.
pub open spec fn hit_one(p: Player, ev: Event) -> Player {
    match ev {
        Event::EnemyAttack(damage) => Player {
            pain: true,
            life: if damage >= p.life {
                0u32
            } else {
                (p.life - damage) as u32
            },
            ..p
        },
        Event::GameOver => p,
    }
}

/// The player's pose after the first `n` queued events.
pub open spec fn player_after_events(p: Player, evs: Seq<Event>, n: nat) -> Player
    decreases n,
{
    if n == 0 {
        p
    } else {
        hit_one(player_after_events(p, evs, (n - 1) as nat), evs[n - 1])
    }
}

/// Whether the queue holds a game-over event among its first `n`.
pub open spec fn has_game_over(evs: Seq<Event>, n: nat) -> bool {
    exists|k: int| 0 <= k < n && evs[k] == Event::GameOver
}

/// The tick-start snapshot of every enemy's position, in enemy order.
pub open spec fn snapshot_spec(enemies: Seq<Enemy>) -> Seq<Pos> {
    Seq::new(enemies.len(), |i: int| enemies[i].pos)
}

/// The attack events the first `n` enemy updates of a pass raise, in
/// enemy order.
pub open spec fn tick_events_spec(
    enemies: Seq<Enemy>,
    player: Player,
    snap: Seq<Pos>,
    n: nat,
) -> Seq<Event>
    decreases n,
{
    if n == 0 {
        Seq::empty()
    } else {
        let prev = tick_events_spec(enemies, player, snap, (n - 1) as nat);
        match enemy_update_spec(enemies[n - 1], player, snap).1 {
            Option::None => prev,
            Option::Some(ev) => prev.push(ev),
        }
    }
}

/// How many of the first `n` enemies the player's shot lands on.
pub open spec fn shot_count_spec(
    enemies: Seq<Enemy>,
    grid: Grid,
    player: Player,
    damage: i32,
    n: nat,
) -> nat
    decreases n,
{
    if n == 0 {
        0
    } else {
        shot_count_spec(enemies, grid, player, damage, (n - 1) as nat) + if shot_result_spec(
            enemies[n - 1],
            grid,
            player,
            damage,
        ).1 {
            1nat
        } else {
            0nat
        }
    }
}

/// The billboards of those among the first `n` enemies whose sprite is
/// on screen, in enemy order.
pub open spec fn billboards_spec(enemies: Seq<Enemy>, screen_dist: int, n: nat) -> Seq<Sprite>
    decreases n,
{
    if n == 0 {
        Seq::empty()
    } else {
        let prev = billboards_spec(enemies, screen_dist, (n - 1) as nat);
        if enemy_visible_spec(enemies[n - 1]) {
            prev.push(enemy_sprite_spec(enemies[n - 1], screen_dist))
        } else {
            prev
        }
    }
}

/// The whole simulation: the static grid, the player, the enemies, the
/// weapon and the terminal game-over latch. The driver around it polls
/// input, hands each tick's control in, and renders the draw commands
/// handed back.
pub struct Game {
    pub grid: Grid,
    pub background: Background,
    pub player: Player,
    pub enemies: Vec<Enemy>,
    pub weapon: Weapon,
    pub is_over: bool,
    pub screen_dist: i64,
}

impl Game {
    pub open spec fn wf(&self) -> bool {
        &&& self.grid.wf()
        &&& self.player.wf()
        &&& self.weapon.wf()
        &&& self.weapon.damage >= 0
        &&& 0 <= self.screen_dist <= 2000 * FP_ONE
        &&& forall|i: int| 0 <= i < self.enemies@.len() ==> (#[trigger] self.enemies@[i]).wf()
    }

    /// Sets up the standard scene: the fixed level, the player at the
    /// start pose, the weapon, and one soldier at cell (10.5, 3.5)
    /// with one hundred life dealing five damage.
    pub fn new(
        shooting_refs: Vec<TextureRef>,
        reload_refs: Vec<TextureRef>,
        walking_refs: Vec<TextureRef>,
        soldier_shooting_refs: Vec<TextureRef>,
        soldier_pain_refs: Vec<TextureRef>,
        soldier_dying_refs: Vec<TextureRef>,
    ) -> (r: Game)
        requires
            shooting_refs@.len() > 0,
            reload_refs@.len() > 0,
            walking_refs@.len() > 0,
            soldier_shooting_refs@.len() > 0,
            soldier_pain_refs@.len() > 0,
            soldier_dying_refs@.len() > 0,
            textures_ok(walking_refs@),
            textures_ok(soldier_shooting_refs@),
            textures_ok(soldier_pain_refs@),
            textures_ok(soldier_dying_refs@),
        ensures
            r.wf(),
            !r.is_over,
            r.player == (Player {
                life: 100,
                pos: Pos { x: PLAYER_START_X, y: PLAYER_START_Y },
                angle: PLAYER_ANGLE,
                pain: false,
                pain_count: 100,
            }),
            r.enemies@.len() == 1,
            r.enemies@[0].life == 100,
            r.enemies@[0].damage == 5,
            r.enemies@[0].pos == (Pos { x: 688128, y: 229376 }),
            !r.enemies@[0].dying && !r.enemies@[0].in_pain && !r.enemies@[0].shooting,
            r.enemies@[0].sequence.walking_textures.textures == walking_refs,
            r.enemies@[0].sequence.shooting_textures.textures == soldier_shooting_refs,
            r.enemies@[0].sequence.pain_textures.textures == soldier_pain_refs,
            r.enemies@[0].sequence.dying_textures.textures == soldier_dying_refs,
            r.enemies@[0].pathfinding.wf(r.grid),
            r.weapon.damage == 50,
            r.weapon.shoot.textures == shooting_refs,
            r.weapon.reload.textures == reload_refs,
            forall|x: int, y: int|
                in_map(x, y) ==> #[trigger] r.grid.cell_at(x, y) == level_cell(x, y),
            r.screen_dist == (if screen_dist_spec() > 2000 * FP_ONE {
                2000 * FP_ONE as int
            } else {
                screen_dist_spec()
            }),
    {
        let grid = Grid::standard();
        let background = Background {  };
        let player = Player::new_player();
        let weapon = Weapon::new(shooting_refs, reload_refs);
        let soldier_sequences = EnemySequence::new(
            walking_refs,
            soldier_shooting_refs,
            soldier_pain_refs,
            soldier_dying_refs,
        );
        let pathfinding = PathFinding::new(&grid);
        let shift: i64 = 17695;
        let scale: i64 = 45875;
        let enemy = Enemy::new(
            100,
            5,
            (688128, 229376),
            soldier_sequences,
            shift,
            scale,
            pathfinding,
        );
        let mut enemies: Vec<Enemy> = Vec::new();
        enemies.push(enemy);
        let sd = screen_dist();
        let sd = if sd > 2000 * FP_ONE {
            2000 * FP_ONE
        } else {
            sd
        };
        Game { grid, background, player, enemies, weapon, is_over: false, screen_dist: sd }
    }

    /// One simulation pass: reports game over once the player's life
    /// is out, updates every enemy against a tick-start snapshot of
    /// all enemy positions (so no enemy sees another's mid-tick move),
    /// then advances the weapon and player overlays. Returns the
    /// events the pass raised.
    pub fn update(&mut self) -> (events: Vec<Event>)
        requires
            old(self).wf(),
        ensures
            final (self).wf(),
            ({
                let snap = snapshot_spec(old(self).enemies@);
                let n = old(self).enemies@.len();
                &&& final (self).enemies@.len() == n
                &&& forall|i: int|
                    0 <= i < n ==> #[trigger] final (self).enemies@[i] == enemy_update_spec(
                        old(self).enemies@[i],
                        old(self).player,
                        snap,
                    ).0
                &&& events@ == (if old(self).player.life > 0 {
                    Seq::<Event>::empty()
                } else {
                    seq![Event::GameOver]
                }) + tick_events_spec(old(self).enemies@, old(self).player, snap, n)
                &&& final (self).player == player_update_spec(old(self).player)
                &&& final (self).weapon == weapon_update_spec(old(self).weapon)
                &&& final (self).grid == old(self).grid
                &&& final (self).is_over == old(self).is_over
                &&& final (self).screen_dist == old(self).screen_dist
            }),
    {
        let mut events: Vec<Event> = Vec::new();
        if !self.player.alive() {
            events.push(Event::GameOver);
        }
        proof {
            assert(events@ =~= (if old(self).player.life > 0 {
                Seq::<Event>::empty()
            } else {
                seq![Event::GameOver]
            }));
        }
        let mut snapshot: Vec<Pos> = Vec::new();
        let mut i: usize = 0;
        while i < self.enemies.len()
            invariant
                i <= self.enemies@.len(),
                snapshot@.len() == i,
                forall|k: int| 0 <= k < i ==> #[trigger] snapshot@[k] == self.enemies@[k].pos,
            decreases self.enemies@.len() - i,
        {
            snapshot.push(self.enemies[i].pos);
            i = i + 1;
        }
        proof {
            assert(snapshot@ =~= snapshot_spec(self.enemies@));
        }
        let ghost n0 = self.enemies@.len();
        let ghost evs0 = events@;
        let mut updated: Vec<Enemy> = Vec::new();
        while self.enemies.len() > 0
            invariant
                self.player == old(self).player,
                self.grid == old(self).grid,
                self.weapon == old(self).weapon,
                self.is_over == old(self).is_over,
                self.screen_dist == old(self).screen_dist,
                old(self).wf(),
                n0 == old(self).enemies@.len(),
                snapshot@ == snapshot_spec(old(self).enemies@),
                evs0 == (if old(self).player.life > 0 {
                    Seq::<Event>::empty()
                } else {
                    seq![Event::GameOver]
                }),
                updated@.len() + self.enemies@.len() == n0,
                forall|k: int|
                    0 <= k < self.enemies@.len() ==> (#[trigger] self.enemies@[k]) == old(
                        self,
                    ).enemies@[n0 - self.enemies@.len() + k],
                forall|k: int| 0 <= k < updated@.len() ==> (#[trigger] updated@[k]).wf(),
                forall|k: int|
                    0 <= k < updated@.len() ==> #[trigger] updated@[k] == enemy_update_spec(
                        old(self).enemies@[k],
                        old(self).player,
                        snapshot@,
                    ).0,
                events@ == evs0 + tick_events_spec(
                    old(self).enemies@,
                    old(self).player,
                    snapshot@,
                    updated@.len() as nat,
                ),
            decreases self.enemies@.len(),
        {
            let ghost idx = n0 - self.enemies@.len();
            let mut e = self.enemies.remove(0);
            proof {
                assert(e == old(self).enemies@[idx]);
            }
            let ev = e.update(&self.player, &snapshot);
            proof {
                assert((e, ev) == enemy_update_spec(
                    old(self).enemies@[idx],
                    old(self).player,
                    snapshot@,
                ));
            }
            match ev {
                Option::None => {},
                Option::Some(event) => {
                    events.push(event);
                },
            }
            updated.push(e);
            proof {
                assert(events@ =~= evs0 + tick_events_spec(
                    old(self).enemies@,
                    old(self).player,
                    snapshot@,
                    updated@.len() as nat,
                ));
            }
        }
        self.enemies = updated;
        self.weapon.update();
        self.player.update();
        events
    }

    /// Applies a pass's events: every enemy attack lands on the player
    /// in order, and a game-over event latches the terminal state.
    pub fn handle_events(&mut self, events: Vec<Event>)
        requires
            old(self).wf(),
        ensures
            final (self).wf(),
            final (self).player == player_after_events(
                old(self).player,
                events@,
                events@.len() as nat,
            ),
            final (self).is_over == (old(self).is_over || has_game_over(
                events@,
                events@.len() as nat,
            )),
            final (self).enemies == old(self).enemies,
    {
        let mut i: usize = 0;
        while i < events.len()
            invariant
                i <= events@.len(),
                self.grid == old(self).grid,
                self.weapon == old(self).weapon,
                self.enemies == old(self).enemies,
                self.screen_dist == old(self).screen_dist,
                old(self).wf(),
                self.player.wf(),
                self.player == player_after_events(old(self).player, events@, i as nat),
                self.is_over == (old(self).is_over || has_game_over(events@, i as nat)),
            decreases events@.len() - i,
        {
            let ev = events[i];
            match ev {
                Event::EnemyAttack(damage) => {
                    self.player.hit(damage);
                },
                Event::GameOver => {
                    self.is_over = true;
                },
            }
            proof {
                assert(self.player == player_after_events(
                    old(self).player,
                    events@,
                    (i + 1) as nat,
                ));
                if self.is_over && !old(self).is_over {
                    assert(has_game_over(events@, (i + 1) as nat) || has_game_over(
                        events@,
                        i as nat,
                    ) || events@[i as int] == Event::GameOver);
                }
                assert(has_game_over(events@, i as nat) ==> has_game_over(events@, (i + 1) as nat));
            }
            i = i + 1;
        }
    }

    /// Routes one polled control: arrows walk, the mouse spins the
    /// view, the trigger fires, escape quits. Returns whether the game
    /// should end, and whether the driver should recenter the mouse.
    pub fn handle_controls(&mut self, control: Option<Controlls>) -> (r: (bool, bool))
        requires
            old(self).wf(),
        ensures
            final (self).wf(),
            r.0 == (control == Some(Controlls::Escape)),
            control is None || control == Some(Controlls::Escape) ==> *final (self) == *old(self)
                && !r.1,
            control == Some(Controlls::ArrowUp) ==> !r.1 && *final (self) == (Game {
                player: Player {
                    pos: walk_result_spec(old(self).player, old(self).grid, Mov::North, DELTA_TIME as int),
                    ..old(self).player
                },
                ..*old(self)
            }),
            control == Some(Controlls::ArrowDown) ==> !r.1 && *final (self) == (Game {
                player: Player {
                    pos: walk_result_spec(old(self).player, old(self).grid, Mov::South, DELTA_TIME as int),
                    ..old(self).player
                },
                ..*old(self)
            }),
            control == Some(Controlls::ArrowLeft) ==> !r.1 && *final (self) == (Game {
                player: Player {
                    pos: walk_result_spec(old(self).player, old(self).grid, Mov::West, DELTA_TIME as int),
                    ..old(self).player
                },
                ..*old(self)
            }),
            control == Some(Controlls::ArrowRight) ==> !r.1 && *final (self) == (Game {
                player: Player {
                    pos: walk_result_spec(old(self).player, old(self).grid, Mov::East, DELTA_TIME as int),
                    ..old(self).player
                },
                ..*old(self)
            }),
            (control matches Some(Controlls::Spin(x, xrel)) ==> r.1 == (x < MOUSE_BORDER_LEFT || x
                > MOUSE_BORDER_RIGHT) && *final (self) == (Game {
                player: Player {
                    angle: crate::components::player::spin_spec(
                        old(self).player.angle as int,
                        (if xrel < -MOUSE_MAX_REL {
                            -MOUSE_MAX_REL as int
                        } else if xrel > MOUSE_MAX_REL {
                            MOUSE_MAX_REL as int
                        } else {
                            xrel as int
                        }) * MOUSE_SENSITIVITY * DELTA_TIME,
                    ) as i64,
                    ..old(self).player
                },
                ..*old(self)
            })),
            control == Some(Controlls::Enter) ==> !r.1 && final (self).weapon == (Weapon {
                state: WeaponState::Shooting,
                ..old(self).weapon
            }) && final (self).enemies@.len() == old(self).enemies@.len() && (forall|i: int|
                0 <= i < old(self).enemies@.len() ==> #[trigger] final (self).enemies@[i]
                    == shot_result_spec(
                    old(self).enemies@[i],
                    old(self).grid,
                    old(self).player,
                    old(self).weapon.damage,
                ).0) && final (self).player == old(self).player && final (self).grid == old(
                self,
            ).grid && final (self).is_over == old(self).is_over,
    {
        match control {
            Option::Some(c) => match c {
                Controlls::Escape => (true, false),
                Controlls::ArrowUp => {
                    self.player.walk(&self.grid, Mov::North, DELTA_TIME);
                    (false, false)
                },
                Controlls::ArrowDown => {
                    self.player.walk(&self.grid, Mov::South, DELTA_TIME);
                    (false, false)
                },
                Controlls::ArrowLeft => {
                    self.player.walk(&self.grid, Mov::West, DELTA_TIME);
                    (false, false)
                },
                Controlls::ArrowRight => {
                    self.player.walk(&self.grid, Mov::East, DELTA_TIME);
                    (false, false)
                },
                Controlls::Spin(x, xrel) => {
                    let recenter = self.spin_camera(x, xrel);
                    (false, recenter)
                },
                Controlls::Enter => {
                    self.shoot();
                    (false, false)
                },
            },
            Option::None => (false, false),
        }
    }

    /// Turns the view by a clamped mouse movement; reports whether the
    /// cursor ran past the screen border and should be recentered.
    pub fn spin_camera(&mut self, x: i32, xrel: i32) -> (recenter: bool)
        requires
            old(self).wf(),
        ensures
            final (self).wf(),
            recenter == (x < MOUSE_BORDER_LEFT || x > MOUSE_BORDER_RIGHT),
            ({
                let rel = if xrel < -MOUSE_MAX_REL {
                    -MOUSE_MAX_REL as int
                } else if xrel > MOUSE_MAX_REL {
                    MOUSE_MAX_REL as int
                } else {
                    xrel as int
                };
                *final (self) == (Game {
                    player: Player {
                        angle: crate::components::player::spin_spec(
                            old(self).player.angle as int,
                            rel * MOUSE_SENSITIVITY * DELTA_TIME,
                        ) as i64,
                        ..old(self).player
                    },
                    ..*old(self)
                })
            }),
    {
        let recenter = x < MOUSE_BORDER_LEFT || x > MOUSE_BORDER_RIGHT;
        let rel = if xrel < -MOUSE_MAX_REL {
            -MOUSE_MAX_REL
        } else if xrel > MOUSE_MAX_REL {
            MOUSE_MAX_REL
        } else {
            xrel
        };
        self.player.spin((rel as i64) * MOUSE_SENSITIVITY * DELTA_TIME);
        recenter
    }

    /// Fires the weapon: starts its animation and resolves the shot
    /// against every living enemy, applying the weapon's damage to
    /// each one hit. Returns how many enemies the shot hurt (each of
    /// which cries out).
    pub fn shoot(&mut self) -> (hits: usize)
        requires
            old(self).wf(),
        ensures
            final (self).wf(),
            final (self).enemies@.len() == old(self).enemies@.len(),
            final (self).weapon == (Weapon { state: WeaponState::Shooting, ..old(self).weapon }),
            forall|i: int|
                0 <= i < old(self).enemies@.len() ==> #[trigger] final (self).enemies@[i]
                    == shot_result_spec(
                    old(self).enemies@[i],
                    old(self).grid,
                    old(self).player,
                    old(self).weapon.damage,
                ).0,
            hits == shot_count_spec(
                old(self).enemies@,
                old(self).grid,
                old(self).player,
                old(self).weapon.damage,
                old(self).enemies@.len(),
            ),
            final (self).player == old(self).player,
            final (self).grid == old(self).grid,
            final (self).is_over == old(self).is_over,
            final (self).screen_dist == old(self).screen_dist,
            final (self).background == old(self).background,
    {
        self.weapon.shoot();
        let ghost n0 = self.enemies@.len();
        proof {
            vstd::std_specs::vec::axiom_spec_len(&self.enemies);
        }
        let ghost w1 = self.weapon;
        let mut hits: usize = 0;
        let mut updated: Vec<Enemy> = Vec::new();
        while self.enemies.len() > 0
            invariant
                self.player == old(self).player,
                self.grid == old(self).grid,
                self.weapon == w1,
                w1 == (Weapon { state: WeaponState::Shooting, ..old(self).weapon }),
                self.weapon.wf(),
                self.is_over == old(self).is_over,
                self.screen_dist == old(self).screen_dist,
                old(self).wf(),
                n0 == old(self).enemies@.len(),
                n0 <= usize::MAX,
                self.weapon.damage >= 0,
                self.background == old(self).background,
                updated@.len() + self.enemies@.len() == n0,
                hits <= updated@.len(),
                hits == shot_count_spec(
                    old(self).enemies@,
                    old(self).grid,
                    old(self).player,
                    old(self).weapon.damage,
                    updated@.len() as nat,
                ),
                forall|k: int|
                    0 <= k < self.enemies@.len() ==> (#[trigger] self.enemies@[k]) == old(
                        self,
                    ).enemies@[n0 - self.enemies@.len() + k],
                forall|k: int| 0 <= k < updated@.len() ==> (#[trigger] updated@[k]).wf(),
                forall|k: int|
                    0 <= k < updated@.len() ==> #[trigger] updated@[k] == shot_result_spec(
                        old(self).enemies@[k],
                        old(self).grid,
                        old(self).player,
                        old(self).weapon.damage,
                    ).0,
            decreases self.enemies@.len(),
        {
            let ghost idx = n0 - self.enemies@.len();
            let mut e = self.enemies.remove(0);
            proof {
                assert(e == old(self).enemies@[idx]);
            }
            if e.alive() {
                let landed = e.hit(&self.grid, &self.player);
                if landed {
                    e.receive_damage(self.weapon.damage());
                    hits = hits + 1;
                }
            }
            updated.push(e);
        }
        self.enemies = updated;
        hits
    }

    /// Collects the frame's draw commands: the backdrop, the player's
    /// wall columns and overlays, every visible enemy's billboard, the
    /// weapon overlay, and the game-over card once the game has ended.
    pub fn collect_sprites(&self) -> (r: Vec<Sprite>)
        requires
            self.wf(),
        ensures
            r@ == seq![Sprite::Background] + crate::components::player::viewport_spec(
                self.grid,
                self.player,
                self.screen_dist as int,
                0,
            ) + seq![Sprite::LifeCounter(self.player.life)] + (if self.player.pain {
                seq![Sprite::PainScreen]
            } else {
                Seq::<Sprite>::empty()
            }) + billboards_spec(self.enemies@, self.screen_dist as int, self.enemies@.len())
                + seq![weapon_sprite_spec(self.weapon)] + (if self.is_over {
                seq![Sprite::GameOver]
            } else {
                Seq::<Sprite>::empty()
            }),
            self.is_over ==> r@.len() > 0 && r@[r@.len() - 1] == Sprite::GameOver,
    {
        let mut sprites = self.background.get_sprites();
        let mut player_sprites = self.player.get_sprites(&self.grid, self.screen_dist);
        sprites.append(&mut player_sprites);
        let ghost base = seq![Sprite::Background] + crate::components::player::viewport_spec(
            self.grid,
            self.player,
            self.screen_dist as int,
            0,
        ) + seq![Sprite::LifeCounter(self.player.life)] + (if self.player.pain {
            seq![Sprite::PainScreen]
        } else {
            Seq::<Sprite>::empty()
        });
        proof {
            assert(sprites@ =~= base);
        }
        let mut i: usize = 0;
        while i < self.enemies.len()
            invariant
                self.wf(),
                i <= self.enemies@.len(),
                sprites@ == base + billboards_spec(
                    self.enemies@,
                    self.screen_dist as int,
                    i as nat,
                ),
            decreases self.enemies@.len() - i,
        {
            let e = &self.enemies[i];
            if e.visible() {
                let mut es = e.get_sprites(self.screen_dist);
                sprites.append(&mut es);
            }
            proof {
                assert(sprites@ =~= base + billboards_spec(
                    self.enemies@,
                    self.screen_dist as int,
                    (i + 1) as nat,
                ));
            }
            i = i + 1;
        }
        let mut ws = self.weapon.get_sprites();
        sprites.append(&mut ws);
        if self.is_over {
            sprites.push(Sprite::GameOver);
        }
        proof {
            assert(sprites@ =~= base + billboards_spec(
                self.enemies@,
                self.screen_dist as int,
                self.enemies@.len(),
            ) + seq![weapon_sprite_spec(self.weapon)] + (if self.is_over {
                seq![Sprite::GameOver]
            } else {
                Seq::<Sprite>::empty()
            }));
        }
        sprites
    }
}

} // verus!
