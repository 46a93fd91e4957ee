use doomie::components::weapon::{Weapon, WeaponState, shooting_textures, reload_textures};
use doomie::engine::{Controlls, Sprite, TextureID, digit_to_texture};
use doomie::events::Event;
use doomie::fixed::FP_ONE;
use doomie::game::Game;
use doomie::map::map::{Grid, MapObject, is_wall, get_texture, is_in_map, map_to_texture};
use doomie::map::mov::Mov;
use doomie::map::pos::Pos;
use doomie::texture::TextureRef;

fn game_frames(id: TextureID, n: usize) -> Vec<TextureRef> {
    let mut v = Vec::new();
    for _ in 0..n {
        v.push(TextureRef::new(id, 64, 65536));
    }
    v
}

fn fresh_game() -> Game {
    Game::new(
        game_frames(TextureID::WeaponShoot, 2),
        game_frames(TextureID::WeaponReload2, 3),
        game_frames(TextureID::SoldierWalking1, 4),
        game_frames(TextureID::SoldierShooting1, 2),
        game_frames(TextureID::SoldierPain, 1),
        game_frames(TextureID::SoldierDead1, 8),
    )
}

#[test]
fn the_standard_scene_comes_up_ready() {
    let g = fresh_game();
    assert!(!g.is_over);
    assert_eq!(g.player.life, 100);
    assert_eq!(g.enemies.len(), 1);
    assert_eq!(g.enemies[0].life, 100);
    assert_eq!(g.enemies[0].damage, 5);
    assert_eq!(g.screen_dist, 800 * FP_ONE);
}

#[test]
fn a_quiet_tick_raises_no_events() {
    let mut g = fresh_game();
    let events = g.update();
    assert!(events.is_empty());
    assert_eq!(g.enemies.len(), 1);
}

#[test]
fn attack_events_land_on_the_player_in_order() {
    let mut g = fresh_game();
    g.handle_events(vec![Event::EnemyAttack(30), Event::EnemyAttack(30)]);
    assert_eq!(g.player.life, 40);
    assert!(g.player.pain);
    assert!(!g.is_over);
    g.handle_events(vec![Event::EnemyAttack(90)]);
    assert_eq!(g.player.life, 0);
}

#[test]
fn a_game_over_event_latches_the_terminal_state() {
    let mut g = fresh_game();
    g.handle_events(vec![Event::GameOver]);
    assert!(g.is_over);
    g.handle_events(Vec::new());
    assert!(g.is_over);
}

#[test]
fn a_dead_player_reports_game_over_on_the_next_tick() {
    let mut g = fresh_game();
    g.handle_events(vec![Event::EnemyAttack(100)]);
    assert_eq!(g.player.life, 0);
    let events = g.update();
    assert!(events.len() > 0);
    assert_eq!(events[0], Event::GameOver);
}

#[test]
fn escape_quits_and_arrows_walk() {
    let mut g = fresh_game();
    let (quit, _) = g.handle_controls(Some(Controlls::Escape));
    assert!(quit);
    let x_before = g.player.pos.x;
    let (quit2, _) = g.handle_controls(Some(Controlls::ArrowUp));
    assert!(!quit2);
    // Facing east at start: one forward step of 0.24 cells.
    assert_eq!(g.player.pos.x, x_before + 15720);
    assert_eq!(g.player.pos.y, 327680);
}

#[test]
fn walking_into_a_wall_holds_position() {
    let mut g = fresh_game();
    // Face west toward the outer wall and push against it.
    g.player.angle = doomie::fixed::PI_FP;
    for _ in 0..300 {
        g.player.walk(&g.grid, Mov::North, 60);
    }
    // The pose never enters the wall column at x = 0.
    assert!(g.player.pos.x >= FP_ONE);
}

#[test]
fn mouse_spin_turns_the_view_and_reports_recentering() {
    let mut g = fresh_game();
    let recenter = g.spin_camera(50, -10);
    assert!(recenter);
    // minus 10 units of clamped movement at 20 units of sensitivity.
    assert_eq!(g.player.angle, doomie::fixed::TAU_FP - 12000);
    let recenter2 = g.spin_camera(800, 0);
    assert!(!recenter2);
}

#[test]
fn shooting_starts_the_weapon_cycle() {
    let mut g = fresh_game();
    let hits = g.shoot();
    assert!(matches!(g.weapon.state, WeaponState::Shooting));
    assert!(hits <= 1);
    assert_eq!(g.enemies.len(), 1);
}

#[test]
fn weapon_runs_shoot_then_reload_then_idles() {
    let mut w = Weapon::new(
        game_frames(TextureID::WeaponShoot, 2),
        game_frames(TextureID::WeaponReload2, 3),
    );
    assert_eq!(w.damage(), 50);
    w.shoot();
    let mut saw_reload = false;
    let mut ticks = 0;
    while !matches!(w.state, WeaponState::Idle) && ticks < 2000 {
        w.update();
        if matches!(w.state, WeaponState::Reloading) {
            saw_reload = true;
        }
        ticks += 1;
    }
    assert!(saw_reload);
    assert!(matches!(w.state, WeaponState::Idle));
}

#[test]
fn frame_collection_layers_the_scene() {
    let mut g = fresh_game();
    let sprites = g.collect_sprites();
    assert_eq!(sprites[0], Sprite::Background);
    assert!(sprites.iter().any(|s| matches!(s, Sprite::Column(_, _, _, _, _))));
    assert!(sprites.iter().any(|s| matches!(s, Sprite::LifeCounter(100))));
    assert!(sprites.iter().any(|s| matches!(s, Sprite::DrawWeapon(_))));
    g.is_over = true;
    let over = g.collect_sprites();
    assert_eq!(over[over.len() - 1], Sprite::GameOver);
}

#[test]
fn depth_keys_order_background_behind_and_overlays_in_front() {
    let column = Sprite::Column(5 * FP_ONE, TextureID::Wall, 3, 0, 100);
    assert!(Sprite::Background.z_order() > column.z_order());
    assert!(column.z_order() > Sprite::DrawWeapon(TextureID::WeaponIdle).z_order());
    assert!(column.z_order() > Sprite::PainScreen.z_order());
    assert!(column.z_order() > Sprite::GameOver.z_order());
    assert!(column.z_order() > Sprite::LifeCounter(7).z_order());
}

#[test]
fn animation_frame_lists_are_fixed() {
    assert_eq!(
        shooting_textures(),
        vec![TextureID::WeaponShoot, TextureID::WeaponReload1]
    );
    assert_eq!(
        reload_textures(),
        vec![TextureID::WeaponReload2, TextureID::WeaponReload3, TextureID::WeaponReload4]
    );
    assert_eq!(doomie::soldier::soldier_dying().len(), 8);
    assert_eq!(doomie::soldier::soldier_walking()[0], TextureID::SoldierWalking1);
    assert_eq!(doomie::soldier::soldier_pain(), vec![TextureID::SoldierPain]);
    assert_eq!(doomie::soldier::soldier_shooting().len(), 2);
}

#[test]
fn digits_map_to_their_textures() {
    assert_eq!(digit_to_texture('0'), TextureID::Zero);
    assert_eq!(digit_to_texture('7'), TextureID::Seven);
    assert_eq!(digit_to_texture('9'), TextureID::Nine);
    assert_eq!(digit_to_texture('x'), TextureID::Zero);
}

#[test]
fn grid_queries_fail_soft_at_the_borders() {
    let grid = Grid::standard();
    assert!(is_wall(&grid, Pos::new(0, 0)));
    assert!(!is_wall(&grid, Pos::new(98304, 98304)));
    // Off the map nothing counts as a wall and no material comes back.
    assert!(!is_wall(&grid, Pos::new(30 * FP_ONE, 30 * FP_ONE)));
    assert_eq!(get_texture(&grid, Pos::new(30 * FP_ONE, 30 * FP_ONE)), None);
    assert_eq!(get_texture(&grid, Pos::new(0, 0)), Some(MapObject::W));
    assert!(is_in_map(0, 0));
    assert!(is_in_map(15, 8));
    assert!(!is_in_map(16, 0));
    assert!(!is_in_map(0, 9));
    assert!(!is_in_map(-1, 0));
    assert_eq!(map_to_texture(MapObject::B), TextureID::Wall);
}

#[test]
fn the_viewport_paints_a_column_per_striking_ray() {
    let g = fresh_game();
    let rays = g.player.viewport(&g.grid, g.screen_dist);
    // Every screen band casts a ray, and on the enclosed map every ray
    // strikes a wall.
    assert_eq!(rays.len(), 800);
    for s in rays.iter() {
        match s {
            Sprite::Column(depth, texture, _, offset, height) => {
                assert!(*depth > 0);
                assert_eq!(*texture, TextureID::Wall);
                assert!(*offset >= 0 && *offset <= FP_ONE);
                assert!(*height >= 0);
            }
            _ => panic!("the viewport paints only wall columns"),
        }
    }
}

#[test]
fn an_adjacent_soldier_fells_the_player_over_time() {
    let mut g = fresh_game();
    // Drop the soldier right next to the player.
    g.enemies[0].pos = Pos::new(2 * FP_ONE + FP_ONE / 2, 5 * FP_ONE + FP_ONE / 2);
    let mut total_damage = 0u32;
    for _ in 0..8000 {
        let events = g.update();
        for e in events.iter() {
            if let Event::EnemyAttack(d) = e {
                total_damage += d;
            }
        }
        g.handle_events(events);
        if !g.player.alive() {
            break;
        }
    }
    assert!(total_damage >= 100);
    assert_eq!(g.player.life, 0);
    let last = g.update();
    g.handle_events(last);
    assert!(g.is_over);
}
