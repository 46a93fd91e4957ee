use doomie::components::enemy::Enemy;
use doomie::components::player::Player;
use doomie::engine::TextureID;
use doomie::events::Event;
use doomie::fixed::FP_ONE;
use doomie::map::map::Grid;
use doomie::map::path::PathFinding;
use doomie::map::pos::{Pos, MapPos};
use doomie::sequence::EnemySequence;
use doomie::texture::TextureRef;

fn enemy_frames(id: TextureID, n: usize) -> Vec<TextureRef> {
    let mut v = Vec::new();
    for _ in 0..n {
        v.push(TextureRef::new(id, 64, 65536));
    }
    v
}

fn soldier_at(grid: &Grid, x: i64, y: i64) -> Enemy {
    let sequences = EnemySequence::new(
        enemy_frames(TextureID::SoldierWalking1, 4),
        enemy_frames(TextureID::SoldierShooting1, 2),
        enemy_frames(TextureID::SoldierPain, 1),
        enemy_frames(TextureID::SoldierDead1, 8),
    );
    Enemy::new(100, 5, (x, y), sequences, 17695, 45875, PathFinding::new(grid))
}

#[test]
fn two_half_hits_kill_and_play_the_death_sequence_to_its_block() {
    let grid = Grid::standard();
    // Far corner, away from the player, so nothing attacks meanwhile.
    let mut e = soldier_at(&grid, 14 * FP_ONE + FP_ONE / 2, 7 * FP_ONE + FP_ONE / 2);
    let player = Player::new_player();
    e.receive_damage(50);
    assert_eq!(e.life, 50);
    assert!(!e.dying);
    assert!(e.alive());
    e.receive_damage(50);
    assert_eq!(e.life, 0);
    assert!(e.dying);
    assert!(!e.alive());
    // The dying sequence advances tick by tick and locks on its last frame.
    let snapshot = vec![e.pos];
    let mut advanced = false;
    for _ in 0..600 {
        let ev = e.update(&player, &snapshot);
        assert_eq!(ev, None);
        if e.sequence.dying_textures.current_texture > 0 {
            advanced = true;
        }
    }
    assert!(advanced);
    assert_eq!(e.sequence.dying_textures.current_texture, 7);
    assert!(e.sequence.dying_textures.blocked);
    assert!(e.dying);
}

#[test]
fn adjacent_enemy_attacks_once_instead_of_moving() {
    let grid = Grid::standard();
    // One cell east of the player's starting cell.
    let mut e = soldier_at(&grid, 2 * FP_ONE + FP_ONE / 2, 5 * FP_ONE + FP_ONE / 2);
    let player = Player::new_player();
    let pos_before = e.pos;
    let snapshot = vec![e.pos];
    let ev = e.update(&player, &snapshot);
    assert_eq!(ev, Some(Event::EnemyAttack(5)));
    assert!(e.shooting);
    assert!(!e.moving);
    assert_eq!(e.pos, pos_before);
    // While the cooldown runs no second attack event comes out.
    let ev2 = e.update(&player, &snapshot);
    assert_eq!(ev2, None);
    assert!(e.shooting);
}

#[test]
fn far_enemy_walks_toward_the_player() {
    let grid = Grid::standard();
    let mut e = soldier_at(&grid, 10 * FP_ONE + FP_ONE / 2, 3 * FP_ONE + FP_ONE / 2);
    let player = Player::new_player();
    let before = e.pos;
    let snapshot = vec![e.pos];
    let ev = e.update(&player, &snapshot);
    assert_eq!(ev, None);
    assert!(e.moving);
    assert!(e.pos != before);
    let dx = (e.pos.x - before.x).abs();
    let dy = (e.pos.y - before.y).abs();
    assert!(dx <= 131 && dy <= 131);
}

#[test]
fn sight_within_one_cell_is_trivially_clear() {
    let grid = Grid::standard();
    let e = soldier_at(&grid, 2 * FP_ONE + FP_ONE / 2, 5 * FP_ONE + FP_ONE / 2);
    let cell = MapPos::new(1, 5);
    assert!(e.new_ray(&grid, Pos::new(98304, 327680), 0, cell, cell));
}

#[test]
fn a_wall_between_the_cells_blocks_sight() {
    let grid = Grid::standard();
    let e = soldier_at(&grid, 7 * FP_ONE + FP_ONE / 2, 3 * FP_ONE + FP_ONE / 2);
    // Player inside cell (5, 3); the brick pillar at (6, 3) stands between.
    let o = Pos::new(5 * FP_ONE + FP_ONE / 2, 3 * FP_ONE + FP_ONE / 2);
    let visible = e.new_ray(&grid, o, 0, MapPos::new(7, 3), MapPos::new(5, 3));
    assert!(!visible);
}

#[test]
fn open_floor_between_the_cells_leaves_sight_clear() {
    let grid = Grid::standard();
    let e = soldier_at(&grid, 5 * FP_ONE + FP_ONE / 2, FP_ONE + FP_ONE / 2);
    let o = Pos::new(FP_ONE + FP_ONE / 2, FP_ONE + FP_ONE / 2);
    let visible = e.new_ray(&grid, o, 0, MapPos::new(5, 1), MapPos::new(1, 1));
    assert!(visible);
}

#[test]
fn projection_straight_ahead_lands_at_screen_center() {
    let grid = Grid::standard();
    let mut e = soldier_at(&grid, 3 * FP_ONE + FP_ONE / 2, 5 * FP_ONE);
    let player = Player::new_player();
    e.update_projection(&player);
    // Two cells dead ahead: center of the ray fan, distance two cells.
    assert_eq!(e.screen_x, 800 * FP_ONE);
    assert_eq!(e.dist, 2 * FP_ONE);
    assert!(e.visible());
}

#[test]
fn crosshair_hit_marks_pain_and_off_center_misses() {
    let grid = Grid::standard();
    let player = Player::new_player();
    let mut e = soldier_at(&grid, 3 * FP_ONE + FP_ONE / 2, 5 * FP_ONE);
    e.update_projection(&player);
    assert!(e.hit(&grid, &player));
    assert!(e.in_pain);
    let mut far = soldier_at(&grid, 3 * FP_ONE + FP_ONE / 2, 5 * FP_ONE);
    far.screen_x = 0;
    assert!(!far.hit(&grid, &player));
    assert!(!far.in_pain);
}

#[test]
fn pain_clears_after_its_one_shot_sequence_completes() {
    let grid = Grid::standard();
    // Far away and boxed in mentally: we only watch the pain flag.
    let mut e = soldier_at(&grid, 14 * FP_ONE + FP_ONE / 2, 7 * FP_ONE + FP_ONE / 2);
    let player = Player::new_player();
    e.in_pain = true;
    let snapshot = vec![e.pos];
    let mut ticks = 0;
    while e.in_pain && ticks < 400 {
        e.update(&player, &snapshot);
        ticks += 1;
    }
    assert!(!e.in_pain);
    // The pain sequence holds one frame for 180 ticks before completing.
    assert!(ticks > 150);
    assert_eq!(e.sequence.pain_textures.current_texture, 0);
    assert_eq!(e.sequence.pain_textures.animation_count, 0);
}
