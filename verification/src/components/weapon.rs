use crate::conf::FPS;
use crate::engine::{Sprite, TextureID};
use crate::sequence::{Sequence, next_spec};
use crate::texture::TextureRef;
use vstd::prelude::*;

verus! {

/// What the player's weapon is doing this tick.
#[derive(Clone, Copy, PartialEq, Eq, Structural, Debug)]
pub enum WeaponState {
    Idle,
    Shooting,
    Reloading,
}

/// The player's weapon: a damage value and a small state machine that
/// plays the shoot animation, then the reload animation, then idles.
pub struct Weapon {
    pub damage: i32,
    pub state: WeaponState,
    pub idle: TextureID,
    pub shoot: Sequence,
    pub reload: Sequence,
}

/// One weapon tick as a value: the shoot animation runs to its last
/// frame, hands over to the reload animation, which runs to its last
/// frame and returns the weapon to idle.
pub open spec fn weapon_update_spec(w: Weapon) -> Weapon {
    match w.state {
        WeaponState::Idle => w,
        WeaponState::Shooting => if w.shoot.last_frame_spec() {
            Weapon {
                state: WeaponState::Reloading,
                shoot: Sequence {
                    current_texture: 0,
                    animation_count: 0,
                    blocked: false,
                    ..w.shoot
                },
                ..w
            }
        } else {
            Weapon { shoot: next_spec(w.shoot), ..w }
        },
        WeaponState::Reloading => if w.reload.last_frame_spec() {
            Weapon {
                state: WeaponState::Idle,
                reload: Sequence {
                    current_texture: 0,
                    animation_count: 0,
                    blocked: false,
                    ..w.reload
                },
                ..w
            }
        } else {
            Weapon { reload: next_spec(w.reload), ..w }
        },
    }
}

/// The overlay sprite the weapon shows: its idle image, or the current
/// frame of whichever animation is running.
pub open spec fn weapon_sprite_spec(w: Weapon) -> Sprite {
    Sprite::DrawWeapon(
        match w.state {
            WeaponState::Idle => w.idle,
            WeaponState::Shooting => w.shoot.textures@[w.shoot.current_texture as int].id,
            WeaponState::Reloading => w.reload.textures@[w.reload.current_texture as int].id,
        },
    )
}

impl Weapon {
    pub open spec fn wf(&self) -> bool {
        &&& self.shoot.wf()
        &&& self.reload.wf()
    }

    /// A fresh idle weapon with the standard damage and animations.
    pub fn new(shooting_vec: Vec<TextureRef>, reload_vec: Vec<TextureRef>) -> (r: Weapon)
        requires
            shooting_vec@.len() > 0,
            reload_vec@.len() > 0,
        ensures
            r.wf(),
            r.damage == 50,
            r.state == WeaponState::Idle,
            r.idle == TextureID::WeaponIdle,
            r.shoot.textures == shooting_vec,
            r.reload.textures == reload_vec,
    {
        Weapon {
            damage: 50,
            state: WeaponState::Idle,
            idle: TextureID::WeaponIdle,
            shoot: Sequence::new(shooting_vec, FPS + 30),
            reload: Sequence::new(reload_vec, FPS + 30),
        }
    }

    /// The damage one shot deals.
    pub fn damage(&self) -> (r: i32)
        ensures
            r == self.damage,
    {
        self.damage
    }

    /// Starts the shot animation cycle.
    pub fn shoot(&mut self)
        ensures
            *final (self) == (Weapon { state: WeaponState::Shooting, ..*old(self) }),
    {
        self.state = WeaponState::Shooting;
    }

    /// One animation tick: the shoot animation runs to its last frame,
    /// hands over to the reload animation, which runs to its last
    /// frame and returns the weapon to idle.
    pub fn update(&mut self)
        requires
            old(self).wf(),
        ensures
            final (self).wf(),
            *final (self) == weapon_update_spec(*old(self)),
    {
        match self.state {
            WeaponState::Idle => {},
            WeaponState::Shooting => {
                if self.shoot.last_frame() {
                    self.state = WeaponState::Reloading;
                    self.shoot.reset();
                } else {
                    self.shoot.next();
                }
            },
            WeaponState::Reloading => {
                if self.reload.last_frame() {
                    self.state = WeaponState::Idle;
                    self.reload.reset();
                } else {
                    self.reload.next();
                }
            },
        }
    }

    /// The one overlay sprite the weapon contributes to a frame.
    pub fn get_sprites(&self) -> (r: Vec<Sprite>)
        requires
            self.wf(),
        ensures
            r@.len() == 1,
            r@[0] == weapon_sprite_spec(*self),
    {
        let object = match self.state {
            WeaponState::Idle => self.idle,
            WeaponState::Shooting => self.shoot.get_texture_id(),
            WeaponState::Reloading => self.reload.get_texture_id(),
        };
        let mut v: Vec<Sprite> = Vec::new();
        v.push(Sprite::DrawWeapon(object));
        v
    }
}

/// The texture ids of the shot animation, in frame order.
pub fn shooting_textures() -> (r: Vec<TextureID>)
    ensures
        r@ == seq![TextureID::WeaponShoot, TextureID::WeaponReload1],
{
    let mut v: Vec<TextureID> = Vec::new();
    v.push(TextureID::WeaponShoot);
    v.push(TextureID::WeaponReload1);
    proof {
        assert(v@ =~= seq![TextureID::WeaponShoot, TextureID::WeaponReload1]);
    }
    v
}

/// The texture ids of the reload animation, in frame order.
pub fn reload_textures() -> (r: Vec<TextureID>)
    ensures
        r@ == seq![TextureID::WeaponReload2, TextureID::WeaponReload3, TextureID::WeaponReload4],
{
    let mut v: Vec<TextureID> = Vec::new();
    v.push(TextureID::WeaponReload2);
    v.push(TextureID::WeaponReload3);
    v.push(TextureID::WeaponReload4);
    proof {
        assert(v@ =~= seq![
            TextureID::WeaponReload2,
            TextureID::WeaponReload3,
            TextureID::WeaponReload4,
        ]);
    }
    v
}

} // verus!
