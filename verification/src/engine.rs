use vstd::prelude::*;

verus! {

/// Identifier of a loaded texture. Pixel data never reaches the engine
/// core: a `TextureID` is resolved to metrics and pixels by the driver.
#[derive(Clone, Copy, PartialEq, Eq, Structural, Debug, Hash)]
pub enum TextureID {
    Wall,
    WeaponIdle,
    WeaponShoot,
    SoldierPain,
    PainScreen,
    GameOver,
    Zero,
    One,
    Two,
    Three,
    Four,
    Five,
    Six,
    Seven,
    Eight,
    Nine,
    WeaponReload1,
    WeaponReload2,
    WeaponReload3,
    WeaponReload4,
    SoldierAlive1,
    SoldierAlive2,
    SoldierAlive3,
    SoldierAlive4,
    SoldierAlive5,
    SoldierAlive6,
    SoldierAlive7,
    SoldierAlive8,
    SoldierDead1,
    SoldierDead2,
    SoldierDead3,
    SoldierDead4,
    SoldierDead5,
    SoldierDead6,
    SoldierDead7,
    SoldierDead8,
    SoldierWalking1,
    SoldierWalking2,
    SoldierWalking3,
    SoldierWalking4,
    SoldierShooting1,
    SoldierShooting2,
}

/// One renderable item handed to the rendering boundary. Depth-keyed
/// variants carry a fixed-point depth; the overlay variants use sentinel
/// depths so that a plain sort by depth layers them correctly.
#[derive(Clone, Copy, PartialEq, Eq, Structural, Debug)]
pub enum Sprite {
    Background,
    PainScreen,
    GameOver,
    LifeCounter(u32),
    DrawWeapon(TextureID),
    /// depth, texture, screen column, texture offset, projected height
    Column(i64, TextureID, usize, i64, i64),
    /// depth, texture, screen x and y, projected width, projected height
    Sprite(i64, TextureID, i64, i64, i64, i64),
}

/// The depth key a draw command sorts by: walls and billboards use their
/// own depth, the background the far sentinel, overlays the near one.
pub open spec fn z_order_spec(s: Sprite) -> int {
    match s {
        Sprite::Column(z, _, _, _, _) => z as int,
        Sprite::Sprite(z, _, _, _, _, _) => z as int,
        Sprite::Background => i64::MAX as int,
        Sprite::DrawWeapon(_) => i64::MIN as int,
        Sprite::PainScreen => i64::MIN as int,
        Sprite::LifeCounter(_) => i64::MIN as int,
        Sprite::GameOver => i64::MIN as int,
    }
}

impl Sprite {
    /// The depth key used for back-to-front ordering at render time.
    pub fn z_order(&self) -> (r: i64)
        ensures
            r == z_order_spec(*self),
    {
        match self {
            Sprite::Column(z, _, _, _, _) => *z,
            Sprite::Sprite(z, _, _, _, _, _) => *z,
            Sprite::Background => i64::MAX,
            Sprite::DrawWeapon(_) => i64::MIN,
            Sprite::PainScreen => i64::MIN,
            Sprite::LifeCounter(_) => i64::MIN,
            Sprite::GameOver => i64::MIN,
        }
    }
}

/// The texture that renders one decimal digit of the life counter.
pub open spec fn digit_texture_spec(c: char) -> TextureID {
    match c {
        '0' => TextureID::Zero,
        '1' => TextureID::One,
        '2' => TextureID::Two,
        '3' => TextureID::Three,
        '4' => TextureID::Four,
        '5' => TextureID::Five,
        '6' => TextureID::Six,
        '7' => TextureID::Seven,
        '8' => TextureID::Eight,
        '9' => TextureID::Nine,
        _ => TextureID::Zero,
    }
}

/// Maps a decimal digit to its texture; anything that is not a digit
/// falls back to the zero texture.
pub fn digit_to_texture(c: char) -> (r: TextureID)
    ensures
        r == digit_texture_spec(c),
{
    match c {
        '0' => TextureID::Zero,
        '1' => TextureID::One,
        '2' => TextureID::Two,
        '3' => TextureID::Three,
        '4' => TextureID::Four,
        '5' => TextureID::Five,
        '6' => TextureID::Six,
        '7' => TextureID::Seven,
        '8' => TextureID::Eight,
        '9' => TextureID::Nine,
        _ => TextureID::Zero,
    }
}

/// One input event handed in by the driver, at most one per tick.
#[derive(Clone, Copy, PartialEq, Eq, Structural, Debug)]
pub enum Controlls {
    ArrowUp,
    ArrowDown,
    ArrowLeft,
    ArrowRight,
    Enter,
    Escape,
    /// mouse x position and relative x movement
    Spin(i32, i32),
}

} // verus!
