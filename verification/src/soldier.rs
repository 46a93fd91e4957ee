use crate::engine::TextureID;
use vstd::prelude::*;

verus! {

/// The soldier's death animation frames, in order.
pub fn soldier_dying() -> (r: Vec<TextureID>)
    ensures
        r@ == seq![
            TextureID::SoldierDead1,
            TextureID::SoldierDead2,
            TextureID::SoldierDead3,
            TextureID::SoldierDead4,
            TextureID::SoldierDead5,
            TextureID::SoldierDead6,
            TextureID::SoldierDead7,
            TextureID::SoldierDead8,
        ],
{
    let mut v: Vec<TextureID> = Vec::new();
    v.push(TextureID::SoldierDead1);
    v.push(TextureID::SoldierDead2);
    v.push(TextureID::SoldierDead3);
    v.push(TextureID::SoldierDead4);
    v.push(TextureID::SoldierDead5);
    v.push(TextureID::SoldierDead6);
    v.push(TextureID::SoldierDead7);
    v.push(TextureID::SoldierDead8);
    proof {
        assert(v@ =~= seq![
            TextureID::SoldierDead1,
            TextureID::SoldierDead2,
            TextureID::SoldierDead3,
            TextureID::SoldierDead4,
            TextureID::SoldierDead5,
            TextureID::SoldierDead6,
            TextureID::SoldierDead7,
            TextureID::SoldierDead8,
        ]);
    }
    v
}

/// The soldier's single pain frame.
pub fn soldier_pain() -> (r: Vec<TextureID>)
    ensures
        r@ == seq![TextureID::SoldierPain],
{
    let mut v: Vec<TextureID> = Vec::new();
    v.push(TextureID::SoldierPain);
    proof {
        assert(v@ =~= seq![TextureID::SoldierPain]);
    }
    v
}

/// The soldier's walking animation frames, in order.
pub fn soldier_walking() -> (r: Vec<TextureID>)
    ensures
        r@ == seq![
            TextureID::SoldierWalking1,
            TextureID::SoldierWalking2,
            TextureID::SoldierWalking3,
            TextureID::SoldierWalking4,
        ],
{
    let mut v: Vec<TextureID> = Vec::new();
    v.push(TextureID::SoldierWalking1);
    v.push(TextureID::SoldierWalking2);
    v.push(TextureID::SoldierWalking3);
    v.push(TextureID::SoldierWalking4);
    proof {
        assert(v@ =~= seq![
            TextureID::SoldierWalking1,
            TextureID::SoldierWalking2,
            TextureID::SoldierWalking3,
            TextureID::SoldierWalking4,
        ]);
    }
    v
}

/// The soldier's shooting animation frames, in order.
pub fn soldier_shooting() -> (r: Vec<TextureID>)
    ensures
        r@ == seq![TextureID::SoldierShooting1, TextureID::SoldierShooting2],
{
    let mut v: Vec<TextureID> = Vec::new();
    v.push(TextureID::SoldierShooting1);
    v.push(TextureID::SoldierShooting2);
    proof {
        assert(v@ =~= seq![TextureID::SoldierShooting1, TextureID::SoldierShooting2]);
    }
    v
}

} // verus!
