use crate::engine::Sprite;
use vstd::prelude::*;

verus! {

/// The static backdrop: one draw command that paints the ceiling and
/// floor halves behind everything else.
pub struct Background {}

impl Background {
    /// The one sprite the backdrop contributes to a frame.
    pub fn get_sprites(&self) -> (r: Vec<Sprite>)
        ensures
            r@.len() == 1,
            r@[0] == Sprite::Background,
    {
        let mut v: Vec<Sprite> = Vec::new();
        v.push(Sprite::Background);
        v
    }
}

} // verus!
