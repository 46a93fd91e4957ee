use crate::engine::TextureID;
use vstd::prelude::*;

verus! {

/// A texture identifier together with the metrics the projection math
/// needs: the pixel width and the width-over-height ratio in
/// fixed-point. The driver resolves ids to these at load time; pixel
/// data never enters the engine.
#[derive(Clone, Copy, PartialEq, Eq, Structural, Debug)]
pub struct TextureRef {
    pub id: TextureID,
    pub width: u32,
    pub ratio: i64,
}

impl TextureRef {
    pub fn new(id: TextureID, width: u32, ratio: i64) -> (r: TextureRef)
        ensures
            r.id == id,
            r.width == width,
            r.ratio == ratio,
    {
        TextureRef { id, width, ratio }
    }

    pub fn id(&self) -> (r: TextureID)
        ensures
            r == self.id,
    {
        self.id
    }

    pub fn width(&self) -> (r: u32)
        ensures
            r == self.width,
    {
        self.width
    }

    /// Width over height, scaled by `FP_ONE`.
    pub fn ratio(&self) -> (r: i64)
        ensures
            r == self.ratio,
    {
        self.ratio
    }
}

} // verus!
