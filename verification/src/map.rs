pub mod path;
pub mod map;
pub mod raycasting;
pub mod traverse;
pub mod mov;
pub mod pos;
