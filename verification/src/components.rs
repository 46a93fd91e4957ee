pub mod player;
pub mod enemy;
pub mod background;
pub mod weapon;
