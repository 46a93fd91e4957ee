pub mod components;
pub mod conf;
pub mod engine;
pub mod events;
pub mod fixed;
pub mod game;
pub mod map;
pub mod sequence;
pub mod soldier;
pub mod texture;
