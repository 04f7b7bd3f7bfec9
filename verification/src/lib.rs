pub mod bundle;
pub mod cellset;
pub mod draw_laws;
pub mod events;
pub mod grid;
pub mod hexmap;
pub mod hud;
pub mod line;
pub mod math;
pub mod player;
pub mod rng;
pub mod scatter;
pub mod seed;
