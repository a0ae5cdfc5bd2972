pub mod fx;
pub mod camera;
pub mod color;
pub mod hittables;
pub mod material;
pub mod math;
pub mod rng;
pub mod texture;
