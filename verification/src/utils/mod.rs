pub mod camera;
pub mod raycast;
pub mod registry;
pub mod shared_map;
pub mod texture;
