pub mod mesh;
pub mod ui;
pub mod utils;
