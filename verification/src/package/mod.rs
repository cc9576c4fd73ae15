pub mod behavior;
pub mod loader;
pub mod manifest;
pub mod sprite;
