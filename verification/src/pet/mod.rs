pub mod animation;
pub mod instance;
pub mod state_machine;
