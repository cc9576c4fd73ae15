//! Desktop pet engine: package model, sprite-sheet slicing, animation
//! playback and the behaviour state machine that drives a pet.

pub mod app;
pub mod package;
pub mod pet;
pub mod text;
