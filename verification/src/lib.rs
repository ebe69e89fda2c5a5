//! LinuxPal's decision logic: window classification, command and config
//! parsing, the speech bubble, sprite animation and the pet's tick machine.

pub mod text;
pub mod sprites;
pub mod ipc;
pub mod context;
pub mod control;
pub mod config;
pub mod morning;
pub mod bubble;
pub mod renderer;
pub mod menu;
pub mod llm;
pub mod player;
pub mod geometry;
pub mod pet;
pub mod roam;
pub mod tick;
pub mod events;
pub mod laws;
pub mod scene;
