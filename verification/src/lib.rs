//! Subdivism: verified core logic of a voxel building game.
use vstd::prelude::*;

pub mod client;
pub mod debug_overlay;
pub mod game;
pub mod render;
pub mod settings;
pub mod ui;
pub mod text;
pub mod tools;

verus! {

} // verus!
