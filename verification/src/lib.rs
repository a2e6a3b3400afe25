//! Wallpaper management logic: configuration, backend detection,
//! output discovery and command planning.
use vstd::prelude::*;

pub mod backend;
pub mod cli;
pub mod commands;
pub mod config;
pub mod daemon;
pub mod failure;
pub mod media;
pub mod monitors;
pub mod paths;
pub mod state;
pub mod text;
pub mod themes;

verus! {

} // verus!
