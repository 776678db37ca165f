//! Script tooling and engine core for a visual-novel runtime.
//!
//! The library parses the game's scripts (`.asb` binaries, `.iet` event
//! scripts, the Lua configuration), maps them to engine commands, runs them
//! through a script engine with labels, calls, flags and choices, and keeps
//! the data that the runtime needs around them: asset packs, save slots,
//! settings, the gallery and the event-view animations.
use vstd::prelude::*;

pub mod text;
pub mod strmap;
pub mod number;
pub mod script;
pub mod iet;
pub mod asb;
pub mod lua_config;
pub mod mapper;
pub mod view_data;
pub mod runner;
pub mod pak;
pub mod asset_source;
pub mod after_story;
pub mod restore;
pub mod view_phase;
pub mod settings;
pub mod auto_skip;
pub mod audio;
pub mod sprites;
pub mod gallery;
pub mod obj_index;
pub mod save;

verus! {
} // verus!
