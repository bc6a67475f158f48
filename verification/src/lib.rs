//! Launcher logic for Arknights: Endfield: launch scripts and command lines,
//! configuration merging, registry entries, manifest and archive metadata,
//! transfer bookkeeping, all with their contracts proved by Verus.

mod text;
pub mod error;
pub mod api_types;
pub mod launcher;
pub mod paths;
pub mod settings;
pub mod gpu_prefs;
pub mod guid;
pub mod optiscaler;
pub mod resources;
pub mod packindex;
pub mod diagnose;
pub mod util;
pub mod wine;
pub mod game_state;
pub mod tasks;
pub mod retry;
pub mod install_plan;
pub mod power;
pub mod extract;
pub mod mods;
pub mod diagnostics;
pub mod logging;
pub mod system;
pub mod prefix;
pub mod media;
pub mod update;
pub mod digest;
