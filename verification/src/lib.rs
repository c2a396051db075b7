//! RAMP keeps Apache, MySQL and PHP running on a Windows machine.

use vstd::prelude::*;

pub mod config;
pub mod events;
pub mod executor;
pub mod format;
pub mod health;
pub mod laws;
pub mod logger;
pub mod paths;
pub mod process;
pub mod reducer;
pub mod session;
pub mod state;
pub mod storage;
pub mod text;
pub mod transitions;
pub mod ui;
pub mod winpath;

verus! {

} // verus!
