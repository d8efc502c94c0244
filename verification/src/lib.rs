//! Core of a tiling window manager: the authoritative model of windows,
//! workspaces and tags, the window lifecycle handlers, the placement and
//! focus rules, and the dock avoidance computation.

pub mod geometry;
pub mod models;
pub mod window;
pub mod workspace;
pub mod helpers;
pub mod focus;
pub mod config;
pub mod manager;
pub mod window_handler;
pub mod display_event_handler;
pub mod scheduler;
pub mod laws;

use vstd::prelude::*;

verus! {

/// Errors surfaced by the manager's surroundings. I/O failures from the
/// session-startup scripts are mapped to `Io` by the embedding program.
#[derive(Clone, Copy, Debug, PartialEq, Eq, Structural)]
pub enum LeftError {
    Io,
}

} // verus!
