//! Workspace helpers for a tiling compositor: the commands that focus, move
//! and rename workspaces, the resolution of "current", "prev" and "next"
//! over a snapshot of the compositor's workspaces, the choice of a second
//! output, and the folding of a command batch's outcomes into one result.

pub mod command;
pub mod error;
pub mod listing;
pub mod output;
pub mod workspace;
