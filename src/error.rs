use vstd::prelude::*;

verus! {

/// What can go wrong while asking the compositor about workspaces or
/// handing it commands.
#[derive(Debug, PartialEq, Eq)]
pub enum SwayWsError {
    /// The exchange with the compositor itself failed (disconnected socket,
    /// reply that could not be read).
    Transport(String),
    /// The compositor ran the batch and rejected a sub-command; holds its
    /// message for the first rejected one.
    CommandRejected(String),
    /// No workspace of the snapshot carries the focused flag.
    NoFocusedWorkspace,
    /// The focused workspace's output holds no workspace.
    EmptyOutput,
    /// There is no output left to pick.
    NoOutputAvailable,
}

} // verus!
