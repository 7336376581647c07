//! Small enumerations shared by the engine and its front end.

use vstd::prelude::*;

verus! {

/// The page that the front end shows.
#[derive(Debug, Clone, Copy, PartialEq, Eq, Structural)]
pub enum AppView {
    Profiles,
    Areas,
    Settings,
    Stats,
    Images,
    Running,
}

/// What the click loop is doing.
#[derive(Debug, Clone, Copy, PartialEq, Eq, Structural)]
pub enum ClickerStatus {
    Stopped,
    Running,
    Paused,
}

/// The tone of a message shown to the user.
#[derive(Debug, Clone, Copy, PartialEq, Eq, Structural)]
pub enum StatusMessageType {
    Info,
    Success,
    Warning,
    Error,
}

} // verus!
