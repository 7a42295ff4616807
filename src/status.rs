//! The closed set of lifecycle states a resource can be in, and the menu a
//! detail page offers for each of them.
use vstd::prelude::*;

verus! {

/// Lifecycle state of a tracked resource. Transitions between states are
/// unconstrained: any value may follow any other.
#[derive(Clone, Copy, Debug, PartialEq, Eq, Structural)]
pub enum Status {
    Created,
    Running,
    Paused,
    Stopping,
    Stopped,
    Removing,
    Exited,
    Dead,
    Configured,
    Unknown,
}

/// The family of lifecycle actions offered for a resource in a given state.
#[derive(Clone, Copy, Debug, PartialEq, Eq, Structural)]
pub enum MenuKind {
    /// Actions for a running resource (stop, restart, pause, ...).
    Running,
    /// Actions for a paused resource (resume, ...).
    Paused,
    /// Actions for a resource that is not running (start, delete, ...).
    Stopped,
}

/// Which actions menu applies to a resource in state `s`, if any.
pub open spec fn spec_menu_for_status(s: Status) -> Option<MenuKind> {
    match s {
        Status::Running => Some(MenuKind::Running),
        Status::Paused => Some(MenuKind::Paused),
        Status::Configured | Status::Created | Status::Exited | Status::Dead | Status::Stopped => Some(
            MenuKind::Stopped,
        ),
        _ => None,
    }
}

/// Picks the actions menu for a resource in state `s`. Transitional states
/// (stopping, removing) and an unknown state get no menu.
pub fn menu_for_status(s: Status) -> (r: Option<MenuKind>)
    ensures
        r == spec_menu_for_status(s),
{
    match s {
        Status::Running => Some(MenuKind::Running),
        Status::Paused => Some(MenuKind::Paused),
        Status::Configured | Status::Created | Status::Exited | Status::Dead | Status::Stopped => Some(
            MenuKind::Stopped,
        ),
        _ => None,
    }
}

} // verus!
