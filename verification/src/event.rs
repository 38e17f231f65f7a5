//! The events a windowing backend hands to the dispatch loop, already sorted
//! into the few classes the loop tells apart.

use vstd::prelude::*;

verus! {

/// Identifies the menu entry that was activated. The loop never looks inside:
/// it compares nothing and passes the identifier on to the application.
#[derive(Clone, Copy, Debug, PartialEq, Eq, Hash, Structural)]
pub struct MenuId(pub u16);

/// One event of the backend, by class. `U` is the application's own event
/// type, delivered through an event channel.
#[derive(Debug)]
pub enum Event<U> {
    /// The backend has finished initializing.
    Init,
    /// The window was asked to close.
    CloseRequested,
    /// An event of the application's own was delivered.
    User(U),
    /// A menu entry was activated.
    Menu(MenuId),
    /// Anything else the backend reports.
    Other,
}

} // verus!
