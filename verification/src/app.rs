use vstd::prelude::*;

verus! {

/// Requests sent to the application loop (from the tray menu or a pet window).
pub enum AppMessage {
    /// Spawn a pet from the package with this index.
    SpawnPet(usize),
    /// Close every pet and leave the event loop.
    Quit,
}

} // verus!
