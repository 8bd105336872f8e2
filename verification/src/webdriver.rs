//! The driver of an async browser automation session.

use vstd::prelude::*;
use crate::session::handle::SessionHandle;

verus! {

/// An async browser automation session. Connecting and quitting are remote
/// operations and live with the session's I/O; the struct itself only
/// carries the handle every command goes through.
pub struct WebDriver {
    pub handle: SessionHandle,
}

impl WebDriver {
    /// Wraps an established session handle as a driver.
    pub fn new(handle: SessionHandle) -> (r: Self)
        ensures
            r.handle == handle,
    {
        WebDriver { handle }
    }
}

} // verus!
