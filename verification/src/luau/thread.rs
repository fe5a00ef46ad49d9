//! Handles on guest coroutines.

use vstd::prelude::*;
use super::ffi::lua_State;

verus! {

/// A handle on one guest coroutine. Holding a handle does not keep the
/// coroutine alive: whoever will resume it later pins it in the engine first.
#[derive(Debug, Clone, Copy, PartialEq, Eq, Structural)]
pub struct Thread(pub lua_State);

impl Thread {
    /// The engine state this handle names.
    pub fn inner(&self) -> (state: lua_State)
        ensures
            state == self.0,
    {
        self.0
    }

    /// The address of the engine state this handle names.
    pub fn as_ptr(&self) -> (address: u64)
        ensures
            address == self.0.address,
    {
        self.0.address
    }
}

} // verus!
