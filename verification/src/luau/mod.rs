//! The host's model of the guest engine's values, stacks and threads.

pub mod compiler;
pub mod extra;
pub mod ffi;
pub mod root;
pub mod stack;
pub mod thread;
pub mod userdata;

pub use compiler::Bytecode;
pub use compiler::Compiler;
pub use extra::CoroStatus;
pub use extra::FnReturn;
pub use extra::Status;
pub use extra::Type;
pub use root::Context;
pub use root::Main;
pub use stack::Stack;
pub use stack::Value;
pub use thread::Thread;
pub use userdata::new_tag;

use vstd::prelude::*;

verus! {

/// The pseudo-index of the registry table.
pub const REGISTRY_IDX: i32 = ffi::LUA_REGISTRYINDEX;

} // verus!
