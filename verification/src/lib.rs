//! A cooperative host for a coroutine-based guest scripting engine: the task
//! executor and its timer reactor, the bridge from guest coroutines to tasks,
//! and the module loader, each as verified decision logic over plain values.

pub mod bytes;
pub mod globals;
pub mod libs;
pub mod luau;
pub mod runtime;
