//! What guest code reaches as globals: the task primitives and `require`.

pub mod pending;
pub mod require;
pub mod task;
