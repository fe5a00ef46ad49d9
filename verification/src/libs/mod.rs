//! Libraries that guest code can ask for.

pub mod fs;
