//! Reference hook implementations.

pub mod opcount;
