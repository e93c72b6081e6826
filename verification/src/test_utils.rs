//! Helpers for exercising the pool without a chain behind it.

pub mod mock;
