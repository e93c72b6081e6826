//! Primitive value types shared by the whole crate: amounts, identifiers,
//! accounts and small helpers.

pub mod account;
pub mod block;
pub mod signed;
pub mod transaction;
pub mod types;
pub mod utils;
