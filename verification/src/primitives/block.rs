//! The slice of the block data model the pool's consumers exchange.
use vstd::prelude::*;

verus! {

/// The transactions a built block carries.
#[derive(Debug)]
pub struct BlockBody<T> {
    pub transaction: Vec<T>,
}

} // verus!
