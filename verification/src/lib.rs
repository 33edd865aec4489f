//! Proof of Access: choosing the recall byte of the weave, locating the block
//! and the transaction that hold it, and the retry logic around it.

pub mod index;
pub mod challenge;
pub mod digest;
pub mod error;
pub mod poa;
pub mod builder;
pub mod weights;
