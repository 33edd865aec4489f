use parity_scale_codec::Error as CodecError;
use vstd::prelude::*;

verus! {

/// `parity_scale_codec::Error`, carried through unread.
#[verifier::external_type_specification]
#[verifier::external_body]
pub struct ExCodecError(CodecError);

/// A block, named by its hash or by its number.
#[derive(Debug)]
pub enum BlockId {
    /// The block with this hash.
    Hash([u8; 32]),
    /// The block with this number.
    Number(u64),
}

/// Why no proof of access could be built.
#[derive(Debug)]
pub enum Error {
    /// The chain backend failed; its message.
    BlockchainError(String),
    /// The block is not in the chain.
    BlockNotFound(BlockId),
    /// The block header is not in the chain.
    HeaderNotFound(BlockId),
    /// The chunk in the recall transaction was not found.
    InvalidChunk,
    /// The weave size in the digest does not decode.
    DecodeWeaveSizeFailed(CodecError),
    /// No digest log carries the weave size.
    EmptyWeaveSize,
    /// Every depth up to the maximum was tried.
    MaxDepthReached(u16),
    /// Any other failure.
    Unknown,
}

} // verus!
