use crate::challenge::{calculate_challenge_byte, challenge_byte_spec};
use vstd::prelude::*;

verus! {

/// The maximum depth of attempting to generate a valid PoA.
pub const MAX_DEPTH: u16 = 100;

/// The proof of a chunk of the recall transaction, in its encoded form.
#[derive(Clone, Debug)]
pub struct ChunkProof(pub Vec<u8>);

/// Type for proving the data access.
#[derive(Clone, Debug)]
pub struct Poa {
    /// The depth at which the proof was found.
    pub depth: u16,
    /// The proof of the recall transaction in its block.
    pub tx_path: Vec<Vec<u8>>,
    /// The proof of the recalled chunk in the transaction.
    pub chunk: ChunkProof,
}

/// An encoded proof of access.
pub struct OpaquePoA(pub Vec<u8>);

/// Copies a byte vector.
pub(crate) fn copy_bytes(seed: &Vec<u8>) -> (r: Vec<u8>)
    ensures
        r@ == seed@,
{
    let r = seed.clone();
    assert(r@ =~= seed@);
    r
}

/// Finds locally available data to generate a PoA: from `depth` up to
/// `MAX_DEPTH`, asks `generate_poa` for a proof of the recall byte chosen at
/// that depth, and returns the first proof it gives.
pub fn generate<F: Fn(u64, u16) -> Option<OpaquePoA>>(
    seed: Vec<u8>,
    weave_size: u64,
    depth: u16,
    generate_poa: F,
) -> (r: Option<OpaquePoA>)
    requires
        depth > 0,
        depth <= MAX_DEPTH ==> weave_size > 0,
        forall|byte: u64, d: u16| generate_poa.requires((byte, d)),
    ensures
        depth > MAX_DEPTH ==> r is None,
        r is None ==> forall|d: u16|
            depth <= d <= MAX_DEPTH ==> #[trigger] generate_poa.ensures(
                (challenge_byte_spec(seed@, weave_size, d), d),
                None::<OpaquePoA>,
            ),
        r matches Some(p) ==> exists|d: u16|
            {
                &&& depth <= d <= MAX_DEPTH
                &&& #[trigger] generate_poa.ensures(
                    (challenge_byte_spec(seed@, weave_size, d), d),
                    Some(p),
                )
                &&& forall|e: u16|
                    depth <= e < d ==> #[trigger] generate_poa.ensures(
                        (challenge_byte_spec(seed@, weave_size, e), e),
                        None::<OpaquePoA>,
                    )
            },
{
    let mut d: u16 = depth;
    while d <= MAX_DEPTH
        invariant
            depth <= d,
            d > MAX_DEPTH + 1 ==> d == depth,
            depth > 0,
            depth <= MAX_DEPTH ==> weave_size > 0,
            forall|byte: u64, e: u16| generate_poa.requires((byte, e)),
            forall|e: u16|
                depth <= e < d ==> #[trigger] generate_poa.ensures(
                    (challenge_byte_spec(seed@, weave_size, e), e),
                    None::<OpaquePoA>,
                ),
        decreases MAX_DEPTH + 1 - d,
    {
        let recall_byte: u64 = calculate_challenge_byte(copy_bytes(&seed), weave_size, d);
        let attempt = generate_poa(recall_byte, d);
        match attempt {
            Some(p) => {
                return Some(p);
            },
            None => {},
        }
        d = d + 1;
    }
    None
}

} // verus!
