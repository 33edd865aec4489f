use vstd::bytes::{spec_u64_from_le_bytes, u64_from_le_bytes};
use vstd::prelude::*;

verus! {

/// What `sp_io::hashing::blake2_256` returns for `data`.
pub uninterp spec fn blake2_256_of(data: Seq<u8>) -> Seq<u8>;

/// Calls `sp_io::hashing::blake2_256`, the 32-byte BLAKE2b digest of `data`.
/// Claimed: the result depends on `data` alone and is named `blake2_256_of(data)`.
#[verifier::external_body]
fn blake2_256(data: &[u8]) -> (r: [u8; 32])
    ensures
        r@ == blake2_256_of(data@),
{
    sp_io::hashing::blake2_256(data)
}

/// `seed` hashed `n` times (at least once).
pub open spec fn multihash_spec(seed: Seq<u8>, n: nat) -> Seq<u8>
    decreases n,
{
    if n <= 1 {
        blake2_256_of(seed)
    } else {
        blake2_256_of(multihash_spec(seed, (n - 1) as nat))
    }
}

/// Hashing once is the BLAKE2b-256 digest of the whole seed, for every seed.
pub proof fn lemma_multihash_once(seed: Seq<u8>)
    ensures
        multihash_spec(seed, 1) == blake2_256_of(seed),
{
}

/// Hashing twice is hashing the digest of the whole seed once more.
pub proof fn lemma_multihash_twice(seed: Seq<u8>)
    ensures
        multihash_spec(seed, 2) == blake2_256_of(blake2_256_of(seed)),
{
    lemma_multihash_once(seed);
}

/// Hashing `n + 1` times is hashing the result of hashing `n` times once more.
pub proof fn lemma_multihash_step(seed: Seq<u8>, n: nat)
    requires
        n >= 1,
    ensures
        multihash_spec(seed, n + 1) == blake2_256_of(multihash_spec(seed, n)),
{
}

/// Applies the hashing on `seed` for `n` times.
pub fn multihash(seed: Vec<u8>, n: u16) -> (r: [u8; 32])
    requires
        n > 0,
    ensures
        r@ == multihash_spec(seed@, n as nat),
        n == 1 ==> r@ == blake2_256_of(seed@),
        n > 1 ==> r@ == blake2_256_of(multihash_spec(seed@, (n - 1) as nat)),
{
    let mut r = blake2_256(seed.as_slice());
    let mut i: u16 = 1;
    while i < n
        invariant
            1 <= i <= n,
            r@ == multihash_spec(seed@, i as nat),
        decreases n - i,
    {
        r = blake2_256(r.as_slice());
        i = i + 1;
    }
    r
}

/// The first eight bytes of a digest.
pub fn make_bytes(h: [u8; 32]) -> (r: [u8; 8])
    ensures
        r@ == h@.subrange(0, 8),
{
    let r = [h[0], h[1], h[2], h[3], h[4], h[5], h[6], h[7]];
    assert(r@ =~= h@.subrange(0, 8));
    r
}

/// The recall byte chosen at `depth`: the first eight bytes of `seed` hashed
/// `depth` times, read little-endian, modulo the weave size.
pub open spec fn challenge_byte_spec(seed: Seq<u8>, weave_size: u64, depth: u16) -> u64 {
    (spec_u64_from_le_bytes(multihash_spec(seed, depth as nat).subrange(0, 8)) % weave_size) as u64
}

/// The recall byte lies inside the weave.
pub proof fn lemma_challenge_byte_in_weave(seed: Seq<u8>, weave_size: u64, depth: u16)
    requires
        weave_size > 0,
    ensures
        challenge_byte_spec(seed, weave_size, depth) < weave_size,
{
}

/// Returns the position of recall byte in the entire weave.
pub fn calculate_challenge_byte(seed: Vec<u8>, weave_size: u64, depth: u16) -> (r: u64)
    requires
        depth > 0,
        weave_size > 0,
    ensures
        r == challenge_byte_spec(seed@, weave_size, depth),
        r < weave_size,
        r == spec_u64_from_le_bytes(multihash_spec(seed@, depth as nat).subrange(0, 8))
            % weave_size,
        depth == 1 ==> r == spec_u64_from_le_bytes(blake2_256_of(seed@).subrange(0, 8))
            % weave_size,
{
    let bytes = make_bytes(multihash(seed, depth));
    u64_from_le_bytes(bytes.as_slice()) % weave_size
}

} // verus!
