use poa::challenge::{calculate_challenge_byte, make_bytes, multihash};

fn hash_n(seed: &[u8], n: u16) -> [u8; 32] {
    let mut r = sp_io::hashing::blake2_256(seed);
    for _ in 1..n {
        r = sp_io::hashing::blake2_256(&r);
    }
    r
}

#[test]
fn multihash_once_is_blake2_256() {
    let expected: [u8; 32] = [
        0x0e, 0x57, 0x51, 0xc0, 0x26, 0xe5, 0x43, 0xb2, 0xe8, 0xab, 0x2e, 0xb0, 0x60, 0x99,
        0xda, 0xa1, 0xd1, 0xe5, 0xdf, 0x47, 0x77, 0x8f, 0x77, 0x87, 0xfa, 0xab, 0x45, 0xcd,
        0xf1, 0x2f, 0xe3, 0xa8,
    ];
    assert_eq!(expected, multihash(vec![], 1));
}

#[test]
fn multihash_iterates() {
    let seed = b"canyon".to_vec();
    for n in 1..6u16 {
        assert_eq!(hash_n(&seed, n), multihash(seed.clone(), n));
    }
    let once = multihash(seed.clone(), 1);
    assert_eq!(sp_io::hashing::blake2_256(&once), multihash(seed.clone(), 2));
    assert_ne!(multihash(seed.clone(), 1), multihash(seed, 2));
}

#[test]
fn make_bytes_takes_the_first_eight() {
    let mut h = [0u8; 32];
    for (i, b) in h.iter_mut().enumerate() {
        *b = i as u8 + 1;
    }
    assert_eq!([1, 2, 3, 4, 5, 6, 7, 8], make_bytes(h));
}

#[test]
fn challenge_byte_is_le_prefix_modulo_weave() {
    let seed = vec![1u8, 2, 3];
    for depth in 1..4u16 {
        let h = hash_n(&seed, depth);
        let mut first = [0u8; 8];
        first.copy_from_slice(&h[..8]);
        let value = u64::from_le_bytes(first);
        for weave_size in [1u64, 2, 1000, 1 << 40, u64::MAX] {
            let r = calculate_challenge_byte(seed.clone(), weave_size, depth);
            assert_eq!(value % weave_size, r);
            assert!(r < weave_size);
        }
    }
}

#[test]
fn challenge_byte_of_weave_of_one_is_zero() {
    assert_eq!(0, calculate_challenge_byte(vec![9; 40], 1, 7));
}
