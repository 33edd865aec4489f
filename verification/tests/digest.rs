use poa::digest::{extract_weave_size, DigestItem};
use poa::error::Error;

const POA: [u8; 4] = *b"poa_";
const BABE: [u8; 4] = *b"BABE";

#[test]
fn weave_size_missing() {
    assert!(matches!(extract_weave_size(&[], POA), Err(Error::EmptyWeaveSize)));
    let logs = vec![
        DigestItem::PreRuntime(POA, 5u64.to_le_bytes().to_vec()),
        DigestItem::Seal(POA, 5u64.to_le_bytes().to_vec()),
        DigestItem::Consensus(BABE, 5u64.to_le_bytes().to_vec()),
        DigestItem::Other(vec![1, 2, 3]),
        DigestItem::RuntimeEnvironmentUpdated,
    ];
    assert!(matches!(extract_weave_size(&logs, POA), Err(Error::EmptyWeaveSize)));
}

#[test]
fn weave_size_decoded_little_endian() {
    let logs = vec![
        DigestItem::Consensus(BABE, vec![0; 8]),
        DigestItem::Consensus(POA, vec![0x01, 0x02, 0, 0, 0, 0, 0, 0, 0xff]),
    ];
    assert!(matches!(extract_weave_size(&logs, POA), Ok(0x0201)));
    assert!(matches!(extract_weave_size(&logs, BABE), Ok(0)));
}

#[test]
fn weave_size_from_first_engine_log() {
    let logs = vec![
        DigestItem::Consensus(POA, 77u64.to_le_bytes().to_vec()),
        DigestItem::Consensus(POA, 99u64.to_le_bytes().to_vec()),
    ];
    assert!(matches!(extract_weave_size(&logs, POA), Ok(77)));
}

#[test]
fn weave_size_too_short() {
    let logs = vec![
        DigestItem::Consensus(POA, vec![1, 2, 3]),
        DigestItem::Consensus(POA, 99u64.to_le_bytes().to_vec()),
    ];
    assert!(matches!(extract_weave_size(&logs, POA), Err(Error::DecodeWeaveSizeFailed(_))));
}
