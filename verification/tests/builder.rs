use poa::builder::{BuildAction, BuildEvent, BuildStage, PoaBuilder, RecallBlock};
use poa::challenge::calculate_challenge_byte;
use poa::digest::DigestItem;
use poa::error::{BlockId, Error};
use poa::poa::MAX_DEPTH;

const POA: [u8; 4] = *b"poa_";

fn weave_logs(size: u64) -> Vec<DigestItem> {
    vec![
        DigestItem::Other(vec![1]),
        DigestItem::Consensus(POA, size.to_le_bytes().to_vec()),
    ]
}

fn started(seed: &[u8], weave_size: u64) -> PoaBuilder {
    match PoaBuilder::start(POA, seed.to_vec(), &weave_logs(weave_size)) {
        Ok((builder, action)) => {
            assert!(matches!(action, BuildAction::FetchBlock(BlockId::Number(0))));
            builder
        }
        Err(_) => panic!("the chain head carries a weave size"),
    }
}

fn block(parent: u8, sizes: Vec<u64>) -> BuildEvent {
    BuildEvent::Block(Ok(Some(RecallBlock { parent_hash: [parent; 32], data_sizes: sizes })))
}

fn header(logs: Vec<DigestItem>) -> BuildEvent {
    BuildEvent::Header(Ok(Some(logs)))
}

#[test]
fn start_chooses_depth_one() {
    let b = started(b"head", 1000);
    assert_eq!(1, b.depth);
    assert_eq!(1000, b.weave_size);
    assert_eq!(b"head".to_vec(), b.seed);
    assert_eq!(calculate_challenge_byte(b"head".to_vec(), 1000, 1), b.recall_byte);
    assert!(matches!(b.stage, BuildStage::AwaitBlock));
}

#[test]
fn start_without_weave_size() {
    let r = PoaBuilder::start(POA, vec![1], &[DigestItem::Other(vec![])]);
    assert!(matches!(r, Err(Error::EmptyWeaveSize)));
    let r = PoaBuilder::start(POA, vec![1], &[DigestItem::Consensus(POA, vec![1, 2])]);
    assert!(matches!(r, Err(Error::DecodeWeaveSizeFailed(_))));
}

#[test]
fn chain_errors_end_the_search() {
    let mut b = started(b"x", 10);
    let a = b.step(BuildEvent::Block(Err("backend down".to_string())));
    assert!(matches!(a, BuildAction::Fail(Error::BlockchainError(ref m)) if m == "backend down"));
    assert!(matches!(b.stage, BuildStage::Finished));

    let mut b = started(b"x", 10);
    let a = b.step(BuildEvent::Block(Ok(None)));
    assert!(matches!(a, BuildAction::Fail(Error::BlockNotFound(BlockId::Number(0)))));

    let mut b = started(b"x", 10);
    let a = b.step(block(7, vec![1]));
    assert!(matches!(a, BuildAction::FetchHeader(BlockId::Hash(h)) if h == [7; 32]));
    let a = b.step(BuildEvent::Header(Ok(None)));
    assert!(matches!(a, BuildAction::Fail(Error::HeaderNotFound(BlockId::Hash(h))) if h == [7; 32]));

    let mut b = started(b"x", 10);
    b.step(block(7, vec![1]));
    let a = b.step(BuildEvent::Header(Err("gone".to_string())));
    assert!(matches!(a, BuildAction::Fail(Error::BlockchainError(ref m)) if m == "gone"));

    let mut b = started(b"x", 10);
    b.step(block(7, vec![1]));
    let a = b.step(header(vec![DigestItem::Seal(POA, vec![0; 8])]));
    assert!(matches!(a, BuildAction::Fail(Error::EmptyWeaveSize)));
}

#[test]
fn empty_recall_block_moves_to_next_depth() {
    let mut b = started(b"seed", 500);
    b.step(block(1, vec![0, 0]));
    let a = b.step(header(weave_logs(0)));
    assert!(matches!(a, BuildAction::FetchBlock(BlockId::Number(0))));
    assert_eq!(2, b.depth);
    assert_eq!(calculate_challenge_byte(b"seed".to_vec(), 500, 2), b.recall_byte);
    assert!(matches!(b.stage, BuildStage::AwaitBlock));
}

#[test]
fn max_depth_reached() {
    let mut b = started(b"seed", 500);
    for depth in 1..MAX_DEPTH {
        assert_eq!(depth, b.depth);
        b.step(block(1, vec![]));
        let a = b.step(header(weave_logs(3)));
        assert!(matches!(a, BuildAction::FetchBlock(BlockId::Number(0))));
    }
    assert_eq!(MAX_DEPTH, b.depth);
    b.step(block(1, vec![0]));
    let a = b.step(header(weave_logs(3)));
    assert!(matches!(a, BuildAction::Fail(Error::MaxDepthReached(100))));
    assert!(matches!(b.stage, BuildStage::Finished));
}

#[test]
fn recall_tx_found() {
    let seed = b"chain head".to_vec();
    let mut b = started(&seed, 1000);
    let recall = calculate_challenge_byte(seed, 1000, 1);
    b.step(block(2, vec![0, 600, 0, 400]));
    let event = header(weave_logs(0));
    assert!(b.accepts(&event));
    let a = b.step(event);
    let (index, base) = if recall <= 600 { (1, 600) } else { (3, 1000) };
    match a {
        BuildAction::RecallTxFound { depth, recall_byte, recall_extrinsic_index, recall_tx_data_base } => {
            assert_eq!(1, depth);
            assert_eq!(recall, recall_byte);
            assert_eq!(index, recall_extrinsic_index);
            assert_eq!(base, recall_tx_data_base);
        }
        _ => panic!("the recall transaction is in the block"),
    }
    assert!(matches!(b.stage, BuildStage::Finished));
}

#[test]
fn accepts_only_defined_answers() {
    let b = started(b"s", 1 << 40);
    assert!(b.accepts(&block(1, vec![1])));
    assert!(b.accepts(&BuildEvent::Block(Ok(None))));
    assert!(!b.accepts(&header(weave_logs(0))));

    let mut b = started(b"s", 1 << 40);
    b.step(block(1, vec![5]));
    assert!(!b.accepts(&block(1, vec![5])));
    assert!(b.accepts(&BuildEvent::Header(Ok(None))));
    assert!(b.accepts(&header(vec![])));
    assert!(!b.accepts(&header(weave_logs(u64::MAX))));
    assert!(b.accepts(&header(weave_logs(u64::MAX - 5))));
    let reaches = b.recall_byte <= 5;
    assert_eq!(reaches, b.accepts(&header(weave_logs(0))));
    assert!(b.accepts(&header(weave_logs(b.recall_byte))));
}
