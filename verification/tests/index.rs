use poa::index::{
    binary_search, find_callenge_block, find_recall_tx, fits_in_weave, sized_extrinsics,
    BlockWeave, GlobalBlockIndex,
};

#[test]
fn test_find_challenge_block() {
    let global_index = GlobalBlockIndex(vec![(0, 10), (3, 15), (5, 20), (6, 30), (7, 32)]);

    assert_eq!(0, global_index.find_callenge_block(5));
    assert_eq!(3, global_index.find_callenge_block(15));
    assert_eq!(5, global_index.find_callenge_block(16));
    assert_eq!(6, global_index.find_callenge_block(29));
    assert_eq!(7, global_index.find_callenge_block(31));
}

#[test]
fn challenge_block_at_range_edges() {
    let global_index = GlobalBlockIndex(vec![(0, 10), (3, 15), (5, 20), (6, 30), (7, 32)]);
    assert_eq!(0, global_index.find_callenge_block(0));
    assert_eq!(0, global_index.find_callenge_block(10));
    assert_eq!(3, global_index.find_callenge_block(11));
    assert_eq!(7, global_index.find_callenge_block(32));
}

#[test]
fn free_find_callenge_block_matches_method() {
    let entries = vec![(2, 4), (9, 40), (11, 41)];
    for byte in 0..=41u64 {
        let expected = GlobalBlockIndex(entries.clone()).find_callenge_block(byte);
        assert_eq!(expected, find_callenge_block(byte, GlobalBlockIndex(entries.clone())));
    }
    assert_eq!(9, find_callenge_block(5, GlobalBlockIndex(entries)));
}

#[test]
fn binary_search_takes_first_reaching_entry() {
    let list = [('a', 3u64), ('b', 7), ('c', 7), ('d', 9)];
    assert_eq!(('a', 3), binary_search(0, &list));
    assert_eq!(('a', 3), binary_search(3, &list));
    assert_eq!(('b', 7), binary_search(4, &list));
    assert_eq!(('b', 7), binary_search(7, &list));
    assert_eq!(('d', 9), binary_search(8, &list));
    assert_eq!(('d', 9), binary_search(9, &list));
}

#[test]
fn binary_search_single_entry() {
    assert_eq!((5u8, 100), binary_search(1, &[(5u8, 100u64)]));
    assert_eq!((5u8, 100), binary_search(100, &[(5u8, 100u64)]));
}

#[test]
fn sized_extrinsics_skips_empty_data() {
    let sized = sized_extrinsics(100, &[0, 5, 0, 3, 7]);
    assert_eq!(vec![(1usize, 105u64), (3, 108), (4, 115)], sized);
    assert!(sized_extrinsics(100, &[0, 0]).is_empty());
    assert!(sized_extrinsics(7, &[]).is_empty());
}

#[test]
fn recall_tx_holds_recall_byte() {
    let sized = sized_extrinsics(100, &[0, 5, 0, 3, 7]);
    assert_eq!((1, 105), find_recall_tx(101, &sized));
    assert_eq!((1, 105), find_recall_tx(105, &sized));
    assert_eq!((3, 108), find_recall_tx(106, &sized));
    assert_eq!((3, 108), find_recall_tx(108, &sized));
    assert_eq!((4, 115), find_recall_tx(109, &sized));
    assert_eq!((4, 115), find_recall_tx(115, &sized));
}

#[test]
fn fits_in_weave_detects_overflow() {
    assert!(fits_in_weave(0, &[]));
    assert!(fits_in_weave(u64::MAX, &[0, 0]));
    assert!(!fits_in_weave(u64::MAX, &[1]));
    assert!(fits_in_weave(u64::MAX - 10, &[4, 6]));
    assert!(!fits_in_weave(u64::MAX - 10, &[4, 7]));
    assert!(!fits_in_weave(0, &[u64::MAX, 1]));
}

#[test]
fn block_weave_holds_its_fields() {
    let w = BlockWeave { number: 4, weave_size: 99 };
    assert_eq!(4, w.number);
    assert_eq!(99, w.weave_size);
}
