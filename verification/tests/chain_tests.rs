use ledger_node::chain::{calculate_hash, calculate_hash_from_block, get_timestamp, Block, Chain};

#[test]
fn calculate_hash_known_value() {
    // SHA-256 of "1ab7xyz": the four fields rendered and concatenated in order.
    let h = calculate_hash(1, "ab", 7, "xyz");
    assert_eq!(h, "2b50edcfffab0931c4e16e45f03675a0e5269bd50be08bad3c214d694883816d");
}

#[test]
fn calculate_hash_empty_strings() {
    // SHA-256 of "00": index 0 and timestamp 0 rendered, both strings empty.
    let h = calculate_hash(0, "", 0, "");
    assert_eq!(h, "f1534392279bddbf9d43dde8701cb5be14b82f76ec6607bf8d6ad557f60f304e");
}

#[test]
fn calculate_hash_largest_timestamp() {
    // SHA-256 of "0p18446744073709551615d".
    let h = calculate_hash(0, "p", u64::MAX, "d");
    assert_eq!(h, "f9eb9b84c03e77abd97fd19373be777ac990600e69c187cd81d1ddaa280769d1");
}

#[test]
fn genesis_block_fields() {
    let g = Chain::get_genesis_block();
    assert_eq!(g.index, 0);
    assert_eq!(g.previous_hash, "0");
    assert_eq!(g.timestamp, 1723020013);
    assert_eq!(g.data, "genesis");
    // SHA-256 of "001723020013genesis".
    assert_eq!(g.hash, "0a5cf9ce25e4a5461687eb57548e246cf175896bcad4301cf6f3fb4b9de647e5");
}

#[test]
fn hash_round_trip() {
    let b = Block::new(3, "feedbeef", 1723020099, "payload");
    assert_eq!(calculate_hash_from_block(&b), b.hash);
    let g = Chain::get_genesis_block();
    assert_eq!(calculate_hash_from_block(&g), g.hash);
}

#[test]
fn tamper_detection_index() {
    let mut b = Block::new(3, "feedbeef", 1723020099, "payload");
    b.index = 4;
    assert_ne!(calculate_hash_from_block(&b), b.hash);
}

#[test]
fn tamper_detection_previous_hash() {
    let mut b = Block::new(3, "feedbeef", 1723020099, "payload");
    b.previous_hash = "feedbeee".to_string();
    assert_ne!(calculate_hash_from_block(&b), b.hash);
}

#[test]
fn tamper_detection_timestamp() {
    let mut b = Block::new(3, "feedbeef", 1723020099, "payload");
    b.timestamp = 1723020100;
    assert_ne!(calculate_hash_from_block(&b), b.hash);
}

#[test]
fn tamper_detection_data() {
    let mut b = Block::new(3, "feedbeef", 1723020099, "payload");
    b.data = "payloae".to_string();
    assert_ne!(calculate_hash_from_block(&b), b.hash);
}

#[test]
fn genesis_chain_is_valid() {
    let g = Chain::get_genesis_block();
    let chain = vec![g];
    assert!(Chain::is_valid_chain(&chain));
}

#[test]
fn empty_chain_is_invalid() {
    let chain: Vec<Block> = Vec::new();
    assert!(!Chain::is_valid_chain(&chain));
}

#[test]
fn chain_without_genesis_is_invalid() {
    let g = Chain::get_genesis_block();
    let b1 = Block::new(1, &g.hash, 1723020100, "one");
    let anchored = vec![g, b1.clone()];
    assert!(Chain::is_valid_chain(&anchored));
    let unanchored = vec![b1];
    assert!(!Chain::is_valid_chain(&unanchored));
}

#[test]
fn chain_with_wrong_first_block_is_invalid() {
    // Same shape as the genesis block, different payload.
    let fake = Block::new(0, "0", 1723020013, "genesis2");
    let chain = vec![fake];
    assert!(!Chain::is_valid_chain(&chain));
}

#[test]
fn is_valid_new_block_accepts_proper_successor() {
    let g = Chain::get_genesis_block();
    let b1 = Block::new(1, &g.hash, 1723020100, "one");
    assert!(Chain::is_valid_new_block(&b1, &g));
}

#[test]
fn is_valid_new_block_rejects_wrong_index() {
    let g = Chain::get_genesis_block();
    let b2 = Block::new(2, &g.hash, 1723020100, "one");
    assert!(!Chain::is_valid_new_block(&b2, &g));
}

#[test]
fn is_valid_new_block_rejects_wrong_previous_hash() {
    let g = Chain::get_genesis_block();
    let b1 = Block::new(1, "0", 1723020100, "one");
    assert!(!Chain::is_valid_new_block(&b1, &g));
}

#[test]
fn is_valid_new_block_rejects_tampered_hash() {
    let g = Chain::get_genesis_block();
    let mut b1 = Block::new(1, &g.hash, 1723020100, "one");
    b1.hash = "00".repeat(32);
    assert!(!Chain::is_valid_new_block(&b1, &g));
}

#[test]
fn add_block_appends_valid_block() {
    let mut c = Chain::new(Chain::get_genesis_block());
    let tip_hash = c.get_latest_block().unwrap().hash.clone();
    let b1 = Block::new(1, &tip_hash, 1723020100, "one");
    c.add_block(b1.clone());
    assert_eq!(c.chains.len(), 2);
    assert_eq!(c.next_index, 2);
    assert_eq!(*c.get_latest_block().unwrap(), b1);
}

#[test]
fn add_block_drops_invalid_block() {
    let mut c = Chain::new(Chain::get_genesis_block());
    let b1 = Block::new(5, "junk", 1723020100, "one");
    c.add_block(b1);
    assert_eq!(c.chains.len(), 1);
    assert_eq!(c.next_index, 1);
}

#[test]
fn replace_block_chain_adopts_longer_valid_chain() {
    let mut c = Chain::new(Chain::get_genesis_block());
    let g = Chain::get_genesis_block();
    let b1 = Block::new(1, &g.hash, 1723020100, "one");
    let b2 = Block::new(2, &b1.hash, 1723020101, "two");
    let longer = vec![g, b1, b2];
    assert!(c.replace_block_chain(longer.clone()));
    assert_eq!(c.chains, longer);
    assert_eq!(c.next_index, 3);
}

#[test]
fn replace_block_chain_keeps_chain_on_equal_length() {
    let g = Chain::get_genesis_block();
    let b1 = Block::new(1, &g.hash, 1723020100, "one");
    let mut c = Chain::new(Chain::get_genesis_block());
    c.add_block(b1);
    let other1 = Block::new(1, &g.hash, 1723020200, "other");
    let same_length = vec![g, other1];
    let before = c.snapshot();
    assert!(!c.replace_block_chain(same_length));
    assert_eq!(c.chains, before.chains);
    assert_eq!(c.next_index, before.next_index);
}

#[test]
fn replace_block_chain_rejects_invalid_chain() {
    let mut c = Chain::new(Chain::get_genesis_block());
    let g = Chain::get_genesis_block();
    let b1 = Block::new(1, "not-the-genesis-hash", 1723020100, "one");
    let b2 = Block::new(2, &b1.hash, 1723020101, "two");
    let invalid = vec![g, b1, b2];
    assert!(!c.replace_block_chain(invalid));
    assert_eq!(c.chains.len(), 1);
}

#[test]
fn get_latest_block_returns_tip() {
    let mut c = Chain::new(Chain::get_genesis_block());
    assert_eq!(c.get_latest_block().unwrap().index, 0);
    let tip_hash = c.get_latest_block().unwrap().hash.clone();
    let b1 = Block::new(1, &tip_hash, 1723020100, "one");
    c.add_block(b1.clone());
    assert_eq!(*c.get_latest_block().unwrap(), b1);
}

#[test]
fn snapshot_copies_the_chain() {
    let mut c = Chain::new(Chain::get_genesis_block());
    let tip_hash = c.get_latest_block().unwrap().hash.clone();
    c.add_block(Block::new(1, &tip_hash, 1723020100, "one"));
    let snap = c.snapshot();
    assert_eq!(snap.chains, c.chains);
    assert_eq!(snap.next_index, c.next_index);
}

#[test]
fn new_with_hash_keeps_supplied_fields() {
    let b = Block::_new_with_hash(7, "prev", 1723020100, "data", "hash");
    assert_eq!(b.index, 7);
    assert_eq!(b.previous_hash, "prev");
    assert_eq!(b.timestamp, 1723020100);
    assert_eq!(b.data, "data");
    assert_eq!(b.hash, "hash");
}

#[test]
fn get_timestamp_is_after_genesis_time() {
    // The wall clock of any machine running this test is past 2024.
    assert!(get_timestamp() > 1723020013);
}
