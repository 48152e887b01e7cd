use blockchain_in_rust::{Block, Blockchain, ChainError, MineError};

fn chain_of(difficulty: usize, payloads: &[&str]) -> Blockchain {
    let mut chain = Blockchain::new_at(difficulty, 1000).unwrap();
    let mut timestamp = 2000;
    for payload in payloads {
        chain.add_block_at(payload.to_string(), timestamp).unwrap();
        timestamp += 1000;
    }
    chain
}

#[test]
fn new_chain_holds_a_mined_genesis_block() {
    let chain = Blockchain::new(2).unwrap();
    assert_eq!(chain.difficulty, 2);
    assert_eq!(chain.blocks.len(), 1);
    let genesis = &chain.blocks[0];
    assert_eq!(genesis.index, 0);
    assert_eq!(genesis.prev_hash, "0");
    assert_eq!(genesis.data, "Genesis Block");
    assert!(genesis.hash.starts_with("00"));
    assert_eq!(
        genesis.hash,
        Block::calculate_hash(0, genesis.timestamp, "0", genesis.nonce, "Genesis Block")
    );
    assert!(chain.is_valid());
}

#[test]
fn chain_of_three_blocks_links_up_and_detects_corruption() {
    let mut chain = Blockchain::new(2).unwrap();
    assert!(chain.blocks[0].hash.starts_with("00"));
    chain.add_block("A".to_string()).unwrap();
    chain.add_block("B".to_string()).unwrap();

    assert_eq!(chain.blocks.len(), 3);
    for i in 0..3 {
        assert_eq!(chain.blocks[i].index, i as u64);
        assert!(chain.blocks[i].hash.starts_with("00"));
    }
    for i in 1..3 {
        assert_eq!(chain.blocks[i].prev_hash, chain.blocks[i - 1].hash);
    }
    assert_eq!(chain.blocks[1].data, "A");
    assert_eq!(chain.blocks[2].data, "B");
    assert!(chain.is_valid());

    chain.blocks[1].data = "tampered".to_string();
    assert!(!chain.is_valid());
}

#[test]
fn chain_with_given_timestamps_is_known() {
    let chain = chain_of(2, &["A", "B"]);
    assert_eq!(chain.blocks.len(), 3);
    assert_eq!(chain.blocks[0].timestamp, 1000);
    assert_eq!(chain.blocks[0].nonce, 94);
    assert_eq!(
        chain.blocks[0].hash,
        "00b6869dbe35d7a218e44404a290b1e268d765c9b7d49494f7bd7063ca403ced"
    );
    assert_eq!(chain.blocks[1].index, 1);
    assert_eq!(chain.blocks[1].timestamp, 2000);
    assert_eq!(chain.blocks[1].prev_hash, chain.blocks[0].hash);
    assert_eq!(chain.blocks[1].data, "A");
    assert_eq!(chain.blocks[1].nonce, 49);
    assert_eq!(
        chain.blocks[1].hash,
        "00ab0a4c2e3bfc7b8d65208d2f3469c504e8276c855fb6a5cb65a3e234746559"
    );
    assert_eq!(chain.blocks[2].index, 2);
    assert_eq!(chain.blocks[2].timestamp, 3000);
    assert_eq!(chain.blocks[2].prev_hash, chain.blocks[1].hash);
    assert_eq!(chain.blocks[2].data, "B");
    assert_eq!(chain.blocks[2].nonce, 24);
    assert_eq!(
        chain.blocks[2].hash,
        "00c18f32860388f73d2067b2bf092995d0613f240397d11239fb357046d91907"
    );
    assert!(chain.is_valid());
}

#[test]
fn chain_at_difficulty_zero_mines_at_once() {
    let mut chain = Blockchain::new(0).unwrap();
    chain.add_block("free".to_string()).unwrap();
    assert_eq!(chain.blocks.len(), 2);
    assert_eq!(chain.blocks[0].nonce, 0);
    assert_eq!(chain.blocks[1].nonce, 0);
    assert!(chain.is_valid());
}

#[test]
fn grown_chains_are_valid() {
    let mut chain = Blockchain::new(1).unwrap();
    assert!(chain.is_valid());
    for i in 0..8 {
        chain.add_block(format!("payload {}", i)).unwrap();
        assert!(chain.is_valid());
        assert_eq!(chain.blocks.len(), i + 2);
        assert_eq!(chain.difficulty, 1);
    }
    for (i, block) in chain.blocks.iter().enumerate() {
        assert_eq!(block.index, i as u64);
        assert!(block.hash.starts_with("0"));
    }
}

#[test]
fn add_block_keeps_the_earlier_blocks() {
    let mut chain = chain_of(1, &["one"]);
    let hashes: Vec<String> = chain.blocks.iter().map(|b| b.hash.clone()).collect();
    chain.add_block_at("two".to_string(), 5000).unwrap();
    assert_eq!(chain.blocks.len(), 3);
    assert_eq!(chain.blocks[0].hash, hashes[0]);
    assert_eq!(chain.blocks[1].hash, hashes[1]);
    assert_eq!(chain.blocks[0].data, "Genesis Block");
    assert_eq!(chain.blocks[1].data, "one");
    assert_eq!(chain.blocks[2].data, "two");
    assert_eq!(chain.blocks[2].timestamp, 5000);
}

#[test]
fn latest_block_is_the_tail() {
    let mut chain = chain_of(1, &[]);
    assert_eq!(chain.latest_block().unwrap().index, 0);
    assert_eq!(chain.latest_block().unwrap().data, "Genesis Block");
    chain.add_block("next".to_string()).unwrap();
    assert_eq!(chain.latest_block().unwrap().index, 1);
    assert_eq!(chain.latest_block().unwrap().data, "next");
    assert_eq!(chain.latest_block().unwrap().hash, chain.blocks[1].hash);
}

#[test]
fn empty_chain_has_no_tail() {
    let mut chain = Blockchain {
        blocks: Vec::new(),
        difficulty: 1,
    };
    assert_eq!(chain.latest_block().err(), Some(ChainError::EmptyChain));
    assert_eq!(chain.add_block("x".to_string()), Err(ChainError::EmptyChain));
    assert_eq!(
        chain.add_block_at("x".to_string(), 1),
        Err(ChainError::EmptyChain)
    );
    assert!(chain.blocks.is_empty());
    assert!(chain.is_valid());
}

#[test]
fn difficulty_beyond_the_digest_is_refused() {
    assert_eq!(
        Blockchain::new(65).err(),
        Some(ChainError::InvalidDifficulty)
    );
    assert_eq!(
        Blockchain::new_at(usize::MAX, 0).err(),
        Some(ChainError::InvalidDifficulty)
    );

    let mut chain = chain_of(1, &["kept"]);
    chain.difficulty = 65;
    assert_eq!(
        chain.add_block("never".to_string()),
        Err(ChainError::InvalidDifficulty)
    );
    assert_eq!(chain.blocks.len(), 2);
    assert_eq!(chain.difficulty, 65);
    assert!(chain.is_valid());
}

#[test]
fn mining_errors_map_to_chain_errors() {
    assert_eq!(
        ChainError::from_mining(MineError::InvalidDifficulty),
        ChainError::InvalidDifficulty
    );
    assert_eq!(
        ChainError::from_mining(MineError::NotFound),
        ChainError::NotFound
    );
}

#[test]
fn tampering_with_any_field_is_detected() {
    for position in 1..3 {
        let mut chain = chain_of(1, &["A", "B"]);
        chain.blocks[position].index += 10;
        assert!(!chain.is_valid());

        let mut chain = chain_of(1, &["A", "B"]);
        chain.blocks[position].timestamp += 1;
        assert!(!chain.is_valid());

        let mut chain = chain_of(1, &["A", "B"]);
        chain.blocks[position].prev_hash = "0".repeat(64);
        assert!(!chain.is_valid());

        let mut chain = chain_of(1, &["A", "B"]);
        chain.blocks[position].hash = "0".repeat(64);
        assert!(!chain.is_valid());

        let mut chain = chain_of(1, &["A", "B"]);
        chain.blocks[position].data.push('!');
        assert!(!chain.is_valid());

        let mut chain = chain_of(1, &["A", "B"]);
        chain.blocks[position].nonce += 1;
        assert!(!chain.is_valid());
    }
}

#[test]
fn genesis_is_checked_through_its_successor_only() {
    let mut chain = chain_of(1, &["A"]);
    chain.blocks[0].data = "rewritten".to_string();
    assert!(chain.is_valid());

    chain.blocks[0].hash = "0".repeat(64);
    assert!(!chain.is_valid());

    let mut alone = chain_of(1, &[]);
    alone.blocks[0].hash = "anything".to_string();
    assert!(alone.is_valid());
}

#[test]
fn swapping_two_blocks_is_detected() {
    let mut chain = chain_of(1, &["A", "B", "C", "D"]);
    assert!(chain.is_valid());
    chain.blocks.swap(1, 2);
    assert!(!chain.is_valid());

    let mut chain = chain_of(1, &["A", "B", "C", "D"]);
    chain.blocks.swap(1, 3);
    assert!(!chain.is_valid());

    let mut chain = chain_of(1, &["A", "B", "C", "D"]);
    chain.blocks.swap(3, 4);
    assert!(!chain.is_valid());
}

#[test]
fn rehashing_alone_does_not_repair_a_chain() {
    let mut chain = chain_of(1, &["A", "B"]);
    chain.blocks[1].data = "forged".to_string();
    let block = &chain.blocks[1];
    let hash = Block::calculate_hash(
        block.index,
        block.timestamp,
        &block.prev_hash,
        block.nonce,
        &block.data,
    );
    chain.blocks[1].hash = hash;
    assert!(!chain.is_valid());

    let hash = chain.blocks[1].hash.clone();
    chain.blocks[2].prev_hash = hash;
    assert!(!chain.is_valid());

    let block = &chain.blocks[2];
    let hash = Block::calculate_hash(
        block.index,
        block.timestamp,
        &block.prev_hash,
        block.nonce,
        &block.data,
    );
    chain.blocks[2].hash = hash;
    assert!(chain.is_valid());
}
