use xelarius_core::{Block, Blockchain, Transaction};

fn tx(from: &str, to: &str, amount: u64, nonce: u64, sig: &str) -> Transaction {
    Transaction {
        from: from.into(),
        to: to.into(),
        amount,
        nonce,
        signature: Some(sig.into()),
    }
}

#[test]
fn test_blockchain_add_block() {
    let mut chain = Blockchain::new();
    let tx = Transaction {
        from: "a".into(),
        to: "b".into(),
        amount: 10,
        nonce: 1,
        signature: Some("sig".into()),
    };
    let ok = chain.add_block(vec![tx.clone()], 123);
    assert!(ok);
    assert_eq!(chain.chain.len(), 2);
    assert_eq!(chain.chain[1].transactions[0], tx);
}

#[test]
fn test_chain_validation() {
    let mut chain = Blockchain::new();
    let tx1 = Transaction {
        from: "a".into(),
        to: "b".into(),
        amount: 10,
        nonce: 1,
        signature: Some("sig1".into()),
    };
    let tx2 = Transaction {
        from: "b".into(),
        to: "c".into(),
        amount: 5,
        nonce: 2,
        signature: Some("sig2".into()),
    };
    chain.add_block(vec![tx1], 1);
    chain.add_block(vec![tx2], 2);
    assert!(chain.is_valid_chain());
}

#[test]
fn test_invalid_block() {
    let mut chain = Blockchain::new();
    let tx = Transaction {
        from: "a".into(),
        to: "b".into(),
        amount: 10,
        nonce: 1,
        signature: Some("sig".into()),
    };
    let mut block = Block::new(1, 123, vec![tx], "bad_hash".into());
    block.hash = "tampered".into();
    chain.chain.push(block);
    assert!(!chain.is_valid_chain());
}

#[test]
fn genesis_digest_is_golden() {
    let genesis = Block::new(0, 0, vec![], "0".into());
    assert_eq!(
        genesis.hash,
        "3fcc94e67cf3975473b065f0b21a4e92dd3df498d8b4464d7da9582669ac4e48"
    );
    let chain = Blockchain::new();
    assert_eq!(chain.chain.len(), 1);
    assert_eq!(chain.latest_hash(), genesis.hash);
    assert_eq!(chain.chain[0].previous_hash, "0");
    assert!(chain.chain[0].transactions.is_empty());
}

#[test]
fn hash_is_lowercase_hex_of_length_64() {
    let h = Block::calculate_hash(7, 99, &vec![tx("a", "b", 1, 0, "s")], "prev");
    assert_eq!(h.len(), 64);
    assert!(h.chars().all(|c| c.is_ascii_digit() || ('a'..='f').contains(&c)));
    let h2 = Block::calculate_hash(7, 99, &vec![tx("a", "b", 1, 0, "s")], "prev");
    assert_eq!(h, h2);
    let h3 = Block::calculate_hash(7, 99, &vec![tx("a", "b", 2, 0, "s")], "prev");
    assert_ne!(h, h3);
}

#[test]
fn tampered_hash_of_second_block_fails_audit() {
    let mut chain = Blockchain::new();
    assert!(chain.add_block(vec![tx("a", "b", 1, 0, "s")], 5));
    assert!(chain.is_valid_chain());
    chain.chain[1].hash = "0123".into();
    assert!(!chain.is_valid_chain());
}

#[test]
fn successive_appends_keep_the_chain_valid() {
    let mut chain = Blockchain::new();
    for i in 0..5u64 {
        assert!(chain.add_block(vec![tx("a", "b", i, i, "s")], 10 + i));
        assert!(chain.is_valid_chain());
    }
    assert_eq!(chain.chain.len(), 6);
    assert_eq!(chain.chain[5].index, 5);
    assert_eq!(chain.chain[5].previous_hash, chain.chain[4].hash);
}

#[test]
fn append_rejects_invalid_candidate_and_leaves_chain() {
    let mut chain = Blockchain::new();
    let tip = chain.latest_hash();
    let wrong_index = Block::new(2, 1, vec![], tip.clone());
    assert!(!chain.append(wrong_index));
    let wrong_link = Block::new(1, 1, vec![], "other".into());
    assert!(!chain.append(wrong_link));
    let mut forged = Block::new(1, 1, vec![], tip.clone());
    forged.timestamp = 2;
    assert!(!chain.append(forged));
    assert_eq!(chain.chain.len(), 1);
    assert_eq!(chain.latest_hash(), tip);
    let good = Block::new(1, 1, vec![], tip.clone());
    assert!(good.is_valid(&chain.chain[0]));
    assert!(chain.append(good));
    assert_eq!(chain.chain.len(), 2);
}

#[test]
fn add_block_fails_when_tip_index_is_out_of_step() {
    let mut chain = Blockchain::new();
    let tip = chain.latest_hash();
    let odd = Block::new(1, 1, vec![], tip);
    chain.chain.push(odd);
    chain.chain[1].index = 4;
    assert!(!chain.add_block(vec![], 3));
    assert_eq!(chain.chain.len(), 2);
}
