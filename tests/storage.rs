use xelarius_core::{
    block_from_record, block_key_bytes, block_record, decode_block, encode_block, Block, PersistentChain,
    Transaction,
};

fn sample_block() -> Block {
    let txs = vec![
        Transaction {
            from: "alice".into(),
            to: "bob".into(),
            amount: 42,
            nonce: 3,
            signature: Some("sig-é".into()),
        },
        Transaction {
            from: "bob".into(),
            to: "carol".into(),
            amount: u64::MAX,
            nonce: 0,
            signature: None,
        },
    ];
    Block::new(9, 1_700_000_000, txs, "prev".into())
}

fn same(a: &Block, b: &Block) -> bool {
    a.index == b.index
        && a.timestamp == b.timestamp
        && a.transactions == b.transactions
        && a.previous_hash == b.previous_hash
        && a.hash == b.hash
}

#[test]
fn record_round_trip() {
    let b = sample_block();
    let bytes = encode_block(&b);
    assert_eq!(bytes[0], 1);
    let back = decode_block(&bytes).expect("decodes");
    assert!(same(&b, &back));
}

#[test]
fn truncated_or_padded_record_is_rejected() {
    let bytes = encode_block(&sample_block());
    assert!(decode_block(&bytes[..bytes.len() - 1]).is_none());
    let mut longer = bytes.clone();
    longer.push(0);
    assert!(decode_block(&longer).is_none());
    let mut wrong_version = bytes.clone();
    wrong_version[0] = 2;
    assert!(decode_block(&wrong_version).is_none());
    assert!(decode_block(&[]).is_none());
}

#[test]
fn record_under_wrong_index_is_absent() {
    let bytes = encode_block(&sample_block());
    assert!(block_from_record(9, Some(bytes.clone())).is_some());
    assert!(block_from_record(8, Some(bytes)).is_none());
    assert!(block_from_record(9, None).is_none());
}

#[test]
fn key_is_big_endian_index() {
    assert_eq!(block_key_bytes(0x0102030405060708), vec![1, 2, 3, 4, 5, 6, 7, 8]);
    assert_eq!(block_key_bytes(0), vec![0; 8]);
}

#[test]
fn store_then_get_after_reopen() {
    let path = "/tmp/xelarius_core_store_round_trip";
    let b = sample_block();
    {
        let store = PersistentChain::open(path).expect("open");
        store.store_block(&b).expect("store");
    }
    let store = PersistentChain::open(path).expect("reopen");
    let back = store.get_block(9).expect("present");
    assert!(same(&b, &back));
    assert!(store.get_block(123_456).is_none());
}

#[test]
fn record_pairs_key_and_encoding() {
    let b = sample_block();
    let (key, value) = block_record(&b);
    assert_eq!(key, vec![0, 0, 0, 0, 0, 0, 0, 9]);
    assert_eq!(value, encode_block(&b));
}
