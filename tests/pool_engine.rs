use xelarius_core::{
    after_persist, apply_drained, produce_block, PersistStep, replay_blocks, Blockchain, Mempool, StateStore, TickOutcome,
    Transaction,
};

fn tx(from: &str, to: &str, amount: u64, nonce: u64) -> Transaction {
    Transaction {
        from: from.into(),
        to: to.into(),
        amount,
        nonce,
        signature: Some("sig".into()),
    }
}

#[test]
fn drain_returns_in_submission_order_then_nothing() {
    let mut pool = Mempool::new();
    let tx1 = tx("a", "b", 1, 0);
    let tx2 = tx("c", "d", 2, 0);
    pool.add_tx(tx1.clone());
    pool.add_tx(tx2.clone());
    assert_eq!(pool.len(), 2);
    assert_eq!(pool.drain(), vec![tx1, tx2]);
    assert!(pool.drain().is_empty());
    assert_eq!(pool.len(), 0);
}

#[test]
fn empty_pool_gives_an_idle_tick() {
    let mut pool = Mempool::default();
    let mut state = StateStore::new();
    let mut chain = Blockchain::new();
    assert_eq!(produce_block(&mut pool, &mut state, &mut chain, 9), TickOutcome::Idle);
    assert_eq!(chain.chain.len(), 1);
}

#[test]
fn tick_keeps_accepted_and_drops_rejected() {
    let mut pool = Mempool::new();
    let mut state = StateStore::new();
    state.set_balance(&"A".to_string(), 100);
    let mut chain = Blockchain::new();
    pool.add_tx(tx("A", "B", 40, 0));
    pool.add_tx(tx("A", "B", 10, 5));
    pool.add_tx(tx("A", "C", 60, 1));
    let out = produce_block(&mut pool, &mut state, &mut chain, 1000);
    assert_eq!(out, TickOutcome::Produced);
    assert_eq!(chain.chain.len(), 2);
    let b = &chain.chain[1];
    assert_eq!(b.index, 1);
    assert_eq!(b.timestamp, 1000);
    assert_eq!(b.transactions, vec![tx("A", "B", 40, 0), tx("A", "C", 60, 1)]);
    assert_eq!(state.balance(&"A".to_string()), 0);
    assert_eq!(state.balance(&"C".to_string()), 60);
    assert!(chain.is_valid_chain());
    assert_eq!(pool.len(), 0);
}

#[test]
fn tick_with_only_rejected_transactions_still_produces_a_block() {
    let mut pool = Mempool::new();
    let mut state = StateStore::new();
    let mut chain = Blockchain::new();
    pool.add_tx(tx("nobody", "B", 1, 0));
    assert_eq!(produce_block(&mut pool, &mut state, &mut chain, 7), TickOutcome::Produced);
    assert!(chain.chain[1].transactions.is_empty());
    assert_eq!(produce_block(&mut pool, &mut state, &mut chain, 8), TickOutcome::Idle);
}

#[test]
fn replay_rebuilds_state() {
    let mut pool = Mempool::new();
    let mut state = StateStore::new();
    let mut chain = Blockchain::new();
    pool.add_tx(tx("A", "B", 0, 0));
    produce_block(&mut pool, &mut state, &mut chain, 1);
    pool.add_tx(tx("A", "C", 0, 1));
    pool.add_tx(tx("B", "C", 0, 0));
    produce_block(&mut pool, &mut state, &mut chain, 2);
    let rebuilt = replay_blocks(&chain.chain);
    for a in ["A", "B", "C"] {
        let a = a.to_string();
        assert_eq!(rebuilt.balance(&a), state.balance(&a));
        assert_eq!(rebuilt.nonce(&a), state.nonce(&a));
    }
    assert_eq!(rebuilt.nonce(&"A".to_string()), 2);
    assert_eq!(rebuilt.nonce(&"B".to_string()), 1);
}

#[test]
fn apply_drained_filters_in_order() {
    let mut state = StateStore::new();
    state.set_balance(&"A".to_string(), 5);
    let txs = vec![tx("A", "B", 3, 1), tx("A", "B", 3, 0), tx("A", "B", 3, 1)];
    let kept = apply_drained(&mut state, &txs);
    assert_eq!(kept, vec![tx("A", "B", 3, 0)]);
    assert_eq!(state.balance(&"B".to_string()), 3);
}

#[test]
fn persist_steps() {
    assert_eq!(after_persist(1, 3, true), PersistStep::Broadcast);
    assert_eq!(after_persist(1, 3, false), PersistStep::Retry);
    assert_eq!(after_persist(2, 3, false), PersistStep::Retry);
    assert_eq!(after_persist(3, 3, false), PersistStep::ReportThenBroadcast);
    assert_eq!(after_persist(3, 3, true), PersistStep::Broadcast);
}
