use xelarius_core::{StateStore, Transaction};

fn tx(from: &str, to: &str, amount: u64, nonce: u64, sig: Option<&str>) -> Transaction {
    Transaction {
        from: from.into(),
        to: to.into(),
        amount,
        nonce,
        signature: sig.map(|s| s.into()),
    }
}

fn funded() -> StateStore {
    let mut s = StateStore::new();
    s.set_balance(&"A".to_string(), 100);
    s
}

fn snapshot(s: &StateStore) -> Vec<(String, u64, u64)> {
    ["A", "B", "C"]
        .iter()
        .map(|a| {
            let a = a.to_string();
            (a.clone(), s.balance(&a), s.nonce(&a))
        })
        .collect()
}

#[test]
fn transfer_debits_credits_and_bumps_nonce() {
    let mut s = funded();
    assert!(s.apply_tx(&tx("A", "B", 40, 0, Some("sig"))));
    assert_eq!(s.balance(&"A".to_string()), 60);
    assert_eq!(s.balance(&"B".to_string()), 40);
    assert_eq!(s.nonce(&"A".to_string()), 1);
    assert_eq!(s.nonce(&"B".to_string()), 0);
}

#[test]
fn skipped_nonce_is_rejected_without_change() {
    let mut s = funded();
    let before = snapshot(&s);
    let entries = s.balances.entries.len();
    assert!(!s.apply_tx(&tx("A", "B", 40, 1, Some("sig"))));
    assert_eq!(snapshot(&s), before);
    assert_eq!(s.balances.entries.len(), entries);
    assert_eq!(s.nonces.entries.len(), 0);
}

#[test]
fn overdraft_is_rejected_without_change() {
    let mut s = funded();
    let before = snapshot(&s);
    assert!(!s.apply_tx(&tx("A", "B", 101, 0, Some("sig"))));
    assert_eq!(snapshot(&s), before);
    assert_eq!(s.nonces.entries.len(), 0);
}

#[test]
fn missing_or_empty_signature_is_rejected() {
    let mut s = funded();
    let before = snapshot(&s);
    assert!(!s.apply_tx(&tx("A", "B", 1, 0, None)));
    assert!(!s.apply_tx(&tx("A", "B", 1, 0, Some(""))));
    assert_eq!(snapshot(&s), before);
}

#[test]
fn exact_balance_can_be_spent_and_replay_is_rejected() {
    let mut s = funded();
    let t = tx("A", "C", 100, 0, Some("sig"));
    assert!(s.apply_tx(&t));
    assert_eq!(s.balance(&"A".to_string()), 0);
    assert_eq!(s.balance(&"C".to_string()), 100);
    assert!(!s.apply_tx(&t));
    assert_eq!(s.balance(&"C".to_string()), 100);
}

#[test]
fn transfer_to_self_keeps_balance() {
    let mut s = funded();
    assert!(s.apply_tx(&tx("A", "A", 30, 0, Some("sig"))));
    assert_eq!(s.balance(&"A".to_string()), 100);
    assert_eq!(s.nonce(&"A".to_string()), 1);
}

#[test]
fn try_apply_refuses_credit_overflow() {
    let mut s = funded();
    s.set_balance(&"B".to_string(), u64::MAX);
    let before = snapshot(&s);
    assert!(!s.try_apply(&tx("A", "B", 1, 0, Some("sig"))));
    assert_eq!(snapshot(&s), before);
    assert!(s.try_apply(&tx("A", "C", 1, 0, Some("sig"))));
    assert_eq!(s.balance(&"C".to_string()), 1);
}
