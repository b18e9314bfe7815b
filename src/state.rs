//! Account balances and nonces, changed one transaction at a time.
use vstd::prelude::*;
use crate::table::{AccountTable, amount_of};
use crate::types::{Transaction, TxModel};

verus! {

/// Balances and nonces by address; an address that has none stands for 0.
pub ghost struct StateModel {
    pub balances: Map<Seq<char>, u64>,
    pub nonces: Map<Seq<char>, u64>,
}

/// The state in which no address has been seen.
pub open spec fn empty_state() -> StateModel {
    StateModel { balances: Map::empty(), nonces: Map::empty() }
}

/// The signature token is there and not empty.
pub open spec fn has_signature(t: TxModel) -> bool {
    t.signature is Some && t.signature->Some_0.len() > 0
}

/// The checks of a transfer, in their order: signature, nonce, balance.
pub open spec fn tx_accepted(s: StateModel, t: TxModel) -> bool {
    &&& has_signature(t)
    &&& t.nonce == amount_of(s.nonces, t.from)
    &&& amount_of(s.balances, t.from) >= t.amount
}

/// The balances once the sender is debited.
pub open spec fn debited(s: StateModel, t: TxModel) -> Map<Seq<char>, u64> {
    s.balances.insert(t.from, (amount_of(s.balances, t.from) - t.amount) as u64)
}

/// The recipient's credit and the sender's next nonce fit in 64 bits.
pub open spec fn tx_fits(s: StateModel, t: TxModel) -> bool {
    &&& amount_of(debited(s, t), t.to) + t.amount <= u64::MAX
    &&& t.nonce < u64::MAX
}

/// The state after an accepted transfer: the sender debited, the recipient
/// credited, and the sender's nonce one past the transaction's.
pub open spec fn applied(s: StateModel, t: TxModel) -> StateModel {
    StateModel {
        balances: debited(s, t).insert(t.to, (amount_of(debited(s, t), t.to) + t.amount) as u64),
        nonces: s.nonces.insert(t.from, (t.nonce + 1) as u64),
    }
}

/// One transaction offered to the state: the next state, and whether it was taken.
pub open spec fn step(s: StateModel, t: TxModel) -> (StateModel, bool) {
    if tx_accepted(s, t) && tx_fits(s, t) {
        (applied(s, t), true)
    } else {
        (s, false)
    }
}

/// The transactions offered in order: the final state and those that were taken.
pub open spec fn apply_all(s: StateModel, ts: Seq<TxModel>) -> (StateModel, Seq<TxModel>)
    decreases ts.len(),
{
    if ts.len() == 0 {
        (s, Seq::empty())
    } else {
        let prev = apply_all(s, ts.drop_last());
        let (next, taken) = step(prev.0, ts.last());
        (next, if taken { prev.1.push(ts.last()) } else { prev.1 })
    }
}

/// Account balances and nonces.
pub struct StateStore {
    pub balances: AccountTable,
    pub nonces: AccountTable,
}

impl View for StateStore {
    type V = StateModel;

    open spec fn view(&self) -> StateModel {
        StateModel { balances: self.balances@, nonces: self.nonces@ }
    }
}

impl StateStore {
    pub open spec fn wf(&self) -> bool {
        self.balances.wf() && self.nonces.wf()
    }

    /// A state in which no address has been seen.
    pub fn new() -> (r: StateStore)
        ensures
            r.wf(),
            r@ == empty_state(),
    {
        StateStore { balances: AccountTable::new(), nonces: AccountTable::new() }
    }

    /// The balance of `address`.
    pub fn balance(&self, address: &String) -> (r: u64)
        requires
            self.wf(),
        ensures
            r == amount_of(self@.balances, address@),
    {
        self.balances.get(address)
    }

    /// The nonce that the next transaction from `address` must carry.
    pub fn nonce(&self, address: &String) -> (r: u64)
        requires
            self.wf(),
        ensures
            r == amount_of(self@.nonces, address@),
    {
        self.nonces.get(address)
    }

    /// Sets the balance of `address`, as an initial allocation does.
    pub fn set_balance(&mut self, address: &String, amount: u64)
        requires
            old(self).wf(),
        ensures
            final(self).wf(),
            final(self)@ == (StateModel {
                balances: old(self)@.balances.insert(address@, amount),
                nonces: old(self)@.nonces,
            }),
    {
        self.balances.set(address, amount);
    }

    /// Applies `tx` if its signature, nonce and balance checks pass, in that
    /// order; a rejected transaction leaves the state exactly as it was.
    pub fn apply_tx(&mut self, tx: &Transaction) -> (r: bool)
        requires
            old(self).wf(),
            tx_accepted(old(self)@, tx@) ==> tx_fits(old(self)@, tx@),
        ensures
            final(self).wf(),
            r == tx_accepted(old(self)@, tx@),
            r ==> final(self)@ == applied(old(self)@, tx@),
            !r ==> *final(self) == *old(self),
    {
        match &tx.signature {
            None => {
                return false;
            },
            Some(s) => {
                if s.as_str().is_empty() {
                    return false;
                }
            },
        }
        let nonce = self.nonces.get(&tx.from);
        if tx.nonce != nonce {
            return false;
        }
        let bal = self.balances.get(&tx.from);
        if bal < tx.amount {
            return false;
        }
        self.balances.set(&tx.from, bal - tx.amount);
        let to_bal = self.balances.get(&tx.to);
        self.balances.set(&tx.to, to_bal + tx.amount);
        self.nonces.set(&tx.from, tx.nonce + 1);
        true
    }

    /// Offers `tx` to the state: it is applied where `apply_tx` would take it and
    /// the recipient's new balance and the sender's next nonce fit in 64 bits.
    pub fn try_apply(&mut self, tx: &Transaction) -> (r: bool)
        requires
            old(self).wf(),
        ensures
            final(self).wf(),
            (final(self)@, r) == step(old(self)@, tx@),
            !r ==> *final(self) == *old(self),
    {
        if tx.nonce == u64::MAX {
            return false;
        }
        let from_bal = self.balances.get(&tx.from);
        if from_bal >= tx.amount {
            let to_bal = if tx.to == tx.from {
                from_bal - tx.amount
            } else {
                self.balances.get(&tx.to)
            };
            if to_bal > u64::MAX - tx.amount {
                return false;
            }
        }
        self.apply_tx(tx)
    }
}

impl Default for StateStore {
    fn default() -> (r: StateStore)
        ensures
            r.wf(),
            r@ == empty_state(),
    {
        StateStore::new()
    }
}

} // verus!
