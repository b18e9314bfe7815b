//! The pending pool: transactions waiting to go into a block, in the order
//! they were submitted.
use vstd::prelude::*;
use crate::types::Transaction;

verus! {

/// What `drain` hands out from a pool holding `pool`.
pub open spec fn drained(pool: Seq<Transaction>) -> Seq<Transaction> {
    pool
}

/// What a pool holding `pool` holds after `drain`.
pub open spec fn after_drain(pool: Seq<Transaction>) -> Seq<Transaction> {
    Seq::empty()
}

/// A second drain with no submission in between hands out nothing.
pub proof fn lemma_drain_twice(pool: Seq<Transaction>)
    ensures
        drained(after_drain(pool)) == Seq::<Transaction>::empty(),
{
}

/// Transactions waiting for inclusion, oldest first.
pub struct Mempool {
    pub txs: Vec<Transaction>,
}

impl Mempool {
    /// An empty pool.
    pub fn new() -> (r: Mempool)
        ensures
            r.txs@ == Seq::<Transaction>::empty(),
    {
        Mempool { txs: Vec::new() }
    }

    /// Adds `tx` behind everything already held; nothing is checked here.
    pub fn add_tx(&mut self, tx: Transaction)
        ensures
            final(self).txs@ == old(self).txs@.push(tx),
    {
        self.txs.push(tx);
    }

    /// Takes out everything held, in submission order, and leaves the pool empty.
    pub fn drain(&mut self) -> (r: Vec<Transaction>)
        ensures
            r@ == drained(old(self).txs@),
            final(self).txs@ == after_drain(old(self).txs@),
    {
        let mut out: Vec<Transaction> = Vec::new();
        std::mem::swap(&mut self.txs, &mut out);
        out
    }

    /// The number of transactions held.
    pub fn len(&self) -> (r: usize)
        ensures
            r == self.txs@.len(),
    {
        self.txs.len()
    }
}

impl Default for Mempool {
    fn default() -> (r: Mempool)
        ensures
            r.txs@ == Seq::<Transaction>::empty(),
    {
        Mempool::new()
    }
}

} // verus!
