//! The decisions of one block-production tick, and the rebuilding of account
//! state from stored blocks. Waiting for the timer, persisting and broadcasting
//! are left to the caller.
use vstd::prelude::*;
use crate::ledger::{Blockchain, built_block};
use crate::pool::Mempool;
use crate::state::{StateModel, StateStore, apply_all, empty_state};
use crate::types::{Block, BlockModel, Transaction, txs_view};

verus! {

/// What one tick did.
#[derive(Debug, PartialEq, Eq, Structural, Clone, Copy)]
pub enum TickOutcome {
    /// The pool was empty: no block this tick.
    Idle,
    /// A block was appended at the tip; it is to be persisted and broadcast.
    Produced,
    /// The block built this tick was not a valid successor of the tip.
    AppendFailed,
}

/// What follows an attempt to persist the new tip.
#[derive(Debug, PartialEq, Eq, Structural, Clone, Copy)]
pub enum PersistStep {
    /// The record is durable: go on to broadcast.
    Broadcast,
    /// The write failed and attempts remain: write again.
    Retry,
    /// The write failed on the last attempt: report it, then broadcast, since
    /// the chain and the state are already committed.
    ReportThenBroadcast,
}

/// The step after attempt number `attempt` (counting from 1) of at most
/// `max_attempts` to persist the new tip, given whether it succeeded.
pub fn after_persist(attempt: u32, max_attempts: u32, stored: bool) -> (r: PersistStep)
    ensures
        stored ==> r == PersistStep::Broadcast,
        !stored && attempt < max_attempts ==> r == PersistStep::Retry,
        !stored && attempt >= max_attempts ==> r == PersistStep::ReportThenBroadcast,
{
    if stored {
        PersistStep::Broadcast
    } else if attempt < max_attempts {
        PersistStep::Retry
    } else {
        PersistStep::ReportThenBroadcast
    }
}

/// The state once every transaction of every block is offered in order,
/// starting from `s`.
pub open spec fn replay_from(s: StateModel, blocks: Seq<BlockModel>) -> StateModel
    decreases blocks.len(),
{
    if blocks.len() == 0 {
        s
    } else {
        apply_all(replay_from(s, blocks.drop_last()), blocks.last().transactions).0
    }
}

/// Offers each transaction to the state in order and keeps those it took.
pub fn apply_drained(state: &mut StateStore, txs: &Vec<Transaction>) -> (r: Vec<Transaction>)
    requires
        old(state).wf(),
    ensures
        final(state).wf(),
        (final(state)@, txs_view(r@)) == apply_all(old(state)@, txs_view(txs@)),
{
    let ghost s0 = state@;
    let mut valid: Vec<Transaction> = Vec::new();
    let mut i: usize = 0;
    while i < txs.len()
        invariant
            i <= txs.len(),
            state.wf(),
            (state@, txs_view(valid@)) == apply_all(s0, txs_view(txs@.take(i as int))),
        decreases txs.len() - i,
    {
        let ghost before = txs_view(txs@.take(i as int));
        let ghost vprev = valid@;
        let taken = state.try_apply(&txs[i]);
        if taken {
            valid.push(txs[i].clone());
        }
        proof {
            let now = txs_view(txs@.take(i + 1));
            assert(now.drop_last() =~= before);
            assert(now.last() == txs@[i as int]@);
            if taken {
                assert(txs_view(valid@) =~= txs_view(vprev).push(txs@[i as int]@));
            }
        }
        i = i + 1;
    }
    assert(txs@.take(txs@.len() as int) =~= txs@);
    valid
}

/// One tick: drain the pool; if anything came out, offer it to the state in
/// order and append a block of the accepted transactions, stamped `now`.
/// Drained transactions never return to the pool, taken or not.
pub fn produce_block(
    pool: &mut Mempool,
    state: &mut StateStore,
    chain: &mut Blockchain,
    now: u64,
) -> (r: TickOutcome)
    requires
        old(state).wf(),
        old(chain).chain.len() > 0,
    ensures
        final(state).wf(),
        final(chain).chain.len() > 0,
        final(pool).txs@.len() == 0,
        old(pool).txs@.len() == 0 <==> r == TickOutcome::Idle,
        r == TickOutcome::Idle ==> *final(state) == *old(state) && *final(chain) == *old(chain),
        r != TickOutcome::Idle ==> final(state)@ == apply_all(old(state)@, txs_view(old(pool).txs@)).0,
        r != TickOutcome::Idle ==> (r == TickOutcome::Produced <==> old(chain)@.last().index as int + 1
            == old(chain)@.len()),
        r == TickOutcome::Produced ==> final(chain)@ == old(chain)@.push(
            built_block(
                old(chain)@.len() as u64,
                now,
                apply_all(old(state)@, txs_view(old(pool).txs@)).1,
                old(chain)@.last().hash,
            ),
        ),
        r == TickOutcome::AppendFailed ==> *final(chain) == *old(chain),
{
    let txs = pool.drain();
    if txs.len() == 0 {
        return TickOutcome::Idle;
    }
    let valid = apply_drained(state, &txs);
    if chain.add_block(valid, now) {
        TickOutcome::Produced
    } else {
        TickOutcome::AppendFailed
    }
}

/// Rebuilds account state from the stored blocks, oldest first, offering
/// every transaction in order to a fresh state.
pub fn replay_blocks(blocks: &Vec<Block>) -> (r: StateStore)
    ensures
        r.wf(),
        r@ == replay_from(empty_state(), blocks@.map_values(|b: Block| b@)),
{
    let mut state = StateStore::new();
    let mut i: usize = 0;
    while i < blocks.len()
        invariant
            i <= blocks.len(),
            state.wf(),
            state@ == replay_from(empty_state(), blocks@.take(i as int).map_values(|b: Block| b@)),
        decreases blocks.len() - i,
    {
        let ghost prev = blocks@.take(i as int).map_values(|b: Block| b@);
        let _taken = apply_drained(&mut state, &blocks[i].transactions);
        proof {
            let cur = blocks@.take(i + 1).map_values(|b: Block| b@);
            assert(cur.drop_last() =~= prev);
            assert(cur.last() == blocks@[i as int]@);
        }
        i = i + 1;
    }
    assert(blocks@.take(blocks@.len() as int) =~= blocks@);
    state
}

} // verus!
