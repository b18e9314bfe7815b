//! A single-authority ledger core: hash-linked blocks of account transfers,
//! account balances and nonces, a pending-transaction pool, a durable block
//! store and the decisions of one block-production tick.
pub mod types;
pub mod codec;
pub mod digest;
pub mod ledger;
pub mod table;
pub mod state;
pub mod pool;
pub mod engine;
pub mod store;

pub use codec::{decode_block, encode_block, encode_hash_input};
pub use engine::{after_persist, apply_drained, produce_block, replay_blocks, PersistStep, TickOutcome};
pub use ledger::Blockchain;
pub use pool::Mempool;
pub use state::StateStore;
pub use store::{block_from_record, block_key_bytes, block_record, PersistentChain, StorageError};
pub use table::{AccountTable, Entry};
pub use types::{Block, Transaction};
