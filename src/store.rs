//! Durable block storage: one record per block, keyed by the block's index
//! as eight big-endian bytes.
use vstd::prelude::*;
use crate::codec::{be8, decode_block, enc_block, encode_block, parse_block, push_u64};
use crate::types::Block;

verus! {

#[verifier::external_type_specification]
#[verifier::external_body]
pub struct ExDb(sled::Db);

#[verifier::external_type_specification]
#[verifier::external_body]
pub struct ExSledError(sled::Error);

/// Relies on `sled::open`: opens (or creates) the database at `path`.
#[verifier::external_body]
fn sled_open(path: &str) -> (r: Result<sled::Db, sled::Error>) {
    sled::open(path)
}

/// Relies on `sled::Tree::insert`: writes `value` under `key`, replacing any
/// value that was there.
#[verifier::external_body]
fn sled_insert(db: &sled::Db, key: Vec<u8>, value: Vec<u8>) -> (r: Result<(), sled::Error>) {
    db.insert(key, value).map(|_| ())
}

/// Relies on `sled::Tree::flush`: returns once what was written is on disk.
#[verifier::external_body]
fn sled_flush(db: &sled::Db) -> (r: Result<(), sled::Error>) {
    db.flush().map(|_| ())
}

/// Relies on `sled::Tree::get`: the value stored under `key`, if any.
#[verifier::external_body]
fn sled_get(db: &sled::Db, key: &Vec<u8>) -> (r: Result<Option<Vec<u8>>, sled::Error>) {
    db.get(key).map(|v| v.map(|bytes| bytes.to_vec()))
}

/// A failure of the durable store; the caller may retry.
#[derive(Debug, PartialEq, Eq, Structural, Clone, Copy)]
pub enum StorageError {
    /// The store could not be opened.
    Open,
    /// The record could not be written.
    Write,
    /// The record was written but could not be made durable.
    Flush,
}

/// The key under which the block with this index is stored.
pub open spec fn block_key(index: u64) -> Seq<u8> {
    be8(index)
}

/// The key of a block's record.
pub fn block_key_bytes(index: u64) -> (r: Vec<u8>)
    ensures
        r@ == block_key(index),
{
    let mut k: Vec<u8> = Vec::new();
    push_u64(&mut k, index);
    assert(k@ =~= be8(index));
    k
}

/// The key and the value under which `block` is stored.
pub fn block_record(block: &Block) -> (r: (Vec<u8>, Vec<u8>))
    ensures
        r.0@ == block_key(block.index),
        r.1@ == enc_block(block@),
{
    (block_key_bytes(block.index), encode_block(block))
}

/// The block that a record read back under `index` gives: the decoded block
/// where the bytes are one record of a block with that index, none otherwise.
pub fn block_from_record(index: u64, record: Option<Vec<u8>>) -> (r: Option<Block>)
    ensures
        match record {
            None => r is None,
            Some(bytes) => match parse_block(bytes@) {
                Some(m) => if m.index == index {
                    r is Some && r->Some_0@ == m
                } else {
                    r is None
                },
                None => r is None,
            },
        },
{
    match record {
        None => None,
        Some(bytes) => match decode_block(bytes.as_slice()) {
            None => None,
            Some(b) => if b.index == index {
                Some(b)
            } else {
                None
            },
        },
    }
}

/// The blocks, stored durably.
pub struct PersistentChain {
    pub db: sled::Db,
}

impl PersistentChain {
    /// Opens the store at `path`.
    pub fn open(path: &str) -> (r: Result<PersistentChain, StorageError>)
        ensures
            r is Err ==> r->Err_0 == StorageError::Open,
    {
        match sled_open(path) {
            Ok(db) => Ok(PersistentChain { db }),
            Err(_) => Err(StorageError::Open),
        }
    }

    /// Writes `block_record(block)` to the store, replacing any record under
    /// that key, and returns once it is durable.
    pub fn store_block(&self, block: &Block) -> (r: Result<(), StorageError>)
        ensures
            r is Err ==> (r->Err_0 == StorageError::Write || r->Err_0 == StorageError::Flush),
    {
        let (key, value) = block_record(block);
        match sled_insert(&self.db, key, value) {
            Err(_) => Err(StorageError::Write),
            Ok(()) => match sled_flush(&self.db) {
                Err(_) => Err(StorageError::Flush),
                Ok(()) => Ok(()),
            },
        }
    }

    /// The block stored under `index`; none where there is no record, where
    /// the read fails, or where the record does not decode to a block of
    /// that index.
    pub fn get_block(&self, index: u64) -> (r: Option<Block>)
        ensures
            r is Some ==> r->Some_0@.index == index,
            r is Some ==> exists|bytes: Seq<u8>| parse_block(bytes) == Some(r->Some_0@),
    {
        let key = block_key_bytes(index);
        match sled_get(&self.db, &key) {
            Err(_) => None,
            Ok(record) => {
                let ghost rec = record;
                let r = block_from_record(index, record);
                proof {
                    if r is Some {
                        let bytes = rec->Some_0@;
                        assert(parse_block(bytes) == Some(r->Some_0@));
                    }
                }
                r
            },
        }
    }
}

} // verus!
