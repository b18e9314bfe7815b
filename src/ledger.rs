//! Block construction, block validity and the hash-linked chain.
use vstd::prelude::*;
use crate::codec::{encode_hash_input, hash_input};
use crate::digest::{digest_hex, sha256_hex};
use crate::types::{Block, BlockModel, Transaction, TxModel, txs_view};

verus! {

/// The hash of a block with these fields.
pub open spec fn block_hash(
    index: u64,
    timestamp: u64,
    txs: Seq<TxModel>,
    previous_hash: Seq<char>,
) -> Seq<char> {
    digest_hex(hash_input(index, timestamp, txs, previous_hash))
}

/// The block with these fields and the hash computed from them.
pub open spec fn built_block(
    index: u64,
    timestamp: u64,
    txs: Seq<TxModel>,
    previous_hash: Seq<char>,
) -> BlockModel {
    BlockModel {
        index,
        timestamp,
        transactions: txs,
        previous_hash,
        hash: block_hash(index, timestamp, txs, previous_hash),
    }
}

/// The `previous_hash` of the genesis block.
pub open spec fn genesis_sentinel() -> Seq<char> {
    seq!['0']
}

/// The first block of every chain.
pub open spec fn genesis_model() -> BlockModel {
    built_block(0, 0, Seq::empty(), genesis_sentinel())
}

/// `c` may follow `p`: the next index, linked to `p`'s hash, and holding the
/// hash of its own fields.
pub open spec fn valid_successor(c: BlockModel, p: BlockModel) -> bool {
    &&& c.index as int == p.index as int + 1
    &&& c.previous_hash == p.hash
    &&& c.hash == block_hash(c.index, c.timestamp, c.transactions, c.previous_hash)
}

/// Every block of the chain but the first is a valid successor of the one before it.
pub open spec fn links_ok(c: Seq<BlockModel>) -> bool {
    forall|i: int| 0 < i < c.len() ==> valid_successor(#[trigger] c[i], c[i - 1])
}

/// Successive valid appends to a chain whose links hold keep them holding.
pub proof fn lemma_append_keeps_links(c: Seq<BlockModel>, b: BlockModel)
    requires
        links_ok(c),
        c.len() > 0,
        valid_successor(b, c.last()),
    ensures
        links_ok(c.push(b)),
{
    assert forall|i: int| 0 < i < c.push(b).len() implies valid_successor(
        #[trigger] c.push(b)[i],
        c.push(b)[i - 1],
    ) by {
        if i < c.len() {
            assert(c.push(b)[i] == c[i]);
            assert(c.push(b)[i - 1] == c[i - 1]);
        }
    }
}

/// The chain that holds only the genesis block passes the audit.
pub proof fn lemma_genesis_links()
    ensures
        links_ok(seq![genesis_model()]),
{
}

impl Block {
    /// Builds a block and computes its hash from the other fields.
    pub fn new(
        index: u64,
        timestamp: u64,
        transactions: Vec<Transaction>,
        previous_hash: String,
    ) -> (r: Block)
        ensures
            r@ == built_block(index, timestamp, txs_view(transactions@), previous_hash@),
            r.transactions@ == transactions@,
    {
        let hash = Block::calculate_hash(index, timestamp, &transactions, previous_hash.as_str());
        Block { index, timestamp, transactions, previous_hash, hash }
    }

    /// True iff this block may follow `prev_block`.
    pub fn is_valid(&self, prev_block: &Block) -> (r: bool)
        ensures
            r == valid_successor(self@, prev_block@),
    {
        if prev_block.index == u64::MAX || self.index != prev_block.index + 1 {
            return false;
        }
        if !(self.previous_hash == prev_block.hash) {
            return false;
        }
        let h = Block::calculate_hash(
            self.index,
            self.timestamp,
            &self.transactions,
            self.previous_hash.as_str(),
        );
        self.hash == h
    }

    /// The hash of a block with these fields.
    pub fn calculate_hash(
        index: u64,
        timestamp: u64,
        transactions: &Vec<Transaction>,
        previous_hash: &str,
    ) -> (r: String)
        ensures
            r@ == block_hash(index, timestamp, txs_view(transactions@), previous_hash@),
    {
        let input = encode_hash_input(index, timestamp, transactions, previous_hash);
        sha256_hex(&input)
    }
}

/// The append-only chain of blocks.
pub struct Blockchain {
    pub chain: Vec<Block>,
}

impl View for Blockchain {
    type V = Seq<BlockModel>;

    open spec fn view(&self) -> Seq<BlockModel> {
        self.chain@.map_values(|b: Block| b@)
    }
}

impl Blockchain {
    /// A chain that holds the genesis block alone.
    pub fn new() -> (r: Blockchain)
        ensures
            r@ == seq![genesis_model()],
            r.chain@.len() == 1,
            links_ok(r@),
    {
        let sentinel = String::from_str("0");
        proof {
            reveal_strlit("0");
        }
        assert(sentinel@ == genesis_sentinel());
        let genesis = Block::new(0, 0, Vec::new(), sentinel);
        assert(txs_view(Seq::<Transaction>::empty()) =~= Seq::<TxModel>::empty());
        let r = Blockchain { chain: vec![genesis] };
        assert(r@ =~= seq![genesis_model()]);
        r
    }

    /// The hash of the tip.
    pub fn latest_hash(&self) -> (r: String)
        requires
            self.chain.len() > 0,
        ensures
            r@ == self@.last().hash,
    {
        self.chain[self.chain.len() - 1].hash.clone()
    }

    /// Appends `candidate` at the tip iff it is a valid successor of the tip;
    /// otherwise the chain is left as it was.
    pub fn append(&mut self, candidate: Block) -> (r: bool)
        requires
            old(self).chain.len() > 0,
        ensures
            r == valid_successor(candidate@, old(self)@.last()),
            r ==> final(self).chain@ == old(self).chain@.push(candidate),
            r ==> final(self)@ == old(self)@.push(candidate@),
            !r ==> *final(self) == *old(self),
    {
        let ok = candidate.is_valid(&self.chain[self.chain.len() - 1]);
        if ok {
            self.chain.push(candidate);
            assert(self@ =~= old(self)@.push(candidate@));
        }
        ok
    }

    /// Builds the next block from `transactions` and appends it.
    pub fn add_block(&mut self, transactions: Vec<Transaction>, timestamp: u64) -> (r: bool)
        requires
            old(self).chain.len() > 0,
        ensures
            r == (old(self)@.last().index as int + 1 == old(self)@.len()),
            r ==> final(self)@ == old(self)@.push(
                built_block(
                    old(self)@.len() as u64,
                    timestamp,
                    txs_view(transactions@),
                    old(self)@.last().hash,
                ),
            ),
            r ==> final(self).chain@.len() == old(self).chain@.len() + 1,
            r ==> final(self).chain@.last().transactions@ == transactions@,
            !r ==> *final(self) == *old(self),
    {
        let index = self.chain.len() as u64;
        let previous_hash = self.latest_hash();
        let new_block = Block::new(index, timestamp, transactions, previous_hash);
        self.append(new_block)
    }

    /// True iff every block but the first is a valid successor of the one before it.
    pub fn is_valid_chain(&self) -> (r: bool)
        ensures
            r == links_ok(self@),
    {
        let mut i: usize = 1;
        while i < self.chain.len()
            invariant
                1 <= i,
                forall|j: int| 0 < j < i && j < self@.len() ==> valid_successor(
                    #[trigger] self@[j],
                    self@[j - 1],
                ),
            decreases self.chain.len() - i,
        {
            if !self.chain[i].is_valid(&self.chain[i - 1]) {
                assert(self@[i as int] == self.chain@[i as int]@);
                assert(self@[i - 1] == self.chain@[i - 1]@);
                return false;
            }
            i = i + 1;
        }
        true
    }
}

} // verus!
