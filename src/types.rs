use vstd::prelude::*;

verus! {

/// What a transaction holds, as plain mathematical values.
pub ghost struct TxModel {
    pub from: Seq<char>,
    pub to: Seq<char>,
    pub amount: u64,
    pub nonce: u64,
    pub signature: Option<Seq<char>>,
}

/// A transfer of `amount` from one address to another.
#[derive(Debug)]
pub struct Transaction {
    pub from: String,
    pub to: String,
    pub amount: u64,
    pub nonce: u64,
    pub signature: Option<String>,
}

pub open spec fn opt_str_view(s: Option<String>) -> Option<Seq<char>> {
    match s {
        Some(x) => Some(x@),
        None => None,
    }
}

impl View for Transaction {
    type V = TxModel;

    open spec fn view(&self) -> TxModel {
        TxModel {
            from: self.from@,
            to: self.to@,
            amount: self.amount,
            nonce: self.nonce,
            signature: opt_str_view(self.signature),
        }
    }
}

fn clone_opt_str(s: &Option<String>) -> (r: Option<String>)
    ensures
        opt_str_view(r) == opt_str_view(*s),
{
    match s {
        Some(x) => Some(x.clone()),
        None => None,
    }
}

impl Clone for Transaction {
    fn clone(&self) -> (r: Self)
        ensures
            r@ == self@,
    {
        Transaction {
            from: self.from.clone(),
            to: self.to.clone(),
            amount: self.amount,
            nonce: self.nonce,
            signature: clone_opt_str(&self.signature),
        }
    }
}

impl PartialEq for Transaction {
    fn eq(&self, o: &Transaction) -> (r: bool) {
        let sig_eq = match (&self.signature, &o.signature) {
            (Some(a), Some(b)) => a.eq(b),
            (None, None) => true,
            _ => false,
        };
        assert(sig_eq == (opt_str_view(self.signature) == opt_str_view(o.signature)));
        self.from == o.from && self.to == o.to && self.amount == o.amount && self.nonce == o.nonce
            && sig_eq
    }
}

impl vstd::std_specs::cmp::PartialEqSpecImpl for Transaction {
    open spec fn obeys_eq_spec() -> bool {
        true
    }

    open spec fn eq_spec(&self, o: &Transaction) -> bool {
        self@ == o@
    }
}

impl Eq for Transaction {

}

/// The models of a sequence of transactions.
pub open spec fn txs_view(txs: Seq<Transaction>) -> Seq<TxModel> {
    txs.map_values(|t: Transaction| t@)
}

/// What a block holds, as plain mathematical values.
pub ghost struct BlockModel {
    pub index: u64,
    pub timestamp: u64,
    pub transactions: Seq<TxModel>,
    pub previous_hash: Seq<char>,
    pub hash: Seq<char>,
}

/// A block of the chain; `hash` is the digest of the other fields.
#[derive(Debug)]
pub struct Block {
    pub index: u64,
    pub timestamp: u64,
    pub transactions: Vec<Transaction>,
    pub previous_hash: String,
    pub hash: String,
}

impl View for Block {
    type V = BlockModel;

    open spec fn view(&self) -> BlockModel {
        BlockModel {
            index: self.index,
            timestamp: self.timestamp,
            transactions: txs_view(self.transactions@),
            previous_hash: self.previous_hash@,
            hash: self.hash@,
        }
    }
}

/// Copies a sequence of transactions, keeping every field.
pub fn clone_txs(txs: &Vec<Transaction>) -> (r: Vec<Transaction>)
    ensures
        txs_view(r@) == txs_view(txs@),
{
    let mut out: Vec<Transaction> = Vec::new();
    let mut i: usize = 0;
    while i < txs.len()
        invariant
            i <= txs.len(),
            out@.len() == i,
            forall|j: int| 0 <= j < i ==> (#[trigger] out@[j])@ == txs@[j]@,
        decreases txs.len() - i,
    {
        out.push(txs[i].clone());
        i = i + 1;
    }
    assert(txs_view(out@) =~= txs_view(txs@));
    out
}

impl Clone for Block {
    fn clone(&self) -> (r: Self)
        ensures
            r@ == self@,
    {
        Block {
            index: self.index,
            timestamp: self.timestamp,
            transactions: clone_txs(&self.transactions),
            previous_hash: self.previous_hash.clone(),
            hash: self.hash.clone(),
        }
    }
}

} // verus!
