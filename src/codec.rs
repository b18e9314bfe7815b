//! The byte layout of transactions and blocks: the input of a block's digest
//! and the persisted record of a block.
use vstd::prelude::*;
use vstd::utf8::*;
use crate::digest::string_from_utf8;
use crate::types::{Block, BlockModel, Transaction, TxModel, txs_view};

verus! {

broadcast use vstd::string::is_ascii_spec_bytes;

/// Version tag that opens every persisted block record.
pub const RECORD_VERSION: u8 = 1;

/// `v` as eight bytes, most significant first.
pub open spec fn be8(v: u64) -> Seq<u8> {
    seq![
        (v >> 56u64) as u8,
        (v >> 48u64) as u8,
        (v >> 40u64) as u8,
        (v >> 32u64) as u8,
        (v >> 24u64) as u8,
        (v >> 16u64) as u8,
        (v >> 8u64) as u8,
        v as u8,
    ]
}

/// The number that eight big-endian bytes stand for.
pub open spec fn be8_value(b: Seq<u8>) -> u64
    recommends
        b.len() >= 8,
{
    ((b[0] as u64) << 56u64) | ((b[1] as u64) << 48u64) | ((b[2] as u64) << 40u64) | ((
    b[3] as u64) << 32u64) | ((b[4] as u64) << 24u64) | ((b[5] as u64) << 16u64) | ((
    b[6] as u64) << 8u64) | (b[7] as u64)
}

/// A string: its UTF-8 length as eight bytes, then its UTF-8 bytes.
pub open spec fn enc_str(s: Seq<char>) -> Seq<u8> {
    be8(encode_utf8(s).len() as u64) + encode_utf8(s)
}

/// An optional string: a tag byte, 0 for none and 1 for some, then the string.
pub open spec fn enc_opt(o: Option<Seq<char>>) -> Seq<u8> {
    match o {
        None => seq![0u8],
        Some(s) => seq![1u8] + enc_str(s),
    }
}

pub open spec fn enc_tx(t: TxModel) -> Seq<u8> {
    enc_str(t.from) + enc_str(t.to) + be8(t.amount) + be8(t.nonce) + enc_opt(t.signature)
}

/// The transactions one after another, with no separator.
pub open spec fn enc_txs(ts: Seq<TxModel>) -> Seq<u8>
    decreases ts.len(),
{
    if ts.len() == 0 {
        Seq::empty()
    } else {
        enc_tx(ts[0]) + enc_txs(ts.drop_first())
    }
}

/// The bytes that a block's digest is taken over.
pub open spec fn hash_input(
    index: u64,
    timestamp: u64,
    txs: Seq<TxModel>,
    previous_hash: Seq<char>,
) -> Seq<u8> {
    be8(index) + be8(timestamp) + be8(txs.len() as u64) + enc_txs(txs) + enc_str(previous_hash)
}

/// The persisted record of a block: the version tag, the digest input, then the hash.
pub open spec fn enc_block(b: BlockModel) -> Seq<u8> {
    seq![RECORD_VERSION] + hash_input(b.index, b.timestamp, b.transactions, b.previous_hash)
        + enc_str(b.hash)
}

pub proof fn lemma_enc_txs_push(ts: Seq<TxModel>, t: TxModel)
    ensures
        enc_txs(ts.push(t)) == enc_txs(ts) + enc_tx(t),
    decreases ts.len(),
{
    if ts.len() == 0 {
        assert(ts.push(t).drop_first() =~= Seq::<TxModel>::empty());
        assert(ts.push(t)[0] == t);
        assert(enc_txs(ts.push(t).drop_first()) == Seq::<u8>::empty());
        assert(enc_txs(ts) == Seq::<u8>::empty());
        assert(enc_txs(ts.push(t)) =~= enc_txs(ts) + enc_tx(t));
    } else {
        assert(ts.push(t).drop_first() =~= ts.drop_first().push(t));
        lemma_enc_txs_push(ts.drop_first(), t);
        assert(ts.push(t)[0] == ts[0]);
        assert(enc_txs(ts.push(t)) =~= enc_txs(ts) + enc_tx(t));
    }
}

pub(crate) fn push_u64(out: &mut Vec<u8>, v: u64)
    ensures
        final(out)@ == old(out)@ + be8(v),
{
    out.push((v >> 56u64) as u8);
    out.push((v >> 48u64) as u8);
    out.push((v >> 40u64) as u8);
    out.push((v >> 32u64) as u8);
    out.push((v >> 24u64) as u8);
    out.push((v >> 16u64) as u8);
    out.push((v >> 8u64) as u8);
    out.push(v as u8);
    assert(final(out)@ =~= old(out)@ + be8(v));
}

fn push_bytes(out: &mut Vec<u8>, b: &[u8])
    ensures
        final(out)@ == old(out)@ + b@,
{
    let ghost start = out@;
    let mut i: usize = 0;
    while i < b.len()
        invariant
            i <= b.len(),
            out@ == start + b@.take(i as int),
        decreases b.len() - i,
    {
        out.push(b[i]);
        i = i + 1;
        assert(out@ =~= start + b@.take(i as int));
    }
    assert(b@.take(b@.len() as int) =~= b@);
}

fn push_str(out: &mut Vec<u8>, s: &String)
    ensures
        final(out)@ == old(out)@ + enc_str(s@),
{
    let b = s.as_str().as_bytes();
    push_u64(out, b.len() as u64);
    push_bytes(out, b);
    assert(final(out)@ =~= old(out)@ + enc_str(s@));
}

fn push_tx(out: &mut Vec<u8>, t: &Transaction)
    ensures
        final(out)@ == old(out)@ + enc_tx(t@),
{
    push_str(out, &t.from);
    push_str(out, &t.to);
    push_u64(out, t.amount);
    push_u64(out, t.nonce);
    match &t.signature {
        None => {
            out.push(0u8);
        },
        Some(s) => {
            out.push(1u8);
            push_str(out, s);
        },
    }
    assert(final(out)@ =~= old(out)@ + enc_tx(t@));
}

fn push_txs(out: &mut Vec<u8>, txs: &Vec<Transaction>)
    ensures
        final(out)@ == old(out)@ + enc_txs(txs_view(txs@)),
{
    let ghost start = out@;
    let mut i: usize = 0;
    while i < txs.len()
        invariant
            i <= txs.len(),
            out@ == start + enc_txs(txs_view(txs@.take(i as int))),
        decreases txs.len() - i,
    {
        push_tx(out, &txs[i]);
        proof {
            assert(txs_view(txs@.take(i + 1)) =~= txs_view(txs@.take(i as int)).push(txs@[i as int]@));
            lemma_enc_txs_push(txs_view(txs@.take(i as int)), txs@[i as int]@);
        }
        i = i + 1;
        assert(out@ =~= start + enc_txs(txs_view(txs@.take(i as int))));
    }
    assert(txs@.take(txs@.len() as int) =~= txs@);
}

/// The bytes that the digest of a block with these fields is taken over.
pub fn encode_hash_input(
    index: u64,
    timestamp: u64,
    transactions: &Vec<Transaction>,
    previous_hash: &str,
) -> (r: Vec<u8>)
    ensures
        r@ == hash_input(index, timestamp, txs_view(transactions@), previous_hash@),
{
    let mut out: Vec<u8> = Vec::new();
    push_u64(&mut out, index);
    push_u64(&mut out, timestamp);
    push_u64(&mut out, transactions.len() as u64);
    push_txs(&mut out, transactions);
    let p = previous_hash.to_owned();
    push_str(&mut out, &p);
    assert(out@ =~= hash_input(index, timestamp, txs_view(transactions@), previous_hash@));
    out
}

/// The persisted record of a block.
pub fn encode_block(b: &Block) -> (r: Vec<u8>)
    ensures
        r@ == enc_block(b@),
{
    let mut out: Vec<u8> = Vec::new();
    out.push(RECORD_VERSION);
    push_u64(&mut out, b.index);
    push_u64(&mut out, b.timestamp);
    push_u64(&mut out, b.transactions.len() as u64);
    push_txs(&mut out, &b.transactions);
    push_str(&mut out, &b.previous_hash);
    push_str(&mut out, &b.hash);
    assert(out@ =~= enc_block(b@));
    out
}

// Reading bytes back. Each parser takes the bytes that remain and gives the
// value read and the bytes that remain after it.

pub open spec fn parse_u64(s: Seq<u8>) -> Option<(u64, Seq<u8>)> {
    if s.len() >= 8 {
        Some((be8_value(s), s.skip(8)))
    } else {
        None
    }
}

pub open spec fn parse_str(s: Seq<u8>) -> Option<(Seq<char>, Seq<u8>)> {
    match parse_u64(s) {
        None => None,
        Some((n, r)) => if n <= r.len() && valid_utf8(r.take(n as int)) {
            Some((decode_utf8(r.take(n as int)), r.skip(n as int)))
        } else {
            None
        },
    }
}

pub open spec fn parse_opt(s: Seq<u8>) -> Option<(Option<Seq<char>>, Seq<u8>)> {
    if s.len() == 0 {
        None
    } else if s[0] == 0 {
        Some((None, s.skip(1)))
    } else if s[0] == 1 {
        match parse_str(s.skip(1)) {
            None => None,
            Some((x, r)) => Some((Some(x), r)),
        }
    } else {
        None
    }
}

pub open spec fn parse_tx(s: Seq<u8>) -> Option<(TxModel, Seq<u8>)> {
    match parse_str(s) {
        None => None,
        Some((from, r1)) => match parse_str(r1) {
            None => None,
            Some((to, r2)) => match parse_u64(r2) {
                None => None,
                Some((amount, r3)) => match parse_u64(r3) {
                    None => None,
                    Some((nonce, r4)) => match parse_opt(r4) {
                        None => None,
                        Some((signature, r5)) => Some(
                            (TxModel { from, to, amount, nonce, signature }, r5),
                        ),
                    },
                },
            },
        },
    }
}

pub open spec fn parse_txs(s: Seq<u8>, n: nat) -> Option<(Seq<TxModel>, Seq<u8>)>
    decreases n,
{
    if n == 0 {
        Some((Seq::empty(), s))
    } else {
        match parse_tx(s) {
            None => None,
            Some((t, r)) => match parse_txs(r, (n - 1) as nat) {
                None => None,
                Some((ts, r2)) => Some((seq![t] + ts, r2)),
            },
        }
    }
}

/// The block that a persisted record holds, if the bytes are one record exactly.
pub open spec fn parse_block(s: Seq<u8>) -> Option<BlockModel> {
    if s.len() == 0 || s[0] != RECORD_VERSION {
        None
    } else {
        match parse_u64(s.skip(1)) {
            None => None,
            Some((index, r1)) => match parse_u64(r1) {
                None => None,
                Some((timestamp, r2)) => match parse_u64(r2) {
                    None => None,
                    Some((n, r3)) => match parse_txs(r3, n as nat) {
                        None => None,
                        Some((transactions, r4)) => match parse_str(r4) {
                            None => None,
                            Some((previous_hash, r5)) => match parse_str(r5) {
                                None => None,
                                Some((hash, r6)) => if r6.len() == 0 {
                                    Some(
                                        BlockModel {
                                            index,
                                            timestamp,
                                            transactions,
                                            previous_hash,
                                            hash,
                                        },
                                    )
                                } else {
                                    None
                                },
                            },
                        },
                    },
                },
            },
        }
    }
}

/// A string whose UTF-8 length fits the eight-byte length prefix.
pub open spec fn str_encodable(s: Seq<char>) -> bool {
    encode_utf8(s).len() <= u64::MAX
}

pub open spec fn tx_encodable(t: TxModel) -> bool {
    &&& str_encodable(t.from)
    &&& str_encodable(t.to)
    &&& (t.signature is Some ==> str_encodable(t.signature->Some_0))
}

/// Every length in the block fits its eight-byte prefix.
pub open spec fn block_encodable(b: BlockModel) -> bool {
    &&& b.transactions.len() <= u64::MAX
    &&& forall|i: int| 0 <= i < b.transactions.len() ==> tx_encodable(#[trigger] b.transactions[i])
    &&& str_encodable(b.previous_hash)
    &&& str_encodable(b.hash)
}

proof fn lemma_parse_u64(v: u64, r: Seq<u8>)
    ensures
        parse_u64(be8(v) + r) == Some((v, r)),
{
    let s = be8(v) + r;
    assert(s[0] == (v >> 56u64) as u8);
    assert(s[1] == (v >> 48u64) as u8);
    assert(s[2] == (v >> 40u64) as u8);
    assert(s[3] == (v >> 32u64) as u8);
    assert(s[4] == (v >> 24u64) as u8);
    assert(s[5] == (v >> 16u64) as u8);
    assert(s[6] == (v >> 8u64) as u8);
    assert(s[7] == v as u8);
    assert(((((v >> 56u64) as u8) as u64) << 56u64) | ((((v >> 48u64) as u8) as u64) << 48u64)
        | ((((v >> 40u64) as u8) as u64) << 40u64) | ((((v >> 32u64) as u8) as u64) << 32u64)
        | ((((v >> 24u64) as u8) as u64) << 24u64) | ((((v >> 16u64) as u8) as u64) << 16u64)
        | ((((v >> 8u64) as u8) as u64) << 8u64) | ((v as u8) as u64) == v) by (bit_vector);
    assert(s.skip(8) =~= r);
}

proof fn lemma_parse_str(c: Seq<char>, r: Seq<u8>)
    requires
        str_encodable(c),
    ensures
        parse_str(enc_str(c) + r) == Some((c, r)),
{
    let e = encode_utf8(c);
    assert(enc_str(c) + r =~= be8(e.len() as u64) + (e + r));
    lemma_parse_u64(e.len() as u64, e + r);
    assert((e + r).take(e.len() as int) =~= e);
    assert((e + r).skip(e.len() as int) =~= r);
    encode_utf8_valid_utf8(c);
    encode_utf8_decode_utf8(c);
}

proof fn lemma_parse_opt(o: Option<Seq<char>>, r: Seq<u8>)
    requires
        o is Some ==> str_encodable(o->Some_0),
    ensures
        parse_opt(enc_opt(o) + r) == Some((o, r)),
{
    match o {
        None => {
            assert((enc_opt(o) + r).skip(1) =~= r);
        },
        Some(x) => {
            assert((enc_opt(o) + r).skip(1) =~= enc_str(x) + r);
            lemma_parse_str(x, r);
        },
    }
}

proof fn lemma_parse_tx(t: TxModel, r: Seq<u8>)
    requires
        tx_encodable(t),
    ensures
        parse_tx(enc_tx(t) + r) == Some((t, r)),
{
    let r4 = enc_opt(t.signature) + r;
    let r3 = be8(t.nonce) + r4;
    let r2 = be8(t.amount) + r3;
    let r1 = enc_str(t.to) + r2;
    assert(enc_tx(t) + r =~= enc_str(t.from) + r1);
    lemma_parse_str(t.from, r1);
    lemma_parse_str(t.to, r2);
    lemma_parse_u64(t.amount, r3);
    lemma_parse_u64(t.nonce, r4);
    lemma_parse_opt(t.signature, r);
}

#[verifier::rlimit(60)]
proof fn lemma_parse_txs(ts: Seq<TxModel>, r: Seq<u8>)
    requires
        forall|i: int| 0 <= i < ts.len() ==> tx_encodable(#[trigger] ts[i]),
    ensures
        parse_txs(enc_txs(ts) + r, ts.len()) == Some((ts, r)),
    decreases ts.len(),
{
    if ts.len() == 0 {
        assert(enc_txs(ts) + r =~= r);
    } else {
        let rest = ts.drop_first();
        assert(enc_txs(ts) + r =~= enc_tx(ts[0]) + (enc_txs(rest) + r));
        assert(tx_encodable(ts[0]));
        lemma_parse_tx(ts[0], enc_txs(rest) + r);
        assert forall|i: int| 0 <= i < rest.len() implies tx_encodable(#[trigger] rest[i]) by {
            assert(rest[i] == ts[i + 1]);
        }
        lemma_parse_txs(rest, r);
        assert(seq![ts[0]] + rest =~= ts);
    }
}

/// Reading back the record of a block gives the same block, every field equal.
#[verifier::rlimit(60)]
pub proof fn lemma_block_round_trip(b: BlockModel)
    requires
        block_encodable(b),
    ensures
        parse_block(enc_block(b)) == Some(b),
{
    let e = Seq::<u8>::empty();
    let r5 = enc_str(b.hash);
    let r4 = enc_str(b.previous_hash) + r5;
    let r3 = enc_txs(b.transactions) + r4;
    let r2 = be8(b.transactions.len() as u64) + r3;
    let r1 = be8(b.timestamp) + r2;
    let s = enc_block(b);
    assert(s =~= seq![RECORD_VERSION] + (be8(b.index) + r1));
    assert(s.skip(1) =~= be8(b.index) + r1);
    lemma_parse_u64(b.index, r1);
    lemma_parse_u64(b.timestamp, r2);
    lemma_parse_u64(b.transactions.len() as u64, r3);
    lemma_parse_txs(b.transactions, r4);
    lemma_parse_str(b.previous_hash, r5);
    assert(r5 =~= enc_str(b.hash) + e);
    lemma_parse_str(b.hash, e);
}

fn read_u64(b: &[u8], pos: usize) -> (r: Option<(u64, usize)>)
    requires
        pos <= b@.len(),
    ensures
        match parse_u64(b@.skip(pos as int)) {
            None => r is None,
            Some((v, rest)) => r is Some && r->Some_0.0 == v && r->Some_0.1 <= b@.len()
                && b@.skip(r->Some_0.1 as int) == rest,
        },
{
    if b.len() - pos < 8 {
        return None;
    }
    let v = ((b[pos] as u64) << 56u64) | ((b[pos + 1] as u64) << 48u64) | ((b[pos + 2] as u64)
        << 40u64) | ((b[pos + 3] as u64) << 32u64) | ((b[pos + 4] as u64) << 24u64) | ((b[pos
        + 5] as u64) << 16u64) | ((b[pos + 6] as u64) << 8u64) | (b[pos + 7] as u64);
    assert(b@.skip(pos as int).skip(8) =~= b@.skip(pos + 8));
    Some((v, pos + 8))
}

fn read_str(b: &[u8], pos: usize) -> (r: Option<(String, usize)>)
    requires
        pos <= b@.len(),
    ensures
        match parse_str(b@.skip(pos as int)) {
            None => r is None,
            Some((v, rest)) => r is Some && r->Some_0.0@ == v && r->Some_0.1 <= b@.len()
                && b@.skip(r->Some_0.1 as int) == rest,
        },
{
    let (n, start) = match read_u64(b, pos) {
        None => return None,
        Some(x) => x,
    };
    if n > (b.len() - start) as u64 {
        return None;
    }
    let end = start + n as usize;
    let mut bytes: Vec<u8> = Vec::new();
    let mut i: usize = start;
    while i < end
        invariant
            start <= i <= end,
            end <= b@.len(),
            bytes@ == b@.subrange(start as int, i as int),
        decreases end - i,
    {
        bytes.push(b[i]);
        i = i + 1;
        assert(bytes@ =~= b@.subrange(start as int, i as int));
    }
    assert(b@.skip(start as int).take(n as int) =~= b@.subrange(start as int, end as int));
    assert(b@.skip(start as int).skip(n as int) =~= b@.skip(end as int));
    match string_from_utf8(bytes) {
        None => None,
        Some(s) => Some((s, end)),
    }
}

fn read_opt(b: &[u8], pos: usize) -> (r: Option<(Option<String>, usize)>)
    requires
        pos <= b@.len(),
    ensures
        match parse_opt(b@.skip(pos as int)) {
            None => r is None,
            Some((v, rest)) => r is Some && crate::types::opt_str_view(r->Some_0.0) == v
                && r->Some_0.1 <= b@.len() && b@.skip(r->Some_0.1 as int) == rest,
        },
{
    if pos == b.len() {
        return None;
    }
    let tag = b[pos];
    assert(b@.skip(pos as int)[0] == tag);
    assert(b@.skip(pos as int).skip(1) =~= b@.skip(pos + 1));
    if tag == 0 {
        Some((None, pos + 1))
    } else if tag == 1 {
        match read_str(b, pos + 1) {
            None => None,
            Some((s, p)) => Some((Some(s), p)),
        }
    } else {
        None
    }
}

fn read_tx(b: &[u8], pos: usize) -> (r: Option<(Transaction, usize)>)
    requires
        pos <= b@.len(),
    ensures
        match parse_tx(b@.skip(pos as int)) {
            None => r is None,
            Some((v, rest)) => r is Some && r->Some_0.0@ == v && r->Some_0.1 <= b@.len()
                && b@.skip(r->Some_0.1 as int) == rest,
        },
{
    let (from, at_to) = match read_str(b, pos) {
        None => return None,
        Some(x) => x,
    };
    let (to, at_amount) = match read_str(b, at_to) {
        None => return None,
        Some(x) => x,
    };
    let (amount, at_nonce) = match read_u64(b, at_amount) {
        None => return None,
        Some(x) => x,
    };
    let (nonce, at_sig) = match read_u64(b, at_nonce) {
        None => return None,
        Some(x) => x,
    };
    let (signature, at_end) = match read_opt(b, at_sig) {
        None => return None,
        Some(x) => x,
    };
    Some((Transaction { from, to, amount, nonce, signature }, at_end))
}

fn read_txs(b: &[u8], pos: usize, n: u64) -> (r: Option<(Vec<Transaction>, usize)>)
    requires
        pos <= b@.len(),
    ensures
        match parse_txs(b@.skip(pos as int), n as nat) {
            None => r is None,
            Some((v, rest)) => r is Some && txs_view(r->Some_0.0@) == v && r->Some_0.1
                <= b@.len() && b@.skip(r->Some_0.1 as int) == rest,
        },
{
    let mut out: Vec<Transaction> = Vec::new();
    let mut p: usize = pos;
    let mut i: u64 = 0;
    while i < n
        invariant
            i <= n,
            p <= b@.len(),
            parse_txs(b@.skip(pos as int), n as nat) == match parse_txs(
                b@.skip(p as int),
                (n - i) as nat,
            ) {
                None => None,
                Some((ts, rest)) => Some((txs_view(out@) + ts, rest)),
            },
        decreases n - i,
    {
        let ghost before = out@;
        match read_tx(b, p) {
            None => {
                return None;
            },
            Some((t, q)) => {
                proof {
                    let k = (n - i) as nat;
                    assert(parse_txs(b@.skip(p as int), k) == match parse_txs(
                        b@.skip(q as int),
                        (k - 1) as nat,
                    ) {
                        None => None,
                        Some((ts, rest)) => Some((seq![t@] + ts, rest)),
                    });
                }
                out.push(t);
                p = q;
                i = i + 1;
                proof {
                    assert(txs_view(out@) =~= txs_view(before).push(out@.last()@));
                    assert forall|ts: Seq<TxModel>| #[trigger] (txs_view(before) + (seq![out@.last()@] + ts)) =~= txs_view(out@) + ts by {}
                }
            },
        }
    }
    assert(txs_view(out@) + Seq::<TxModel>::empty() =~= txs_view(out@));
    Some((out, p))
}

/// The block that a persisted record holds, or none where the bytes are not
/// exactly one record.
pub fn decode_block(b: &[u8]) -> (r: Option<Block>)
    ensures
        match parse_block(b@) {
            None => r is None,
            Some(m) => r is Some && r->Some_0@ == m,
        },
{
    if b.len() == 0 || b[0] != RECORD_VERSION {
        return None;
    }
    assert(b@.skip(0) =~= b@);
    let (index, at_ts) = match read_u64(b, 1) {
        None => return None,
        Some(x) => x,
    };
    let (timestamp, at_count) = match read_u64(b, at_ts) {
        None => return None,
        Some(x) => x,
    };
    let (n, at_txs) = match read_u64(b, at_count) {
        None => return None,
        Some(x) => x,
    };
    let (transactions, at_prev) = match read_txs(b, at_txs, n) {
        None => return None,
        Some(x) => x,
    };
    let (previous_hash, at_hash) = match read_str(b, at_prev) {
        None => return None,
        Some(x) => x,
    };
    let (hash, at_end) = match read_str(b, at_hash) {
        None => return None,
        Some(x) => x,
    };
    if at_end != b.len() {
        return None;
    }
    Some(Block { index, timestamp, transactions, previous_hash, hash })
}

} // verus!
