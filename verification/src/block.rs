//! Blocks of the chain and their canonical text form.
//!
//! A block's hash is the SHA-256 hex digest of its canonical form, which
//! lists `nonce`, `previous_hash`, `timestamp`, `transactions` (each in its
//! own canonical form, comma-joined) and `miner`, in that order. The hash
//! used by the proof-of-work search is computed over exactly the fields of
//! the sealed block, so a sealed block's own hash re-validates against the
//! difficulty target.

use vstd::prelude::*;
use vstd::string::StringExecFns;

use crate::crypto::{sha256_hex, sha256_str};
use crate::text::{dec_int, i64_dec};
use crate::transaction::{transaction_canon, Transaction, TransactionModel};

verus! {

/// The mathematical value of a block.
#[verifier::ext_equal]
pub ghost struct BlockModel {
    pub nonce: i32,
    pub previous_hash: Seq<char>,
    pub timestamp: i64,
    pub transactions: Seq<TransactionModel>,
    pub miner: Seq<char>,
}

/// The models of a sequence of transactions, in order.
pub open spec fn transaction_models(ts: Seq<Transaction>) -> Seq<TransactionModel> {
    ts.map_values(|t: Transaction| t@)
}

/// The models of a sequence of blocks, in order.
pub open spec fn block_models(bs: Seq<Block>) -> Seq<BlockModel> {
    bs.map_values(|b: Block| b@)
}

/// The canonical forms of the transactions, comma-joined.
pub open spec fn transactions_canon(ts: Seq<TransactionModel>) -> Seq<char>
    decreases ts.len(),
{
    if ts.len() == 0 {
        Seq::<char>::empty()
    } else if ts.len() == 1 {
        transaction_canon(ts[0])
    } else {
        transactions_canon(ts.drop_last()) + ","@ + transaction_canon(ts.last())
    }
}

/// The canonical text form of a block:
/// `{"nonce":N,"previous_hash":"H","timestamp":T,"transactions":[..],"miner":"M"}`.
pub open spec fn block_canon(b: BlockModel) -> Seq<char> {
    "{\"nonce\":"@ + dec_int(b.nonce as int) + ",\"previous_hash\":\""@ + b.previous_hash
        + "\",\"timestamp\":"@ + dec_int(b.timestamp as int) + ",\"transactions\":["@
        + transactions_canon(b.transactions) + "],\"miner\":\""@ + b.miner + "\"}"@
}

/// A block's hash: the SHA-256 hex digest of its canonical form.
pub open spec fn block_hash(b: BlockModel) -> Seq<char> {
    sha256_hex(block_canon(b))
}

/// The fixed description of the block that precedes the chain: all fields
/// empty or zero, with the placeholder miner "none". Its hash is the
/// deterministic `previous_hash` of the genesis block.
pub open spec fn empty_block_model() -> BlockModel {
    BlockModel {
        nonce: 0,
        previous_hash: Seq::<char>::empty(),
        timestamp: 0,
        transactions: Seq::<TransactionModel>::empty(),
        miner: "none"@,
    }
}

/// The deterministic `previous_hash` of the genesis block: the hash of the
/// canonical empty block description.
pub open spec fn genesis_previous_hash() -> Seq<char> {
    block_hash(empty_block_model())
}

/// A sealed block. Immutable once constructed; created by the ledger engine
/// at sealing time and lives forever in the chain.
#[derive(Clone, Debug)]
pub struct Block {
    nonce: i32,
    previous_hash: String,
    timestamp: i64,
    transactions: Vec<Transaction>,
    miner: String,
}

impl View for Block {
    type V = BlockModel;

    closed spec fn view(&self) -> BlockModel {
        BlockModel {
            nonce: self.nonce,
            previous_hash: self.previous_hash@,
            timestamp: self.timestamp,
            transactions: transaction_models(self.transactions@),
            miner: self.miner@,
        }
    }
}

/// Builds the canonical form of a block from its parts. Shared by
/// `Block::canonical_form` and the proof-of-work search, so the search hashes
/// exactly what the sealed block will hash.
pub(crate) fn block_canon_string(
    nonce: i32,
    previous_hash: &str,
    timestamp: i64,
    transactions: &Vec<Transaction>,
    miner: &str,
) -> (r: String)
    ensures
        r@ == block_canon(
            BlockModel {
                nonce,
                previous_hash: previous_hash@,
                timestamp,
                transactions: transaction_models(transactions@),
                miner: miner@,
            },
        ),
{
    let ghost models = transaction_models(transactions@);
    let mut s = String::from_str("{\"nonce\":");
    let n = i64_dec(nonce as i64);
    s.append(n.as_str());
    s.append(",\"previous_hash\":\"");
    s.append(previous_hash);
    s.append("\",\"timestamp\":");
    let t = i64_dec(timestamp);
    s.append(t.as_str());
    s.append(",\"transactions\":[");
    let ghost head = s@;
    let mut i: usize = 0;
    while i < transactions.len()
        invariant
            i <= transactions@.len(),
            models == transaction_models(transactions@),
            models.len() == transactions@.len(),
            s@ == head + transactions_canon(models.subrange(0, i as int)),
        decreases transactions@.len() - i,
    {
        if i > 0 {
            s.append(",");
        }
        let tc = transactions[i].canonical_form();
        s.append(tc.as_str());
        proof {
            let pre = models.subrange(0, i as int);
            let cur = models.subrange(0, i as int + 1);
            assert(cur.drop_last() =~= pre);
            assert(cur.last() == models[i as int]);
            assert(transactions@[i as int]@ == models[i as int]);
            if i == 0 {
                assert(transactions_canon(cur) == transaction_canon(models[0]));
                assert(s@ =~= head + transactions_canon(cur));
            } else {
                assert(transactions_canon(cur) == transactions_canon(pre) + ","@
                    + transaction_canon(models[i as int]));
                assert(s@ =~= head + transactions_canon(cur));
            }
        }
        i = i + 1;
    }
    proof {
        assert(models.subrange(0, models.len() as int) =~= models);
    }
    s.append("],\"miner\":\"");
    s.append(miner);
    s.append("\"}");
    proof {
        assert(s@ =~= block_canon(
            BlockModel {
                nonce,
                previous_hash: previous_hash@,
                timestamp,
                transactions: models,
                miner: miner@,
            },
        ));
    }
    s
}

impl Block {
    pub fn new(
        nonce: i32,
        previous_hash: String,
        transactions: Vec<Transaction>,
        timestamp: i64,
        miner: String,
    ) -> (r: Self)
        ensures
            r@ == (BlockModel {
                nonce,
                previous_hash: previous_hash@,
                timestamp,
                transactions: transaction_models(transactions@),
                miner: miner@,
            }),
    {
        Block { nonce, previous_hash, timestamp, transactions, miner }
    }

    /// The exact byte sequence that is hashed for this block. A pure
    /// function of the field values.
    pub fn canonical_form(&self) -> (r: String)
        ensures
            r@ == block_canon(self@),
    {
        block_canon_string(
            self.nonce,
            self.previous_hash.as_str(),
            self.timestamp,
            &self.transactions,
            self.miner.as_str(),
        )
    }

    /// The block's hash: 64 lowercase hex characters, a pure function of the
    /// block's canonical form.
    pub fn hash(&self) -> (r: String)
        ensures
            r@ == block_hash(self@),
            r@.len() == 64,
    {
        let c = self.canonical_form();
        sha256_str(c.as_str())
    }

    pub fn nonce(&self) -> (r: i32)
        ensures
            r == self@.nonce,
    {
        self.nonce
    }

    pub fn previous_hash(&self) -> (r: &String)
        ensures
            r@ == self@.previous_hash,
    {
        &self.previous_hash
    }

    pub fn timestamp(&self) -> (r: i64)
        ensures
            r == self@.timestamp,
    {
        self.timestamp
    }

    pub fn transactions(&self) -> (r: &Vec<Transaction>)
        ensures
            transaction_models(r@) == self@.transactions,
    {
        &self.transactions
    }

    pub fn miner(&self) -> (r: &String)
        ensures
            r@ == self@.miner,
    {
        &self.miner
    }
}

} // verus!
