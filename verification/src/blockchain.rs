//! The ledger engine: chain, pending pool, admission, balances and sealing.
//!
//! The engine owns the append-only chain and the pending transaction pool.
//! Admission verifies the sender's signature and, for every sender but the
//! engine's own authority, the available balance (sealed chain plus pending
//! pool). Sealing drains the pool in reverse admission order into a new
//! block, runs the proof-of-work search over exactly the fields of the block
//! to be sealed, and appends it; the authority pays the miner a fixed reward
//! through an ordinary admitted transaction.
//!
//! Amounts are integer minor units. The engine keeps the total recorded
//! volume (the sum of all amounts in chain and pool) within `u64::MAX`,
//! rejecting an admission that would push it past; balances therefore always
//! fit an `i128` and balance arithmetic is exact.
//!
//! All mutation goes through `&mut self` methods and no raw handle to the
//! chain or the pool is ever exposed, so admission's check-then-insert and
//! sealing's drain-search-append each run as a single critical section;
//! callers that share one engine across threads put it behind a lock of
//! their own.

use vstd::prelude::*;
use vstd::string::StringExecFns;

use crate::block::{
    block_canon_string, block_hash, block_models, empty_block_model, genesis_previous_hash,
    transaction_models, Block, BlockModel,
};
use crate::crypto::{ecdsa_verifies, now_nanos, p256_sign_ok, p256_verify, sha256_str};
use crate::transaction::{transaction_canon, Transaction, TransactionModel};
use crate::wallet::Wallet;

verus! {

/// Minimum count of leading zero hex characters a sealed block's hash must
/// show.
pub const MINING_DIFFICULTY: u8 = 3;

/// The fixed reward, in minor units, the authority pays the sealing miner.
pub const MINING_REWARD: u64 = 1;

/// Errors of the ledger engine. `InvalidSignature` and
/// `AvailableBalanceExceeded` are ordinary, expected rejections;
/// `AmountOverflow` rejects an admission that would push the ledger's total
/// recorded volume past the accounting range; the remaining kinds are hard
/// failures of the cryptographic layer or of shared state.
#[derive(Debug)]
pub enum Error {
    MutexPoison(String),
    Json(String),
    Ecdsa(String),
    InvalidSignature(String),
    AvailableBalanceExceeded(String),
    AmountOverflow(String),
}

pub type Result<T> = core::result::Result<T, Error>;

/// What one transaction contributes to an address's balance: `+amount` when
/// the address receives, `-amount` when it sends.
pub open spec fn transaction_delta(t: TransactionModel, address: Seq<char>) -> int {
    (if t.recipient == address {
        t.amount as int
    } else {
        0
    }) - (if t.sender == address {
        t.amount as int
    } else {
        0
    })
}

/// The balance an address draws from a sequence of transactions.
pub open spec fn transactions_balance(ts: Seq<TransactionModel>, address: Seq<char>) -> int
    decreases ts.len(),
{
    if ts.len() == 0 {
        0
    } else {
        transactions_balance(ts.drop_last(), address) + transaction_delta(ts.last(), address)
    }
}

/// The balance an address draws from the sealed chain.
pub open spec fn chain_balance(bs: Seq<BlockModel>, address: Seq<char>) -> int
    decreases bs.len(),
{
    if bs.len() == 0 {
        0
    } else {
        chain_balance(bs.drop_last(), address) + transactions_balance(
            bs.last().transactions,
            address,
        )
    }
}

/// The sum of the amounts of a sequence of transactions.
pub open spec fn transactions_volume(ts: Seq<TransactionModel>) -> int
    decreases ts.len(),
{
    if ts.len() == 0 {
        0
    } else {
        transactions_volume(ts.drop_last()) + ts.last().amount as int
    }
}

/// The sum of the amounts of every transaction sealed in the chain.
pub open spec fn chain_volume(bs: Seq<BlockModel>) -> int
    decreases bs.len(),
{
    if bs.len() == 0 {
        0
    } else {
        chain_volume(bs.drop_last()) + transactions_volume(bs.last().transactions)
    }
}

/// Whether a hash meets the difficulty target: at least `MINING_DIFFICULTY`
/// leading `'0'` characters.
pub open spec fn meets_difficulty(h: Seq<char>) -> bool {
    h.len() >= MINING_DIFFICULTY as int && forall|i: int|
        0 <= i < MINING_DIFFICULTY as int ==> h[i] == '0'
}

/// The reward transaction the authority signs for the sealing miner.
pub open spec fn reward_model(authority: Seq<char>, miner: Seq<char>) -> TransactionModel {
    TransactionModel { sender: authority, recipient: miner, amount: MINING_REWARD }
}

/// The ledger engine: the authority's own wallet, the sealed chain and the
/// pending pool. All mutation goes through its methods.
pub struct Blockchain {
    wallet: Wallet,
    chain: Vec<Block>,
    transaction_pool: Vec<Transaction>,
}

impl Blockchain {
    /// The models of the sealed blocks, in chain order.
    pub closed spec fn chain_model(self) -> Seq<BlockModel> {
        block_models(self.chain@)
    }

    /// The models of the pending transactions, in admission order.
    pub closed spec fn pool_model(self) -> Seq<TransactionModel> {
        transaction_models(self.transaction_pool@)
    }

    /// The authority's own address.
    pub closed spec fn authority(self) -> Seq<char> {
        self.wallet@.address
    }

    /// The authority's private key PEM, over which the contracts state when
    /// the authority's own signing succeeds.
    pub closed spec fn authority_key(self) -> Seq<char> {
        self.wallet@.private_key
    }

    /// The total recorded volume: every amount in the chain and the pool.
    pub open spec fn ledger_volume(self) -> int {
        chain_volume(self.chain_model()) + transactions_volume(self.pool_model())
    }

    /// The balance of an address across the sealed chain and the pending
    /// pool.
    pub open spec fn balance_of(self, address: Seq<char>) -> int {
        chain_balance(self.chain_model(), address) + transactions_balance(
            self.pool_model(),
            address,
        )
    }

    /// Well-formedness of the engine: the genesis block is present with
    /// nonce 0 and the deterministic root hash; every later block links to
    /// the hash of its predecessor and meets the difficulty target; the
    /// total recorded volume fits the accounting range; and the authority's
    /// wallet signs under its own public key.
    pub closed spec fn wf(self) -> bool {
        &&& self.chain_model().len() >= 1
        &&& self.chain_model()[0].nonce == 0
        &&& self.chain_model()[0].previous_hash == genesis_previous_hash()
        &&& self.chain_model()[0].transactions.len() == 0
        &&& forall|i: int|
            1 <= i < self.chain_model().len() ==> (#[trigger] self.chain_model()[i]).previous_hash
                == block_hash(self.chain_model()[i - 1]) && meets_difficulty(
                block_hash(self.chain_model()[i]),
            )
        &&& self.ledger_volume() <= u64::MAX as int
        &&& self.wallet.wf()
    }

    /// Creates the engine: generates the authority's wallet and seals the
    /// deterministic genesis block (nonce 0, the hash of the canonical empty
    /// block description as its previous hash, the authority as miner).
    /// Fails only when key generation fails.
    pub fn new(version: u8) -> (r: Result<Blockchain>)
        ensures
            match r {
                Ok(l) => l.wf() && l.chain_model().len() == 1 && l.pool_model().len() == 0
                    && l.chain_model()[0].nonce == 0 && l.chain_model()[0].previous_hash
                    == genesis_previous_hash() && l.chain_model()[0].transactions.len() == 0
                    && l.chain_model()[0].miner == l.authority(),
                Err(e) => e is Ecdsa,
            },
    {
        let wallet = match Wallet::new(version) {
            Ok(w) => w,
            Err(e) => {
                return Err(Error::Ecdsa(e.message().clone()));
            },
        };
        let empty = Block::new(0, String::new(), Vec::new(), 0, String::from_str("none"));
        proof {
            assert(empty@ =~= empty_block_model());
        }
        let root_hash = empty.hash();
        let timestamp = match now_nanos() {
            Some(ts) => ts,
            None => 0,
        };
        let genesis = Block::new(0, root_hash, Vec::new(), timestamp, wallet.address().clone());
        let mut chain: Vec<Block> = Vec::new();
        chain.push(genesis);
        let ledger = Blockchain { wallet, chain, transaction_pool: Vec::new() };
        proof {
            assert(ledger.chain_model() =~= seq![genesis@]);
            assert(ledger.pool_model() =~= Seq::<TransactionModel>::empty());
            assert(ledger.chain_model().drop_last() =~= Seq::<BlockModel>::empty());
            assert(genesis@.transactions =~= Seq::<TransactionModel>::empty());
            assert(chain_volume(Seq::<BlockModel>::empty()) == 0);
            assert(transactions_volume(Seq::<TransactionModel>::empty()) == 0);
            assert(ledger.ledger_volume() == 0);
        }
        Ok(ledger)
    }

    /// The most recently sealed block, present whenever the engine is well
    /// formed.
    pub fn last_block(&self) -> (r: Option<&Block>)
        ensures
            match r {
                Some(b) => self.chain_model().len() > 0 && b@ == self.chain_model().last(),
                None => self.chain_model().len() == 0,
            },
    {
        let n = self.chain.len();
        if n == 0 {
            None
        } else {
            Some(&self.chain[n - 1])
        }
    }

    /// The sealed chain, oldest block first.
    pub fn chain(&self) -> (r: &Vec<Block>)
        ensures
            block_models(r@) == self.chain_model(),
    {
        &self.chain
    }

    /// The pending pool, in admission order.
    pub fn transaction_pool(&self) -> (r: &Vec<Transaction>)
        ensures
            transaction_models(r@) == self.pool_model(),
    {
        &self.transaction_pool
    }

    /// The authority's own address.
    pub fn address(&self) -> (r: &String)
        ensures
            r@ == self.authority(),
    {
        self.wallet.address()
    }

    /// Sums `+amount` for every transaction with the address as recipient
    /// and `-amount` for every one with it as sender, across the full
    /// sealed chain and the current pool. Exact, and always succeeds.
    pub fn calculate_transactions_total(&self, address: &String) -> (r: Result<i128>)
        requires
            self.wf(),
        ensures
            match r {
                Ok(total) => total == self.balance_of(address@),
                Err(_) => false,
            },
    {
        let ghost bs = self.chain_model();
        let ghost ps = self.pool_model();
        let ghost addr = address@;
        let mut total: i128 = 0;
        let mut i: usize = 0;
        while i < self.chain.len()
            invariant
                self.wf(),
                bs == self.chain_model(),
                ps == self.pool_model(),
                addr == address@,
                i <= self.chain@.len(),
                bs.len() == self.chain@.len(),
                total == chain_balance(bs.subrange(0, i as int), addr),
            decreases self.chain@.len() - i,
        {
            let b = &self.chain[i];
            proof {
                assert(b@ == bs[i as int]);
            }
            let txs = b.transactions();
            let ghost ms = bs[i as int].transactions;
            let mut j: usize = 0;
            while j < txs.len()
                invariant
                    self.wf(),
                    bs == self.chain_model(),
                    ps == self.pool_model(),
                    addr == address@,
                    i < bs.len(),
                    transaction_models(txs@) == ms,
                    ms == bs[i as int].transactions,
                    j <= txs@.len(),
                    txs@.len() == ms.len(),
                    total == chain_balance(bs.subrange(0, i as int), addr)
                        + transactions_balance(ms.subrange(0, j as int), addr),
                decreases txs@.len() - j,
            {
                proof {
                    lemma_chain_balance_bounded(bs.subrange(0, i as int), addr);
                    lemma_tx_balance_bounded(ms.subrange(0, j as int), addr);
                    lemma_tx_volume_prefix(ms, j as int);
                    let s1 = bs.subrange(0, i as int + 1);
                    assert(s1.drop_last() =~= bs.subrange(0, i as int));
                    assert(s1.last() == bs[i as int]);
                    lemma_chain_volume_prefix(bs, i as int + 1);
                    lemma_tx_volume_nonneg(ps);
                }
                let t = &txs[j];
                let ghost tm = ms[j as int];
                proof {
                    assert(txs@[j as int]@ == tm);
                }
                if t.recipient == *address {
                    total = total + (t.amount as i128);
                }
                if t.sender == *address {
                    total = total - (t.amount as i128);
                }
                proof {
                    assert(ms.subrange(0, j as int + 1).drop_last() =~= ms.subrange(0, j as int));
                    assert(ms.subrange(0, j as int + 1).last() == tm);
                }
                j = j + 1;
            }
            proof {
                assert(ms.subrange(0, ms.len() as int) =~= ms);
                let s1 = bs.subrange(0, i as int + 1);
                assert(s1.drop_last() =~= bs.subrange(0, i as int));
                assert(s1.last() == bs[i as int]);
            }
            i = i + 1;
        }
        proof {
            assert(bs.subrange(0, bs.len() as int) =~= bs);
        }
        let mut j: usize = 0;
        while j < self.transaction_pool.len()
            invariant
                self.wf(),
                bs == self.chain_model(),
                ps == self.pool_model(),
                addr == address@,
                j <= self.transaction_pool@.len(),
                ps.len() == self.transaction_pool@.len(),
                total == chain_balance(bs, addr) + transactions_balance(
                    ps.subrange(0, j as int),
                    addr,
                ),
            decreases self.transaction_pool@.len() - j,
        {
            proof {
                lemma_chain_balance_bounded(bs, addr);
                lemma_tx_balance_bounded(ps.subrange(0, j as int), addr);
                lemma_tx_volume_prefix(ps, j as int);
            }
            let t = &self.transaction_pool[j];
            let ghost tm = ps[j as int];
            proof {
                assert(self.transaction_pool@[j as int]@ == tm);
            }
            if t.recipient == *address {
                total = total + (t.amount as i128);
            }
            if t.sender == *address {
                total = total - (t.amount as i128);
            }
            proof {
                assert(ps.subrange(0, j as int + 1).drop_last() =~= ps.subrange(0, j as int));
                assert(ps.subrange(0, j as int + 1).last() == tm);
            }
            j = j + 1;
        }
        proof {
            assert(ps.subrange(0, ps.len() as int) =~= ps);
        }
        Ok(total)
    }

    /// The total recorded volume, summed over chain and pool.
    fn total_volume(&self) -> (r: u64)
        requires
            self.wf(),
        ensures
            r as int == self.ledger_volume(),
    {
        let ghost bs = self.chain_model();
        let ghost ps = self.pool_model();
        let mut acc: u64 = 0;
        let mut i: usize = 0;
        while i < self.chain.len()
            invariant
                self.wf(),
                bs == self.chain_model(),
                ps == self.pool_model(),
                i <= self.chain@.len(),
                bs.len() == self.chain@.len(),
                acc as int == chain_volume(bs.subrange(0, i as int)),
            decreases self.chain@.len() - i,
        {
            let b = &self.chain[i];
            proof {
                assert(b@ == bs[i as int]);
            }
            let txs = b.transactions();
            let ghost ms = bs[i as int].transactions;
            let mut j: usize = 0;
            while j < txs.len()
                invariant
                    self.wf(),
                    bs == self.chain_model(),
                    ps == self.pool_model(),
                    i < bs.len(),
                    transaction_models(txs@) == ms,
                    ms == bs[i as int].transactions,
                    j <= txs@.len(),
                    txs@.len() == ms.len(),
                    acc as int == chain_volume(bs.subrange(0, i as int)) + transactions_volume(
                        ms.subrange(0, j as int),
                    ),
                decreases txs@.len() - j,
            {
                proof {
                    lemma_tx_volume_prefix(ms, j as int + 1);
                    let s1 = bs.subrange(0, i as int + 1);
                    assert(s1.drop_last() =~= bs.subrange(0, i as int));
                    assert(s1.last() == bs[i as int]);
                    lemma_chain_volume_prefix(bs, i as int + 1);
                    lemma_tx_volume_nonneg(ps);
                    assert(ms.subrange(0, j as int + 1).drop_last() =~= ms.subrange(0, j as int));
                    assert(ms.subrange(0, j as int + 1).last() == ms[j as int]);
                }
                let t = &txs[j];
                proof {
                    assert(txs@[j as int]@ == ms[j as int]);
                }
                acc = acc + t.amount;
                j = j + 1;
            }
            proof {
                assert(ms.subrange(0, ms.len() as int) =~= ms);
                let s1 = bs.subrange(0, i as int + 1);
                assert(s1.drop_last() =~= bs.subrange(0, i as int));
                assert(s1.last() == bs[i as int]);
            }
            i = i + 1;
        }
        proof {
            assert(bs.subrange(0, bs.len() as int) =~= bs);
        }
        let mut j: usize = 0;
        while j < self.transaction_pool.len()
            invariant
                self.wf(),
                bs == self.chain_model(),
                ps == self.pool_model(),
                j <= self.transaction_pool@.len(),
                ps.len() == self.transaction_pool@.len(),
                acc as int == chain_volume(bs) + transactions_volume(ps.subrange(0, j as int)),
            decreases self.transaction_pool@.len() - j,
        {
            proof {
                lemma_tx_volume_prefix(ps, j as int + 1);
                assert(ps.subrange(0, j as int + 1).drop_last() =~= ps.subrange(0, j as int));
                assert(ps.subrange(0, j as int + 1).last() == ps[j as int]);
            }
            let t = &self.transaction_pool[j];
            proof {
                assert(self.transaction_pool@[j as int]@ == ps[j as int]);
            }
            acc = acc + t.amount;
            j = j + 1;
        }
        proof {
            assert(ps.subrange(0, ps.len() as int) =~= ps);
        }
        acc
    }
}

/// Whether a signature verifies for a transaction's canonical form under a
/// public key.
pub open spec fn signature_ok(t: TransactionModel, signature: Seq<u8>, public_key: Seq<char>) -> bool {
    ecdsa_verifies(public_key, transaction_canon(t), signature)
}

impl Blockchain {
    /// Whether the sender can afford the transaction: the authority is
    /// exempt, every other sender needs a balance of at least the amount.
    pub open spec fn balance_covers(self, t: TransactionModel) -> bool {
        t.sender == self.authority() || self.balance_of(t.sender) >= t.amount as int
    }

    /// Whether admitting the transaction keeps the total recorded volume
    /// within the accounting range.
    pub open spec fn volume_fits(self, t: TransactionModel) -> bool {
        self.ledger_volume() + t.amount as int <= u64::MAX as int
    }

    /// Admission: verifies the signature against the transaction's canonical
    /// form; rejects a sender other than the authority whose balance (sealed
    /// chain plus pool) is below the amount; rejects an amount that would
    /// push the total recorded volume past the accounting range; otherwise
    /// appends the transaction to the pool and returns it. The pool is
    /// unchanged by every rejection, and the chain by every call.
    pub fn add_transation_to_pool(
        &mut self,
        transaction: Transaction,
        signature: Vec<u8>,
        verifying_key: String,
    ) -> (r: Result<Transaction>)
        requires
            old(self).wf(),
        ensures
            final(self).wf(),
            final(self).chain_model() == old(self).chain_model(),
            final(self).authority() == old(self).authority(),
            match r {
                Ok(t) => t@ == transaction@ && signature_ok(transaction@, signature@, verifying_key@)
                    && old(self).balance_covers(transaction@) && old(self).volume_fits(transaction@)
                    && final(self).pool_model() == old(self).pool_model().push(transaction@),
                Err(e) => final(self).pool_model() == old(self).pool_model() && (match e {
                    Error::InvalidSignature(_) => !signature_ok(
                        transaction@,
                        signature@,
                        verifying_key@,
                    ),
                    Error::AvailableBalanceExceeded(_) => signature_ok(
                        transaction@,
                        signature@,
                        verifying_key@,
                    ) && !old(self).balance_covers(transaction@),
                    Error::AmountOverflow(_) => signature_ok(transaction@, signature@, verifying_key@)
                        && old(self).balance_covers(transaction@) && !old(self).volume_fits(
                        transaction@,
                    ),
                    _ => false,
                }),
            },
    {
        let message = transaction.canonical_form();
        let ok = p256_verify(verifying_key.as_str(), message.as_str(), signature.as_slice());
        if !ok {
            return Err(
                Error::InvalidSignature(
                    String::from_str("signature does not match the transaction"),
                ),
            );
        }
        let exempt = transaction.sender == *self.wallet.address();
        if !exempt {
            let balance = match self.calculate_transactions_total(&transaction.sender) {
                Ok(b) => b,
                Err(e) => {
                    return Err(e);
                },
            };
            if balance < (transaction.amount as i128) {
                return Err(Error::AvailableBalanceExceeded(transaction.sender.clone()));
            }
        }
        let volume = self.total_volume();
        if transaction.amount > u64::MAX - volume {
            return Err(Error::AmountOverflow(transaction.sender.clone()));
        }
        let dup = Transaction {
            sender: transaction.sender.clone(),
            recipient: transaction.recipient.clone(),
            amount: transaction.amount,
        };
        self.transaction_pool.push(dup);
        proof {
            assert(dup@ =~= transaction@);
            assert(self.pool_model() =~= old(self).pool_model().push(transaction@));
            let ps = old(self).pool_model();
            assert(ps.push(transaction@).drop_last() =~= ps);
            assert(ps.push(transaction@).last() == transaction@);
        }
        Ok(transaction)
    }

    /// The authority signs a transfer of `amount` to `recipient` and admits
    /// it; the authority is exempt from the balance check, so this mints
    /// funds. Succeeds exactly when the authority's deterministic signing of
    /// the transaction's canonical form succeeds and the amount keeps the
    /// total recorded volume within the accounting range.
    pub fn deposit_to_wallet(&mut self, recipient: &String, amount: u64) -> (r: Result<Transaction>)
        requires
            old(self).wf(),
        ensures
            final(self).wf(),
            final(self).chain_model() == old(self).chain_model(),
            final(self).authority() == old(self).authority(),
            ({
                let tm = TransactionModel {
                    sender: old(self).authority(),
                    recipient: recipient@,
                    amount,
                };
                let signed = p256_sign_ok(old(self).authority_key(), transaction_canon(tm));
                match r {
                    Ok(t) => t@ == tm && signed && old(self).volume_fits(tm)
                        && final(self).pool_model() == old(self).pool_model().push(tm),
                    Err(e) => final(self).pool_model() == old(self).pool_model() && (match e {
                        Error::Ecdsa(_) => !signed,
                        Error::AmountOverflow(_) => signed && !old(self).volume_fits(tm),
                        _ => false,
                    }),
                }
            }),
    {
        let signed = match self.wallet.sign_transaction(recipient, amount) {
            Ok(x) => x,
            Err(e) => {
                return Err(Error::Ecdsa(e.message().clone()));
            },
        };
        let (transaction, signature, key) = signed;
        self.add_transation_to_pool(transaction, signature, key)
    }
}

/// The block description the proof-of-work search hashes for a candidate
/// nonce: exactly the fields that will appear in the sealed block.
pub open spec fn candidate_model(
    nonce: i32,
    previous_hash: Seq<char>,
    timestamp: i64,
    transactions: Seq<TransactionModel>,
    miner: Seq<char>,
) -> BlockModel {
    BlockModel { nonce, previous_hash, timestamp, transactions, miner }
}

/// Whether the first `MINING_DIFFICULTY` characters of a hash are `'0'`.
fn hash_meets_difficulty(h: &String) -> (r: bool)
    requires
        h@.len() >= MINING_DIFFICULTY as int,
    ensures
        r == meets_difficulty(h@),
{
    let mut ok = true;
    let mut i: usize = 0;
    while i < MINING_DIFFICULTY as usize
        invariant
            h@.len() >= MINING_DIFFICULTY as int,
            i <= MINING_DIFFICULTY as usize,
            ok == (forall|k: int| 0 <= k < i as int ==> h@[k] == '0'),
        decreases MINING_DIFFICULTY as int - i as int,
    {
        let c = h.as_str().get_char(i);
        ok = ok && c == '0';
        i = i + 1;
    }
    ok
}

impl Blockchain {
    /// Whether the block assembled from these exact parts hashes below the
    /// difficulty target. The search and the sealed block share this form,
    /// so a sealed block's own hash re-validates against the target.
    pub fn valid_proof(
        nonce: i32,
        previous_hash: &String,
        timestamp: i64,
        transactions: &Vec<Transaction>,
        miner: &String,
    ) -> (r: bool)
        ensures
            r == meets_difficulty(
                block_hash(
                    candidate_model(
                        nonce,
                        previous_hash@,
                        timestamp,
                        transaction_models(transactions@),
                        miner@,
                    ),
                ),
            ),
    {
        let canon = block_canon_string(
            nonce,
            previous_hash.as_str(),
            timestamp,
            transactions,
            miner.as_str(),
        );
        let h = sha256_str(canon.as_str());
        hash_meets_difficulty(&h)
    }

    /// The proof-of-work search: iterates the nonce from 0 upward and
    /// returns the first one whose candidate block meets the difficulty
    /// target; no smaller nonce does. Returns None only when no nonce in
    /// the whole i32 range satisfies the target.
    pub fn proof_of_work(
        previous_hash: &String,
        timestamp: i64,
        transactions: &Vec<Transaction>,
        miner: &String,
    ) -> (r: Option<i32>)
        ensures
            match r {
                Some(nonce) => nonce >= 0 && meets_difficulty(
                    block_hash(
                        candidate_model(
                            nonce,
                            previous_hash@,
                            timestamp,
                            transaction_models(transactions@),
                            miner@,
                        ),
                    ),
                ) && forall|m: i32|
                    0 <= m < nonce ==> !meets_difficulty(
                        block_hash(
                            candidate_model(
                                m,
                                previous_hash@,
                                timestamp,
                                transaction_models(transactions@),
                                miner@,
                            ),
                        ),
                    ),
                None => forall|m: i32|
                    m >= 0 ==> !meets_difficulty(
                        block_hash(
                            candidate_model(
                                m,
                                previous_hash@,
                                timestamp,
                                transaction_models(transactions@),
                                miner@,
                            ),
                        ),
                    ),
            },
    {
        let ghost ms = transaction_models(transactions@);
        let mut nonce: i32 = 0;
        loop
            invariant
                nonce >= 0,
                ms == transaction_models(transactions@),
                forall|m: i32|
                    0 <= m < nonce ==> !meets_difficulty(
                        block_hash(candidate_model(m, previous_hash@, timestamp, ms, miner@)),
                    ),
            decreases i32::MAX - nonce,
        {
            if Self::valid_proof(nonce, previous_hash, timestamp, transactions, miner) {
                return Some(nonce);
            }
            if nonce == i32::MAX {
                return None;
            }
            nonce = nonce + 1;
        }
    }
}

impl Blockchain {
    /// Seals the pending pool into a new block. The authority signs and
    /// admits a reward transaction for the miner, the pool is drained in
    /// reverse admission order (last admitted first), the proof-of-work
    /// search runs over exactly the fields of the block to be sealed, and
    /// the block is appended. On success the new block links to the hash of
    /// the previous last block, meets the difficulty target, the pool is
    /// empty, and every balance moves by exactly the reward transaction's
    /// contribution. On failure the chain and the pool are unchanged: a
    /// reward admitted before a failed nonce search is taken back out.
    /// Sealing fails whenever the authority cannot sign the reward or the
    /// reward would overflow the recorded volume; it can otherwise fail only
    /// by exhausting the nonce range.
    pub fn mining(&mut self, miner: &String) -> (r: bool)
        requires
            old(self).wf(),
        ensures
            final(self).wf(),
            final(self).authority() == old(self).authority(),
            r ==> ({
                let reward = reward_model(old(self).authority(), miner@);
                let nb = final(self).chain_model().last();
                &&& final(self).chain_model().len() == old(self).chain_model().len() + 1
                &&& final(self).chain_model().subrange(0, old(self).chain_model().len() as int)
                    == old(self).chain_model()
                &&& nb.transactions == seq![reward] + old(self).pool_model().reverse()
                &&& nb.previous_hash == block_hash(old(self).chain_model().last())
                &&& nb.miner == miner@
                &&& meets_difficulty(block_hash(nb))
                &&& final(self).pool_model() == Seq::<TransactionModel>::empty()
                &&& forall|a: Seq<char>| #[trigger]
                    final(self).balance_of(a) == old(self).balance_of(a) + transaction_delta(
                        reward,
                        a,
                    )
            }),
            !r ==> final(self).chain_model() == old(self).chain_model() && final(self).pool_model()
                == old(self).pool_model(),
            !p256_sign_ok(
                old(self).authority_key(),
                transaction_canon(reward_model(old(self).authority(), miner@)),
            ) ==> !r,
            !old(self).volume_fits(reward_model(old(self).authority(), miner@)) ==> !r,
    {
        let signed = match self.wallet.sign_transaction(miner, MINING_REWARD) {
            Ok(x) => x,
            Err(_) => {
                return false;
            },
        };
        let (transaction, signature, key) = signed;
        let ghost reward = transaction@;
        proof {
            assert(reward =~= reward_model(old(self).authority(), miner@));
        }
        match self.add_transation_to_pool(transaction, signature, key) {
            Ok(_) => (),
            Err(_) => {
                return false;
            },
        }
        let ghost pool_a = self.pool_model();
        let ghost chain_m = self.chain_model();
        proof {
            assert(chain_m.len() >= 1);
            assert(chain_m.len() == self.chain@.len());
        }
        let n = self.chain.len();
        let previous_hash = self.chain[n - 1].hash();
        proof {
            assert(self.chain@[n - 1]@ == chain_m[n - 1]);
            assert(chain_m.last() == chain_m[n - 1]);
        }
        let timestamp = match now_nanos() {
            Some(ts) => ts,
            None => 0,
        };
        let mut transactions: Vec<Transaction> = Vec::new();
        proof {
            assert(transaction_models(transactions@) =~= Seq::<TransactionModel>::empty());
            assert(self.pool_model().subrange(0, self.pool_model().len() as int) =~= pool_a);
        }
        while self.transaction_pool.len() > 0
            invariant
                self.wallet.wf(),
                self.authority() == old(self).authority(),
                chain_m == self.chain_model(),
                chain_m == old(self).chain_model(),
                pool_a.len() == old(self).pool_model().len() + 1,
                self.pool_model().len() <= pool_a.len(),
                self.pool_model() == pool_a.subrange(0, self.pool_model().len() as int),
                transaction_models(transactions@) == pool_a.subrange(
                    self.pool_model().len() as int,
                    pool_a.len() as int,
                ).reverse(),
                transactions_volume(transaction_models(transactions@)) + transactions_volume(
                    self.pool_model(),
                ) == transactions_volume(pool_a),
                forall|a: Seq<char>| #[trigger]
                    transactions_balance(transaction_models(transactions@), a)
                        + transactions_balance(self.pool_model(), a) == transactions_balance(
                        pool_a,
                        a,
                    ),
                chain_volume(chain_m) + transactions_volume(pool_a) <= u64::MAX as int,
            decreases self.transaction_pool@.len(),
        {
            let ghost k = self.pool_model().len() as int;
            let ghost before_pool = self.pool_model();
            let ghost before_drained = transaction_models(transactions@);
            let t = self.transaction_pool.pop().unwrap();
            transactions.push(t);
            proof {
                assert(before_pool.last() == pool_a[k - 1]);
                assert(t@ == pool_a[k - 1]);
                assert(self.pool_model() =~= pool_a.subrange(0, k - 1));
                assert(transaction_models(transactions@) =~= before_drained.push(t@));
                assert(transaction_models(transactions@) =~= pool_a.subrange(
                    k - 1,
                    pool_a.len() as int,
                ).reverse());
                assert(before_pool.drop_last() =~= self.pool_model());
                assert(before_drained.push(t@).drop_last() =~= before_drained);
                assert forall|a: Seq<char>| #[trigger]
                    transactions_balance(transaction_models(transactions@), a)
                        + transactions_balance(self.pool_model(), a) == transactions_balance(
                        pool_a,
                        a,
                    ) by {
                    assert(transactions_balance(before_drained.push(t@), a)
                        == transactions_balance(before_drained, a) + transaction_delta(t@, a));
                    assert(transactions_balance(before_pool, a) == transactions_balance(
                        before_pool.drop_last(),
                        a,
                    ) + transaction_delta(before_pool.last(), a));
                }
                assert(transactions_volume(before_drained.push(t@)) == transactions_volume(
                    before_drained,
                ) + t@.amount as int);
                assert(transactions_volume(before_pool) == transactions_volume(
                    before_pool.drop_last(),
                ) + before_pool.last().amount as int);
            }
        }
        let ghost drained = transaction_models(transactions@);
        proof {
            assert(self.pool_model() =~= Seq::<TransactionModel>::empty());
            assert(drained =~= pool_a.reverse());
            assert(pool_a =~= old(self).pool_model().push(reward));
            assert(drained =~= seq![reward] + old(self).pool_model().reverse());
        }
        let nonce = match Self::proof_of_work(&previous_hash, timestamp, &transactions, miner) {
            Some(x) => x,
            None => {
                while transactions.len() > 0
                    invariant
                        self.wallet.wf(),
                        self.authority() == old(self).authority(),
                        chain_m == self.chain_model(),
                        chain_m == old(self).chain_model(),
                        self.pool_model() + transaction_models(transactions@).reverse() == pool_a,
                        transactions_volume(transaction_models(transactions@))
                            + transactions_volume(self.pool_model()) == transactions_volume(pool_a),
                        chain_volume(chain_m) + transactions_volume(pool_a) <= u64::MAX as int,
                    decreases transactions@.len(),
                {
                    let ghost before_pool = self.pool_model();
                    let ghost before_drained = transaction_models(transactions@);
                    let t = match transactions.pop() {
                        Some(x) => x,
                        None => {
                            proof {
                                assert(false);
                            }
                            return false;
                        },
                    };
                    self.transaction_pool.push(t);
                    proof {
                        assert(t@ == before_drained.last());
                        assert(transaction_models(transactions@) =~= before_drained.drop_last());
                        assert(self.pool_model() =~= before_pool.push(t@));
                        assert(before_drained.reverse() =~= seq![t@] + before_drained.drop_last().reverse());
                        assert(self.pool_model() + transaction_models(transactions@).reverse()
                            =~= pool_a);
                        assert(before_pool.push(t@).drop_last() =~= before_pool);
                        assert(before_pool.push(t@).last() == t@);
                        assert(transactions_volume(before_pool.push(t@)) == transactions_volume(
                            before_pool,
                        ) + t@.amount as int);
                        assert(transactions_volume(before_drained) == transactions_volume(
                            before_drained.drop_last(),
                        ) + before_drained.last().amount as int);
                    }
                }
                proof {
                    assert(transaction_models(transactions@).reverse()
                        =~= Seq::<TransactionModel>::empty());
                    assert(self.pool_model() =~= pool_a);
                }
                let _reward_back = self.transaction_pool.pop();
                proof {
                    assert(pool_a.drop_last() =~= old(self).pool_model());
                    assert(pool_a.last() == reward);
                    assert(self.pool_model() =~= old(self).pool_model());
                    assert(transactions_volume(pool_a) == transactions_volume(
                        old(self).pool_model(),
                    ) + reward.amount as int);
                    assert(self.wf());
                }
                return false;
            },
        };
        let ghost sealed_model = candidate_model(nonce, previous_hash@, timestamp, drained, miner@);
        let sealed = Block::new(nonce, previous_hash, transactions, timestamp, miner.clone());
        proof {
            assert(sealed@ =~= sealed_model);
        }
        self.chain.push(sealed);
        proof {
            let new_chain = self.chain_model();
            assert(new_chain =~= chain_m.push(sealed_model));
            assert(new_chain.drop_last() =~= chain_m);
            assert(new_chain.last() == sealed_model);
            assert(new_chain.subrange(0, chain_m.len() as int) =~= chain_m);
            assert(self.pool_model() =~= Seq::<TransactionModel>::empty());
            assert(chain_volume(new_chain) == chain_volume(chain_m) + transactions_volume(drained));
            assert(transactions_volume(Seq::<TransactionModel>::empty()) == 0);
            assert forall|i: int|
                1 <= i < new_chain.len() implies (#[trigger] new_chain[i]).previous_hash
                == block_hash(new_chain[i - 1]) && meets_difficulty(block_hash(new_chain[i])) by {
                if i < chain_m.len() {
                    assert(new_chain[i] == chain_m[i]);
                    assert(new_chain[i - 1] == chain_m[i - 1]);
                } else {
                    assert(new_chain[i] == sealed_model);
                    assert(new_chain[i - 1] == chain_m[chain_m.len() - 1]);
                }
            }
            assert forall|a: Seq<char>| #[trigger]
                self.balance_of(a) == old(self).balance_of(a) + transaction_delta(reward, a) by {
                assert(chain_balance(new_chain, a) == chain_balance(new_chain.drop_last(), a)
                    + transactions_balance(new_chain.last().transactions, a));
                assert(transactions_balance(drained, a) + transactions_balance(
                    Seq::<TransactionModel>::empty(),
                    a,
                ) == transactions_balance(pool_a, a));
                assert(transactions_balance(pool_a, a) == transactions_balance(
                    pool_a.drop_last(),
                    a,
                ) + transaction_delta(pool_a.last(), a));
                assert(pool_a.drop_last() =~= old(self).pool_model());
                assert(pool_a.last() == reward);
                assert(transactions_balance(self.pool_model(), a) == 0);
            }
            assert(self.wf());
        }
        true
    }
}

impl Blockchain {
    /// Bounded initialization: tries `Blockchain::new` up to `attempts`
    /// times and returns the typed error of the last attempt on exhaustion,
    /// instead of panicking or retrying forever.
    pub fn new_with_retries(version: u8, attempts: u32) -> (r: Result<Blockchain>)
        requires
            attempts >= 1,
        ensures
            match r {
                Ok(l) => l.wf() && l.chain_model().len() == 1 && l.pool_model().len() == 0
                    && l.chain_model()[0].nonce == 0 && l.chain_model()[0].previous_hash
                    == genesis_previous_hash() && l.chain_model()[0].transactions.len() == 0,
                Err(e) => e is Ecdsa,
            },
    {
        let mut tries: u32 = 0;
        loop
            invariant
                tries < attempts,
            decreases attempts - tries,
        {
            let attempt = Blockchain::new(version);
            match attempt {
                Ok(l) => {
                    return Ok(l);
                },
                Err(e) => {
                    if tries + 1 >= attempts {
                        return Err(e);
                    }
                    tries = tries + 1;
                },
            }
        }
    }
}

/// Chain linkage: in a well-formed ledger, every block after the genesis
/// block records as its `previous_hash` exactly the hash of the block that
/// precedes it in the chain.
pub proof fn lemma_chain_linked(l: Blockchain)
    requires
        l.wf(),
    ensures
        forall|i: int|
            0 < i < l.chain_model().len() ==> (#[trigger] l.chain_model()[i]).previous_hash
                == block_hash(l.chain_model()[i - 1]),
{
}

/// Genesis presence: a well-formed ledger is never empty; its first block
/// has nonce 0, no transactions, and the deterministic root hash as its
/// previous hash.
pub proof fn lemma_genesis_present(l: Blockchain)
    requires
        l.wf(),
    ensures
        l.chain_model().len() >= 1,
        l.chain_model()[0].nonce == 0,
        l.chain_model()[0].previous_hash == genesis_previous_hash(),
        l.chain_model()[0].transactions.len() == 0,
{
}

/// Proof-of-work validity of the chain: in a well-formed ledger, the hash
/// of every block after the genesis block has at least `MINING_DIFFICULTY`
/// leading `'0'` characters.
pub proof fn lemma_sealed_blocks_meet_difficulty(l: Blockchain)
    requires
        l.wf(),
    ensures
        forall|i: int|
            0 < i < l.chain_model().len() ==> meets_difficulty(
                block_hash(#[trigger] l.chain_model()[i]),
            ),
{
}

/// A balance is bounded by the volume of the transactions it is drawn from.
proof fn lemma_tx_balance_bounded(ts: Seq<TransactionModel>, address: Seq<char>)
    ensures
        -transactions_volume(ts) <= transactions_balance(ts, address) <= transactions_volume(ts),
    decreases ts.len(),
{
    if ts.len() > 0 {
        lemma_tx_balance_bounded(ts.drop_last(), address);
    }
}

/// A chain balance is bounded by the chain's volume.
proof fn lemma_chain_balance_bounded(bs: Seq<BlockModel>, address: Seq<char>)
    ensures
        -chain_volume(bs) <= chain_balance(bs, address) <= chain_volume(bs),
    decreases bs.len(),
{
    if bs.len() > 0 {
        lemma_chain_balance_bounded(bs.drop_last(), address);
        lemma_tx_balance_bounded(bs.last().transactions, address);
    }
}

/// Volumes are non-negative.
proof fn lemma_tx_volume_nonneg(ts: Seq<TransactionModel>)
    ensures
        transactions_volume(ts) >= 0,
    decreases ts.len(),
{
    if ts.len() > 0 {
        lemma_tx_volume_nonneg(ts.drop_last());
    }
}

/// The volume of a prefix never exceeds the volume of the whole.
proof fn lemma_tx_volume_prefix(ts: Seq<TransactionModel>, j: int)
    requires
        0 <= j <= ts.len(),
    ensures
        transactions_volume(ts.subrange(0, j)) <= transactions_volume(ts),
    decreases ts.len() - j,
{
    if j == ts.len() {
        assert(ts.subrange(0, j) =~= ts);
    } else {
        let s1 = ts.subrange(0, j + 1);
        assert(s1.drop_last() =~= ts.subrange(0, j));
        assert(s1.last() == ts[j]);
        lemma_tx_volume_prefix(ts, j + 1);
    }
}

/// The volume of a chain prefix never exceeds the volume of the whole
/// chain.
proof fn lemma_chain_volume_prefix(bs: Seq<BlockModel>, i: int)
    requires
        0 <= i <= bs.len(),
    ensures
        chain_volume(bs.subrange(0, i)) <= chain_volume(bs),
    decreases bs.len() - i,
{
    if i == bs.len() {
        assert(bs.subrange(0, i) =~= bs);
    } else {
        let s1 = bs.subrange(0, i + 1);
        assert(s1.drop_last() =~= bs.subrange(0, i));
        assert(s1.last() == bs[i]);
        lemma_tx_volume_nonneg(bs[i].transactions);
        lemma_chain_volume_prefix(bs, i + 1);
    }
}

} // verus!
