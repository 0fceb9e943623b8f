use minichain::block::Block;
use minichain::blockchain::{Blockchain, Error};
use minichain::transaction::Transaction;
use minichain::wallet::Wallet;

#[test]
fn genesis_is_present_and_deterministic() {
    let ledger = Blockchain::new(0x00).unwrap();
    let chain = ledger.chain();
    assert_eq!(chain.len(), 1);
    let genesis = &chain[0];
    assert_eq!(genesis.nonce(), 0);
    assert!(genesis.transactions().is_empty());
    let empty = Block::new(0, String::new(), Vec::new(), 0, "none".to_string());
    assert_eq!(genesis.previous_hash(), &empty.hash());
    let other = Blockchain::new(0x00).unwrap();
    assert_eq!(other.chain()[0].previous_hash(), genesis.previous_hash());
}

#[test]
fn block_canonical_form_is_exact() {
    let t1 = Transaction::new("a".to_string(), "b".to_string(), 1);
    let t2 = Transaction::new("c".to_string(), "d".to_string(), 2);
    let b = Block::new(7, "abc".to_string(), vec![t1, t2], -3, "m".to_string());
    assert_eq!(
        b.canonical_form(),
        "{\"nonce\":7,\"previous_hash\":\"abc\",\"timestamp\":-3,\"transactions\":[{\"sender\":\"a\",\"recipient\":\"b\",\"amount\":1},{\"sender\":\"c\",\"recipient\":\"d\",\"amount\":2}],\"miner\":\"m\"}"
    );
    let none = Block::new(0, "p".to_string(), Vec::new(), 9, "m".to_string());
    assert_eq!(
        none.canonical_form(),
        "{\"nonce\":0,\"previous_hash\":\"p\",\"timestamp\":9,\"transactions\":[],\"miner\":\"m\"}"
    );
}

#[test]
fn block_hash_is_deterministic_and_not_the_canon() {
    let t1 = Transaction::new("a".to_string(), "b".to_string(), 1);
    let b = Block::new(7, "abc".to_string(), vec![t1], 3, "m".to_string());
    let h1 = b.hash();
    let h2 = b.hash();
    assert_eq!(h1, h2);
    assert_eq!(h1.len(), 64);
    assert_ne!(h1, b.canonical_form());
}

#[test]
fn insufficient_balance_is_rejected_without_side_effects() {
    let mut ledger = Blockchain::new(0x00).unwrap();
    let wallet = Wallet::new(0x01).unwrap();
    let (t, sig, key) = wallet.sign_transaction(&"someone".to_string(), 100).unwrap();
    let pool_before = ledger.transaction_pool().len();
    let chain_before = ledger.chain().len();
    let r = ledger.add_transation_to_pool(t, sig, key);
    assert!(matches!(r, Err(Error::AvailableBalanceExceeded(_))));
    assert_eq!(ledger.transaction_pool().len(), pool_before);
    assert_eq!(ledger.chain().len(), chain_before);
}

#[test]
fn invalid_signature_is_rejected() {
    let mut ledger = Blockchain::new(0x00).unwrap();
    let wallet = Wallet::new(0x01).unwrap();
    let (t, mut sig, key) = wallet.sign_transaction(&"someone".to_string(), 1).unwrap();
    if let Some(first) = sig.first().copied() {
        sig[0] = first.wrapping_add(1);
    }
    let r = ledger.add_transation_to_pool(t, sig, key);
    assert!(matches!(r, Err(Error::InvalidSignature(_))));
    assert!(ledger.transaction_pool().is_empty());
}

#[test]
fn deposit_funds_a_wallet_through_the_pool() {
    let mut ledger = Blockchain::new(0x00).unwrap();
    let wallet = Wallet::new(0x01).unwrap();
    let t = ledger.deposit_to_wallet(wallet.address(), 100).unwrap();
    assert_eq!(&t.recipient, wallet.address());
    assert_eq!(t.amount, 100);
    assert_eq!(&t.sender, ledger.address());
    assert_eq!(ledger.transaction_pool().len(), 1);
    let balance = ledger.calculate_transactions_total(wallet.address()).unwrap();
    assert_eq!(balance, 100);
}

#[test]
fn proof_of_work_finds_the_least_valid_nonce() {
    let t = Transaction::new("a".to_string(), "b".to_string(), 1);
    let transactions = vec![t];
    let previous_hash = "abc".to_string();
    let miner = "m".to_string();
    let nonce = Blockchain::proof_of_work(&previous_hash, 0, &transactions, &miner).unwrap();
    assert!(Blockchain::valid_proof(nonce, &previous_hash, 0, &transactions, &miner));
    for m in 0..nonce {
        assert!(!Blockchain::valid_proof(m, &previous_hash, 0, &transactions, &miner));
    }
}

#[test]
fn mining_seals_a_block_that_meets_the_difficulty() {
    let mut ledger = Blockchain::new(0x00).unwrap();
    let wallet = Wallet::new(0x01).unwrap();
    ledger.deposit_to_wallet(wallet.address(), 50).unwrap();
    assert!(ledger.mining(&"miner".to_string()));
    assert!(ledger.transaction_pool().is_empty());
    let last = ledger.last_block().unwrap();
    assert!(last.hash().starts_with("000"));
    // Last admitted is sealed first: the reward was admitted after the
    // deposit, so it leads the sealed list.
    let sealed = last.transactions();
    assert_eq!(sealed.len(), 2);
    assert_eq!(sealed[0].recipient, "miner".to_string());
    assert_eq!(sealed[0].amount, 1);
    assert_eq!(&sealed[1].recipient, wallet.address());
    assert_eq!(sealed[1].amount, 50);
}

#[test]
fn sealed_block_revalidates_against_the_difficulty() {
    let mut ledger = Blockchain::new(0x00).unwrap();
    assert!(ledger.mining(&"m".to_string()));
    let chain = ledger.chain();
    let last = &chain[chain.len() - 1];
    let prev = chain[chain.len() - 2].hash();
    assert_eq!(last.previous_hash(), &prev);
    assert!(Blockchain::valid_proof(
        last.nonce(),
        &prev,
        last.timestamp(),
        last.transactions(),
        last.miner()
    ));
}

#[test]
fn chain_links_every_block_to_its_predecessor() {
    let mut ledger = Blockchain::new(0x00).unwrap();
    let wallet = Wallet::new(0x01).unwrap();
    ledger.deposit_to_wallet(wallet.address(), 10).unwrap();
    assert!(ledger.mining(&"m1".to_string()));
    ledger.deposit_to_wallet(wallet.address(), 20).unwrap();
    assert!(ledger.mining(&"m2".to_string()));
    let chain = ledger.chain();
    assert_eq!(chain.len(), 3);
    for i in 1..chain.len() {
        assert_eq!(chain[i].previous_hash(), &chain[i - 1].hash());
    }
}

#[test]
fn end_to_end_transfer_seal_and_rejection() {
    let mut ledger = Blockchain::new(0x00).unwrap();
    let alice = Wallet::new(0x01).unwrap();
    let bob = Wallet::new(0x01).unwrap();
    let miner = Wallet::new(0x01).unwrap();

    ledger.deposit_to_wallet(alice.address(), 100).unwrap();
    let (t, sig, key) = alice.sign_transaction(bob.address(), 30).unwrap();
    ledger.add_transation_to_pool(t, sig, key).unwrap();

    assert!(ledger.mining(miner.address()));
    assert!(ledger.transaction_pool().is_empty());
    assert_eq!(ledger.calculate_transactions_total(alice.address()).unwrap(), 70);
    assert_eq!(ledger.calculate_transactions_total(bob.address()).unwrap(), 30);
    assert_eq!(ledger.calculate_transactions_total(miner.address()).unwrap(), 1);

    // A transfer beyond the sealed balance is rejected with no side effects.
    let (t, sig, key) = alice.sign_transaction(bob.address(), 1000).unwrap();
    let r = ledger.add_transation_to_pool(t, sig, key);
    assert!(matches!(r, Err(Error::AvailableBalanceExceeded(_))));
    assert!(ledger.transaction_pool().is_empty());
    assert_eq!(ledger.calculate_transactions_total(alice.address()).unwrap(), 70);
    assert_eq!(ledger.calculate_transactions_total(bob.address()).unwrap(), 30);

    // Spending the exact balance is allowed.
    let (t, sig, key) = alice.sign_transaction(bob.address(), 70).unwrap();
    assert!(ledger.add_transation_to_pool(t, sig, key).is_ok());
    assert_eq!(ledger.calculate_transactions_total(alice.address()).unwrap(), 0);
}

#[test]
fn admission_past_the_accounting_range_is_rejected() {
    let mut ledger = Blockchain::new(0x00).unwrap();
    let wallet = Wallet::new(0x01).unwrap();
    ledger.deposit_to_wallet(wallet.address(), u64::MAX).unwrap();
    let r = ledger.deposit_to_wallet(wallet.address(), 1);
    assert!(matches!(r, Err(Error::AmountOverflow(_))));
    assert_eq!(ledger.transaction_pool().len(), 1);
    let balance = ledger.calculate_transactions_total(wallet.address()).unwrap();
    assert_eq!(balance, u64::MAX as i128);
}

#[test]
fn last_block_tracks_the_chain_tail() {
    let mut ledger = Blockchain::new(0x00).unwrap();
    assert_eq!(ledger.last_block().unwrap().nonce(), 0);
    assert!(ledger.mining(&"m".to_string()));
    let chain_len = ledger.chain().len();
    assert_eq!(chain_len, 2);
    let last = ledger.last_block().unwrap();
    assert_eq!(last.hash(), ledger.chain()[chain_len - 1].hash());
    assert_eq!(last.miner(), &"m".to_string());
}

#[test]
fn bounded_initialization_succeeds() {
    let ledger = Blockchain::new_with_retries(0x00, 3).unwrap();
    assert_eq!(ledger.chain().len(), 1);
    assert!(ledger.transaction_pool().is_empty());
}
