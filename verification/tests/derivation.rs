//! Cross-checks of the library's hashing and address pipeline against the
//! underlying crates called directly.

use base58::ToBase58;
use minichain::block::Block;
use minichain::blockchain::Blockchain;
use minichain::transaction::Transaction;
use minichain::wallet::Wallet;
use ripemd::Digest;

#[test]
fn block_hash_is_the_digest_of_the_canonical_form() {
    let t = Transaction::new("a".to_string(), "b".to_string(), 42);
    let b = Block::new(5, "prev".to_string(), vec![t], 77, "m".to_string());
    assert_eq!(b.hash(), sha256::digest(b.canonical_form()));
}

#[test]
fn genesis_previous_hash_is_the_digest_of_the_empty_description() {
    let ledger = Blockchain::new(0x00).unwrap();
    let expected = sha256::digest(
        "{\"nonce\":0,\"previous_hash\":\"\",\"timestamp\":0,\"transactions\":[],\"miner\":\"none\"}",
    );
    assert_eq!(ledger.chain()[0].previous_hash(), &expected);
}

fn unhex(s: &str) -> Vec<u8> {
    let mut out: Vec<u8> = Vec::new();
    let mut i = 0;
    while i + 1 < s.len() {
        out.push(u8::from_str_radix(&s[i..i + 2], 16).unwrap());
        i += 2;
    }
    out
}

#[test]
fn derive_address_matches_the_reference_pipeline() {
    let wallet = Wallet::new(0x01).unwrap();
    let pk = wallet.public_key().clone();

    let first = unhex(&sha256::digest(pk.clone()));
    let ripe = ripemd::Ripemd160::digest(first.as_slice());
    let mut payload: Vec<u8> = vec![0x01];
    payload.extend_from_slice(ripe.as_slice());
    let check_one = unhex(&sha256::digest(payload.clone()));
    let check_two = unhex(&sha256::digest(check_one));
    payload.extend_from_slice(&check_two[0..4]);
    let expected = payload.as_slice().to_base58();

    assert_eq!(Wallet::derive_address(&pk, 0x01), expected);
    assert_eq!(wallet.address(), &expected);
}
