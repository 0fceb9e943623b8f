use minichain::transaction::Transaction;
use minichain::wallet::Wallet;

#[test]
fn canonical_form_is_exact_and_deterministic() {
    let t = Transaction::new("alice".to_string(), "bob".to_string(), 100);
    let first = t.canonical_form();
    let second = t.canonical_form();
    assert_eq!(first, second);
    assert_eq!(first, "{\"sender\":\"alice\",\"recipient\":\"bob\",\"amount\":100}");
}

#[test]
fn canonical_form_renders_zero_amount() {
    let t = Transaction::new("a".to_string(), "b".to_string(), 0);
    assert_eq!(t.canonical_form(), "{\"sender\":\"a\",\"recipient\":\"b\",\"amount\":0}");
}

#[test]
fn canonical_form_renders_large_amount() {
    let t = Transaction::new("a".to_string(), "b".to_string(), u64::MAX);
    assert_eq!(
        t.canonical_form(),
        "{\"sender\":\"a\",\"recipient\":\"b\",\"amount\":18446744073709551615}"
    );
}

#[test]
fn address_is_stable_across_calls() {
    let wallet = Wallet::new(0x01).unwrap();
    let pk = wallet.public_key().clone();
    let a1 = Wallet::derive_address(&pk, 0x01);
    let a2 = Wallet::derive_address(&pk, 0x01);
    assert_eq!(a1, a2);
    assert_eq!(&a1, wallet.address());
}

#[test]
fn addresses_differ_for_distinct_keys_and_versions() {
    let w1 = Wallet::new(0x01).unwrap();
    let w2 = Wallet::new(0x01).unwrap();
    assert_ne!(w1.address(), w2.address());
    let other_version = Wallet::derive_address(w1.public_key(), 0x02);
    assert_ne!(&other_version, w1.address());
}

#[test]
fn address_is_not_the_public_key() {
    let wallet = Wallet::new(0x01).unwrap();
    assert_ne!(wallet.address(), wallet.public_key());
    assert!(!wallet.address().is_empty());
}

#[test]
fn signature_round_trip_verifies() {
    let wallet = Wallet::new(0x01).unwrap();
    let recipient = "someone".to_string();
    let (t, sig, key) = wallet.sign_transaction(&recipient, 5).unwrap();
    assert_eq!(&t.sender, wallet.address());
    assert_eq!(t.recipient, recipient);
    assert_eq!(t.amount, 5);
    assert!(Wallet::verify_signature(&t, &sig, &key));
}

#[test]
fn tampered_fields_fail_verification() {
    let wallet = Wallet::new(0x01).unwrap();
    let recipient = "someone".to_string();
    let (t, sig, key) = wallet.sign_transaction(&recipient, 5).unwrap();
    let more = Transaction::new(t.sender.clone(), t.recipient.clone(), 6);
    assert!(!Wallet::verify_signature(&more, &sig, &key));
    let elsewhere = Transaction::new(t.sender.clone(), "thief".to_string(), 5);
    assert!(!Wallet::verify_signature(&elsewhere, &sig, &key));
    let forged_sender = Transaction::new("ghost".to_string(), t.recipient.clone(), 5);
    assert!(!Wallet::verify_signature(&forged_sender, &sig, &key));
}

#[test]
fn wrong_key_fails_verification() {
    let wallet = Wallet::new(0x01).unwrap();
    let other = Wallet::new(0x01).unwrap();
    let (t, sig, _key) = wallet.sign_transaction(&"someone".to_string(), 5).unwrap();
    assert!(!Wallet::verify_signature(&t, &sig, other.public_key()));
}

#[test]
fn malformed_signature_is_rejected_not_a_crash() {
    let wallet = Wallet::new(0x01).unwrap();
    let (t, _sig, key) = wallet.sign_transaction(&"someone".to_string(), 5).unwrap();
    let garbage = vec![0u8; 7];
    assert!(!Wallet::verify_signature(&t, &garbage, &key));
    let empty: Vec<u8> = Vec::new();
    assert!(!Wallet::verify_signature(&t, &empty, &key));
}
