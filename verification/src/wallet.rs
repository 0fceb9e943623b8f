//! Identities: key pairs, address derivation and transaction signing.
//!
//! An address is derived from the public key Bitcoin-style: SHA-256 of the
//! key's PEM form, RIPEMD-160 of that raw 32-byte digest, a caller-supplied
//! version byte in front, a 4-byte checksum behind (the first four bytes of
//! the raw double-SHA-256 digest of the versioned payload), all encoded in
//! base-58. The digest crate renders digests as hex text, so the library
//! decodes that text back to raw bytes with its own verified decoder.
//!
//! The private key PEM lives in zeroize's `Zeroizing` container, so the
//! secret material is wiped when the wallet is dropped.

use vstd::prelude::*;

use crate::crypto::{
    base58_bytes, base58_of, ecdsa_verifies, key_pem_str, p256_generate, p256_pub_of, p256_sign,
    p256_sign_ok,
    p256_verify, ripemd160_bytes, ripemd160_of, sha256_bytes, sha256_bytes_hex, sha256_hex,
    sha256_str, KeyPem,
};
use crate::text::{hex_decode, hex_to_bytes};
use crate::transaction::{transaction_canon, Transaction, TransactionModel};

verus! {

/// Errors of the identity layer: the cryptographic backend failed to
/// generate, encode or reconstitute a key.
#[derive(Debug)]
pub enum Error {
    EcdsaError(String),
}

impl Error {
    /// The human-readable message carried by the error.
    pub fn message(&self) -> (r: &String)
        ensures
            r@ == (match self {
                Error::EcdsaError(m) => m@,
            }),
    {
        match self {
            Error::EcdsaError(m) => m,
        }
    }
}

/// The mathematical value of a wallet: the derived address, the private key
/// in PKCS#8 PEM form and the public key in PEM form, as character
/// sequences.
#[verifier::ext_equal]
pub ghost struct WalletModel {
    pub address: Seq<char>,
    pub private_key: Seq<char>,
    pub public_key: Seq<char>,
}

/// An identity: a P-256 key pair and the address derived from the public
/// key. The private key never leaves the wallet and is zeroed on drop.
pub struct Wallet {
    address: String,
    private_key: KeyPem,
    public_key: String,
}

impl View for Wallet {
    type V = WalletModel;

    closed spec fn view(&self) -> WalletModel {
        WalletModel {
            address: self.address@,
            private_key: key_pem_str(self.private_key),
            public_key: self.public_key@,
        }
    }
}

/// The raw SHA-256 digest of a string: the digest's hex text decoded back
/// to its 32 bytes.
pub open spec fn sha256_raw_of_str(s: Seq<char>) -> Seq<u8> {
    hex_decode(sha256_hex(s))
}

/// The raw SHA-256 digest of a byte sequence.
pub open spec fn sha256_raw_of_bytes(b: Seq<u8>) -> Seq<u8> {
    hex_decode(sha256_bytes_hex(b))
}

/// The versioned, checksummed payload of an address: version byte, then the
/// RIPEMD-160 digest of the raw SHA-256 digest of the public key, then the
/// first four bytes of the raw double-SHA-256 digest of that versioned
/// prefix.
pub open spec fn address_payload(public_key: Seq<char>, version: u8) -> Seq<u8> {
    let versioned = seq![version] + ripemd160_of(sha256_raw_of_str(public_key));
    versioned + sha256_raw_of_bytes(sha256_raw_of_bytes(versioned)).subrange(0, 4)
}

/// The address derived from a public key and a version byte: the base-58
/// encoding of the versioned, checksummed payload. Deterministic: equal
/// inputs always yield the same address.
pub open spec fn address_of(public_key: Seq<char>, version: u8) -> Seq<char> {
    base58_of(address_payload(public_key, version))
}

impl Wallet {
    /// A wallet is well formed when its public key is the one derived from
    /// its private key, so that its signatures verify under its public key.
    pub closed spec fn wf(self) -> bool {
        self@.public_key == p256_pub_of(self@.private_key)
    }

    /// Generates a fresh key pair and derives the wallet's address with the
    /// given version byte. Fails only when the cryptographic backend fails.
    pub fn new(version: u8) -> (r: Result<Wallet, Error>)
        ensures
            match r {
                Ok(w) => w.wf() && w@.address == address_of(w@.public_key, version),
                Err(_) => true,
            },
    {
        let (private_key, public_key) = match p256_generate() {
            Ok(p) => p,
            Err(m) => {
                return Err(Error::EcdsaError(m));
            },
        };
        let address = Self::derive_address(public_key.as_str(), version);
        Ok(Wallet { address, private_key, public_key })
    }

    /// Derives the address for a public key and a version byte. Bit-exact
    /// and deterministic: the result is a pure function of the two
    /// arguments.
    pub fn derive_address(public_key: &str, version: u8) -> (r: String)
        ensures
            r@ == address_of(public_key@, version),
    {
        let first_hex = sha256_str(public_key);
        let first_raw = hex_to_bytes(first_hex.as_str());
        let ripe = ripemd160_bytes(&first_raw);
        let mut payload: Vec<u8> = Vec::new();
        payload.push(version);
        let mut i: usize = 0;
        while i < ripe.len()
            invariant
                i <= ripe@.len(),
                payload@ == seq![version] + ripe@.subrange(0, i as int),
            decreases ripe@.len() - i,
        {
            let b = ripe[i];
            payload.push(b);
            proof {
                assert(payload@ =~= seq![version] + ripe@.subrange(0, i as int + 1));
            }
            i = i + 1;
        }
        proof {
            assert(ripe@.subrange(0, ripe@.len() as int) =~= ripe@);
        }
        let ghost versioned = payload@;
        let check_one_hex = sha256_bytes(&payload);
        let check_one = hex_to_bytes(check_one_hex.as_str());
        let check_two_hex = sha256_bytes(&check_one);
        let check_two = hex_to_bytes(check_two_hex.as_str());
        payload.push(check_two[0]);
        payload.push(check_two[1]);
        payload.push(check_two[2]);
        payload.push(check_two[3]);
        proof {
            assert(payload@ =~= versioned + sha256_raw_of_bytes(
                sha256_raw_of_bytes(versioned),
            ).subrange(0, 4));
        }
        base58_bytes(payload.as_slice())
    }

    /// Builds the transaction `self.address -> recipient` over `amount`
    /// minor units, and signs its canonical form with the wallet's private
    /// key. Succeeds exactly when the deterministic signing of that
    /// canonical form under this private key succeeds; on success the
    /// returned signature verifies for the returned transaction under the
    /// returned public key.
    pub fn sign_transaction(&self, recipient: &String, amount: u64) -> (r: Result<
        (Transaction, Vec<u8>, String),
        Error,
    >)
        requires
            self.wf(),
        ensures
            ({
                let tm = TransactionModel {
                    sender: self@.address,
                    recipient: recipient@,
                    amount,
                };
                match r {
                    Ok(p) => p.0@ == tm && p.2@ == self@.public_key && p256_sign_ok(
                        self@.private_key,
                        transaction_canon(tm),
                    ) && ecdsa_verifies(self@.public_key, transaction_canon(tm), p.1@),
                    Err(_) => !p256_sign_ok(self@.private_key, transaction_canon(tm)),
                }
            }),
    {
        let transaction = Transaction::new(self.address.clone(), recipient.clone(), amount);
        let message = transaction.canonical_form();
        let signature = match p256_sign(&self.private_key, message.as_str()) {
            Ok(s) => s,
            Err(m) => {
                return Err(Error::EcdsaError(m));
            },
        };
        Ok((transaction, signature, self.public_key.clone()))
    }

    /// Recomputes the transaction's canonical form and verifies the
    /// signature against it under the given public key. Any mismatch yields
    /// false, never a crash.
    pub fn verify_signature(transaction: &Transaction, signature: &Vec<u8>, public_key: &String) -> (r:
        bool)
        ensures
            r == ecdsa_verifies(public_key@, transaction_canon(transaction@), signature@),
    {
        let message = transaction.canonical_form();
        p256_verify(public_key.as_str(), message.as_str(), signature.as_slice())
    }

    pub fn address(&self) -> (r: &String)
        ensures
            r@ == self@.address,
    {
        &self.address
    }

    pub fn public_key(&self) -> (r: &String)
        ensures
            r@ == self@.public_key,
    {
        &self.public_key
    }
}

} // verus!
