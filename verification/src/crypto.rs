//! Trusted boundary to the cryptographic crates.
//!
//! Each function here wraps one operation of an outside crate; its contract is
//! what the library relies on. Digests, the base-58 encoding, ECDSA signing
//! (RFC 6979, no randomness) and ECDSA verification are deterministic
//! functions of their inputs, so their results are named by uninterpreted
//! spec functions; the contracts state only what the crates' sources plainly
//! show (output lengths, hex alphabets, and that signing with a private key
//! produces a signature that verifies under its public key).

use p256::elliptic_curve::zeroize::Zeroizing;
use p256::pkcs8::EncodePrivateKey;
use ripemd::Digest;
use vstd::prelude::*;

use crate::text::is_lower_hex;

verus! {

/// The SHA-256 digest of the UTF-8 bytes of a string, as 64 lowercase hex
/// characters.
pub uninterp spec fn sha256_hex(s: Seq<char>) -> Seq<char>;

/// The SHA-256 digest of a byte sequence, as 64 lowercase hex characters.
pub uninterp spec fn sha256_bytes_hex(b: Seq<u8>) -> Seq<char>;

/// The RIPEMD-160 digest (20 bytes) of a byte sequence.
pub uninterp spec fn ripemd160_of(b: Seq<u8>) -> Seq<u8>;

/// The base-58 text encoding of a byte sequence.
pub uninterp spec fn base58_of(b: Seq<u8>) -> Seq<char>;

/// The text a `KeyPem` holds; the wrappers below state their contracts
/// over this view of its contents.
pub uninterp spec fn key_pem_str(k: KeyPem) -> Seq<char>;

/// The PEM encoding of the P-256 public key derived from a private key in
/// PKCS#8 PEM form.
pub uninterp spec fn p256_pub_of(private_pem: Seq<char>) -> Seq<char>;

/// Whether signing a message with a private key in PKCS#8 PEM form
/// succeeds. Parsing the PEM and RFC 6979 signing draw no randomness, so
/// success is a function of the two arguments alone.
pub uninterp spec fn p256_sign_ok(private_pem: Seq<char>, message: Seq<char>) -> bool;

/// Whether an ECDSA P-256 signature (as its fixed-width byte encoding)
/// verifies for a message under a public key in PEM form. Parsing and
/// verification are deterministic, so this is a function of the three
/// arguments alone; a key or signature that does not parse never verifies.
pub uninterp spec fn ecdsa_verifies(public_pem: Seq<char>, message: Seq<char>, signature: Seq<u8>) -> bool;

/// Private key PEM text held in zeroize's `Zeroizing` container, which
/// wipes its contents on drop. Opaque to the verifier: the held text is
/// named by `key_pem_str`, and only the wrappers below produce or read it.
#[verifier::external_body]
pub struct KeyPem {
    pem: Zeroizing<String>,
}

/// Relies on sha256::digest for `&str` input: the SHA-256 digest of the
/// string's UTF-8 bytes, rendered as 64 lowercase hex characters.
#[verifier::external_body]
pub(crate) fn sha256_str(s: &str) -> (r: String)
    ensures
        r@ == sha256_hex(s@),
        r@.len() == 64,
        forall|i: int| 0 <= i < r@.len() ==> is_lower_hex(#[trigger] r@[i]),
{
    sha256::digest(s)
}

/// Relies on sha256::digest for `&Vec<u8>` input: the SHA-256 digest of the
/// bytes, rendered as 64 lowercase hex characters.
#[verifier::external_body]
pub(crate) fn sha256_bytes(b: &Vec<u8>) -> (r: String)
    ensures
        r@ == sha256_bytes_hex(b@),
        r@.len() == 64,
        forall|i: int| 0 <= i < r@.len() ==> is_lower_hex(#[trigger] r@[i]),
{
    sha256::digest(b)
}

/// Relies on ripemd::Ripemd160 through the Digest trait: the RIPEMD-160
/// digest of the bytes, 20 bytes long.
#[verifier::external_body]
pub(crate) fn ripemd160_bytes(b: &Vec<u8>) -> (r: Vec<u8>)
    ensures
        r@ == ripemd160_of(b@),
        r@.len() == 20,
{
    ripemd::Ripemd160::digest(b.as_slice()).to_vec()
}

/// Relies on base58::ToBase58 for byte slices: the base-58 text of the bytes.
#[verifier::external_body]
pub(crate) fn base58_bytes(b: &[u8]) -> (r: String)
    ensures
        r@ == base58_of(b@),
{
    base58::ToBase58::to_base58(b)
}

/// Relies on p256's SecretKey::random (entropy from rand_core's OsRng),
/// SecretKey::public_key, pkcs8's to_pkcs8_pem and elliptic-curve's PEM
/// rendering of the public key: draws a fresh key pair and returns it as
/// (private PKCS#8 PEM held in zeroize's wipe-on-drop container, public
/// PEM). Whatever key was drawn, the returned public PEM is the one derived
/// from the returned private PEM. On an encoding failure the error message
/// is returned instead.
#[verifier::external_body]
pub(crate) fn p256_generate() -> (r: Result<(KeyPem, String), String>)
    ensures
        match r {
            Ok(p) => p.1@ == p256_pub_of(key_pem_str(p.0)),
            Err(_) => true,
        },
{
    let secret = p256::SecretKey::random(&mut rand_core::OsRng);
    let public = secret.public_key();
    match secret.to_pkcs8_pem(Default::default()) {
        Ok(pem) => Ok((KeyPem { pem }, public.to_string())),
        Err(e) => Err(e.to_string()),
    }
}

/// Relies on p256's SecretKey PEM parsing and ecdsa's SigningKey::try_sign
/// (deterministic ECDSA per RFC 6979, drawing no randomness) and
/// Signature::to_bytes: signs the message's UTF-8 bytes with the private
/// key, succeeding exactly when parsing and signing do, which depends on the
/// key and message alone. A signature so produced verifies under the public
/// key derived from that private key; this is the contract of the signature
/// crate's Signer/Verifier pair that p256 implements. On a parse or signing
/// failure the error message is returned.
#[verifier::external_body]
pub(crate) fn p256_sign(private_pem: &KeyPem, message: &str) -> (r: Result<Vec<u8>, String>)
    ensures
        match r {
            Ok(sig) => p256_sign_ok(key_pem_str(*private_pem), message@) && ecdsa_verifies(
                p256_pub_of(key_pem_str(*private_pem)),
                message@,
                sig@,
            ),
            Err(_) => !p256_sign_ok(key_pem_str(*private_pem), message@),
        },
{
    let secret: p256::SecretKey = match private_pem.pem.parse() {
        Ok(s) => s,
        Err(e) => return Err(e.to_string()),
    };
    let key = p256::ecdsa::SigningKey::from(secret);
    let signed: Result<p256::ecdsa::Signature, p256::ecdsa::Error> =
        p256::ecdsa::signature::Signer::try_sign(&key, message.as_bytes());
    match signed {
        Ok(sig) => Ok(sig.to_bytes().to_vec()),
        Err(e) => Err(e.to_string()),
    }
}

/// Relies on elliptic-curve's PublicKey PEM parsing, ecdsa's
/// Signature::from_slice and VerifyingKey::verify: whether the signature
/// verifies for the message's UTF-8 bytes under the public key. Returns false
/// when the key or the signature does not parse.
#[verifier::external_body]
pub(crate) fn p256_verify(public_pem: &str, message: &str, signature: &[u8]) -> (r: bool)
    ensures
        r == ecdsa_verifies(public_pem@, message@, signature@),
{
    let public: p256::PublicKey = match public_pem.parse() {
        Ok(k) => k,
        Err(_) => return false,
    };
    let sig = match p256::ecdsa::Signature::from_slice(signature) {
        Ok(s) => s,
        Err(_) => return false,
    };
    let key = p256::ecdsa::VerifyingKey::from(public);
    p256::ecdsa::signature::Verifier::verify(&key, message.as_bytes(), &sig).is_ok()
}

/// Relies on chrono's Utc::now and timestamp_nanos_opt: the current
/// wall-clock time in nanoseconds since the Unix epoch, or None when it does
/// not fit an i64. Nothing is assumed of the value.
#[verifier::external_body]
pub(crate) fn now_nanos() -> (r: Option<i64>) {
    chrono::Utc::now().timestamp_nanos_opt()
}

} // verus!
