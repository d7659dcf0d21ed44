//! Signing a message with a WIF-encoded private key, and verifying a
//! signature against a hex-encoded public key.

use crate::ledger::Blockchain;
use std::str::FromStr;
use vstd::prelude::*;

verus! {

/// Why a message could not be signed.
#[derive(Debug, Clone, Copy, PartialEq, Eq, Structural)]
pub enum SigningError {
    /// The private key is not a well-formed WIF encoding.
    KeyDecode,
    /// The decoded key or the digest was refused by the signer.
    Rejected,
}

/// The 32-byte secret that a WIF string encodes; `None` for a string that is
/// not a well-formed WIF encoding of a valid key.
pub uninterp spec fn wif_secret_key(wif: Seq<char>) -> Option<Seq<u8>>;

/// The 32-byte SHA-256 digest of the UTF-8 encoding of `message`.
pub uninterp spec fn sha256_digest(message: Seq<char>) -> Seq<u8>;

/// The ECDSA signature over secp256k1 of `digest` under `secret`, with the
/// deterministic nonce of RFC 6979, DER-encoded and written in lowercase
/// hexadecimal; `None` where `secret` is not a valid 32-byte key or `digest`
/// is not 32 bytes long.
pub uninterp spec fn ecdsa_signature(secret: Seq<u8>, digest: Seq<u8>) -> Option<Seq<char>>;

/// Whether `bytes` is a serialised secp256k1 public key.
pub uninterp spec fn public_key_parses(bytes: Seq<u8>) -> bool;

/// Whether `text` is the hexadecimal form of a DER-encoded ECDSA signature.
pub uninterp spec fn signature_parses(text: Seq<char>) -> bool;

/// Whether the public key `key` accepts `signature` for `digest`; false
/// where any of the three does not parse.
pub uninterp spec fn ecdsa_accepts(key: Seq<u8>, signature: Seq<char>, digest: Seq<u8>) -> bool;

/// The value of a hexadecimal digit of either case.
pub open spec fn hex_digit_value(c: char) -> Option<int> {
    if '0' <= c && c <= '9' {
        Some(c as int - '0' as int)
    } else if 'a' <= c && c <= 'f' {
        Some(c as int - 'a' as int + 10)
    } else if 'A' <= c && c <= 'F' {
        Some(c as int - 'A' as int + 10)
    } else {
        None
    }
}

/// Whether `text` is an even number of hexadecimal digits.
pub open spec fn is_hex_string(text: Seq<char>) -> bool {
    &&& text.len() % 2 == 0
    &&& forall|i: int| 0 <= i < text.len() ==> hex_digit_value(#[trigger] text[i]) is Some
}

/// The bytes that a hexadecimal string writes, two digits each, high digit
/// first; `None` for any other string.
pub open spec fn hex_decoded(text: Seq<char>) -> Option<Seq<u8>> {
    if is_hex_string(text) {
        Some(
            Seq::new(
                text.len() / 2,
                |i: int|
                    (16 * hex_digit_value(text[2 * i]).unwrap() + hex_digit_value(
                        text[2 * i + 1],
                    ).unwrap()) as u8,
            ),
        )
    } else {
        None
    }
}

/// The bytes of a public key given as an address: what the address decodes
/// to, or nothing where it is not hexadecimal.
pub open spec fn address_bytes(address: Seq<char>) -> Seq<u8> {
    match hex_decoded(address) {
        Some(bytes) => bytes,
        None => Seq::empty(),
    }
}

/// What signing `message` with the key encoded by `wif` gives.
pub open spec fn signing_outcome(wif: Seq<char>, message: Seq<char>) -> Result<
    Seq<char>,
    SigningError,
> {
    match wif_secret_key(wif) {
        None => Err(SigningError::KeyDecode),
        Some(secret) => match ecdsa_signature(secret, sha256_digest(message)) {
            Some(signature) => Ok(signature),
            None => Err(SigningError::Rejected),
        },
    }
}

/// Whether `signature` is a valid signature of `message` under the public
/// key that `address` writes in hexadecimal. False where the address is not
/// a public key or the signature does not parse.
pub open spec fn signature_verifies(
    address: Seq<char>,
    signature: Seq<char>,
    message: Seq<char>,
) -> bool {
    &&& public_key_parses(address_bytes(address))
    &&& signature_parses(signature)
    &&& ecdsa_accepts(address_bytes(address), signature, sha256_digest(message))
}

/// Verification fails closed: an address that does not decode to a public
/// key, or a signature that does not parse, is never accepted.
pub proof fn lemma_verification_fails_closed(
    address: Seq<char>,
    signature: Seq<char>,
    message: Seq<char>,
)
    requires
        !public_key_parses(address_bytes(address)) || !signature_parses(signature),
    ensures
        !signature_verifies(address, signature, message),
{
}

/// Calls `bitcoin::PrivateKey::from_wif` and hands out the secret's 32
/// bytes. Trusted: the outcome is the one named by [`wif_secret_key`].
#[verifier::external_body]
fn decode_wif(wif: &str) -> (secret: Option<Vec<u8>>)
    ensures
        match secret {
            Some(bytes) => wif_secret_key(wif@) == Some(bytes@),
            None => wif_secret_key(wif@) is None,
        },
{
    bitcoin::PrivateKey::from_wif(wif).ok().map(|key| key.inner.secret_bytes().to_vec())
}

/// Calls `bitcoin::hashes::sha256::Hash::hash` on the bytes of `message`.
/// Trusted: the result is the digest named by [`sha256_digest`].
#[verifier::external_body]
fn message_digest(message: &str) -> (digest: Vec<u8>)
    ensures
        digest@ == sha256_digest(message@),
{
    let hash = <bitcoin::hashes::sha256::Hash as bitcoin::hashes::Hash>::hash(message.as_bytes());
    bitcoin::hashes::Hash::to_byte_array(hash).to_vec()
}

/// Calls `Secp256k1::sign_ecdsa` on the key and the message that the two
/// byte strings parse to, and writes the signature with its `Display`.
/// Trusted: the outcome is the one named by [`ecdsa_signature`].
#[verifier::external_body]
fn sign_digest(secret: &[u8], digest: &[u8]) -> (signature: Option<String>)
    ensures
        match signature {
            Some(text) => ecdsa_signature(secret@, digest@) == Some(text@),
            None => ecdsa_signature(secret@, digest@) is None,
        },
{
    let key = bitcoin::secp256k1::SecretKey::from_slice(secret).ok()?;
    let message = bitcoin::secp256k1::Message::from_digest_slice(digest).ok()?;
    Some(bitcoin::secp256k1::Secp256k1::new().sign_ecdsa(&message, &key).to_string())
}

/// Calls `hex::decode`. Trusted: the call succeeds exactly on an even number
/// of hexadecimal digits, and then gives the bytes they write.
#[verifier::external_body]
fn hex_decode(text: &str) -> (bytes: Option<Vec<u8>>)
    ensures
        match bytes {
            Some(decoded) => hex_decoded(text@) == Some(decoded@),
            None => hex_decoded(text@) is None,
        },
{
    hex::decode(text).ok()
}

/// Calls `secp256k1::PublicKey::from_slice`. Trusted: the answer is the one
/// named by [`public_key_parses`].
#[verifier::external_body]
fn is_public_key(bytes: &[u8]) -> (valid: bool)
    ensures
        valid == public_key_parses(bytes@),
{
    bitcoin::secp256k1::PublicKey::from_slice(bytes).is_ok()
}

/// Calls `from_str` of `secp256k1::ecdsa::Signature`. Trusted: the answer is
/// the one named by [`signature_parses`].
#[verifier::external_body]
fn is_signature(text: &str) -> (valid: bool)
    ensures
        valid == signature_parses(text@),
{
    bitcoin::secp256k1::ecdsa::Signature::from_str(text).is_ok()
}

/// Calls `Secp256k1::verify_ecdsa` on the key, signature and message that
/// the arguments parse to, and answers false where one of them does not
/// parse. Trusted: the answer is the one named by [`ecdsa_accepts`].
#[verifier::external_body]
fn ecdsa_verify(key: &[u8], signature: &str, digest: &[u8]) -> (accepted: bool)
    ensures
        accepted == ecdsa_accepts(key@, signature@, digest@),
{
    let parsed = (
        bitcoin::secp256k1::PublicKey::from_slice(key),
        bitcoin::secp256k1::ecdsa::Signature::from_str(signature),
        bitcoin::secp256k1::Message::from_digest_slice(digest),
    );
    match parsed {
        (Ok(key), Ok(signature), Ok(message)) => bitcoin::secp256k1::Secp256k1::verification_only()
            .verify_ecdsa(&message, &signature, &key).is_ok(),
        _ => false,
    }
}

impl Blockchain {
    /// Signs `message` with the private key that `wif_compressed_priv_key`
    /// encodes. The signature covers the SHA-256 digest of the message and
    /// comes back DER-encoded in hexadecimal.
    pub fn sign(wif_compressed_priv_key: &str, message: &str) -> (result: Result<
        String,
        SigningError,
    >)
        ensures
            match result {
                Ok(signature) => signing_outcome(wif_compressed_priv_key@, message@) == Ok::<
                    Seq<char>,
                    SigningError,
                >(signature@),
                Err(error) => signing_outcome(wif_compressed_priv_key@, message@) == Err::<
                    Seq<char>,
                    SigningError,
                >(error),
            },
    {
        let secret = match decode_wif(wif_compressed_priv_key) {
            Some(secret) => secret,
            None => return Err(SigningError::KeyDecode),
        };
        let digest = message_digest(message);
        match sign_digest(secret.as_slice(), digest.as_slice()) {
            Some(signature) => Ok(signature),
            None => Err(SigningError::Rejected),
        }
    }

    /// Whether `signature` is a valid signature of `message` under the
    /// public key `address`. Never fails: an address or a signature that
    /// cannot be decoded gives `false`.
    pub fn verify_signature(address: &str, signature: &str, message: &str) -> (valid: bool)
        ensures
            valid == signature_verifies(address@, signature@, message@),
    {
        let key = match hex_decode(address) {
            Some(bytes) => bytes,
            None => Vec::new(),
        };
        if !is_public_key(key.as_slice()) {
            return false;
        }
        if !is_signature(signature) {
            return false;
        }
        let digest = message_digest(message);
        ecdsa_verify(key.as_slice(), signature, digest.as_slice())
    }
}

} // verus!
