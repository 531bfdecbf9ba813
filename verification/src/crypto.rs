//! The fixed cryptographic suite, as the rest of the library sees it.
//!
//! Key agreement is X25519 with ephemeral keys, key derivation is HKDF with
//! SHA-256, encryption is AES-256-GCM-SIV with a random nonce for every
//! message, and datagrams are authenticated with HMAC-SHA-512. The primitives
//! come from `aws_lc_rs`; nothing in this file is proved of them. What is
//! believed of each is written above it.

use vstd::prelude::*;

use crate::wire::copy_all;

verus! {

/// Length in bytes of the key of the authenticated cipher.
pub const AEAD_KEY_LEN: usize = 32;

/// Length in bytes of the key and of the tag of the message authentication
/// code.
pub const MAC_LEN: usize = 64;

/// Length in bytes of the tag that the authenticated cipher appends.
pub const TAG_LEN: usize = 16;

/// Length in bytes of an X25519 public key, the only kind that the
/// handshake sends.
pub const PUBLIC_KEY_LEN: usize = 32;

#[verifier::external_type_specification]
#[verifier::external_body]
pub struct ExEphemeralPrivateKey(aws_lc_rs::agreement::EphemeralPrivateKey);

/// The public key that `EphemeralPrivateKey::compute_public_key` gives for a
/// private key of any curve, in that curve's own encoding, or `None` where it
/// fails.
pub uninterp spec fn public_key_of(
    private: aws_lc_rs::agreement::EphemeralPrivateKey,
) -> Option<Seq<u8>>;

/// The raw key material that `agree_ephemeral` hands to its closure for a
/// private key and a peer's X25519 public key, or `None` where the agreement
/// fails, as it does for a private key of another curve.
pub uninterp spec fn x25519_shared(
    private: aws_lc_rs::agreement::EphemeralPrivateKey,
    peer: Seq<u8>,
) -> Option<Seq<u8>>;

/// The output of HKDF with SHA-256 for a salt, a secret, an info string and
/// an output length, or `None` where `aws_lc_rs::hkdf` fails.
pub uninterp spec fn hkdf_sha256(salt: Seq<u8>, secret: Seq<u8>, info: Seq<u8>, length: nat) -> Option<
    Seq<u8>,
>;

/// What `RandomizedNonceKey::open_in_place` with AES-256-GCM-SIV and no
/// associated data recovers from a sealed message under a key and a nonce:
/// the plaintext, or `None` where the message is not authentic.
pub uninterp spec fn aead_opened(key: Seq<u8>, nonce: Seq<u8>, sealed: Seq<u8>) -> Option<Seq<u8>>;

/// The tag that `aws_lc_rs::hmac::sign` with HMAC-SHA-512 computes over
/// `data` under `key`.
pub uninterp spec fn hmac_sha512(key: Seq<u8>, data: Seq<u8>) -> Seq<u8>;

/// `EphemeralPrivateKey::generate` for X25519: a fresh random private key, or
/// `None` where the generator fails. Nothing is claimed of the key.
#[verifier::external_body]
pub(crate) fn generate_private_key() -> (r: Option<aws_lc_rs::agreement::EphemeralPrivateKey>) {
    let rng = aws_lc_rs::rand::SystemRandom::new();
    aws_lc_rs::agreement::EphemeralPrivateKey::generate(&aws_lc_rs::agreement::X25519, &rng).ok()
}

/// `EphemeralPrivateKey::compute_public_key`: the bytes of the public key
/// that belongs to a private key. They depend on the private key alone. How
/// many they are depends on the key's curve, so nothing is claimed of their
/// number.
#[verifier::external_body]
pub(crate) fn compute_public_key(private: &aws_lc_rs::agreement::EphemeralPrivateKey) -> (r: Option<
    Vec<u8>,
>)
    ensures
        match public_key_of(*private) {
            Some(public) => r matches Some(v) && v@ == public,
            None => r is None,
        },
{
    match private.compute_public_key() {
        Ok(public) => Some(public.as_ref().to_vec()),
        Err(_) => None,
    }
}

/// `agree_ephemeral` for X25519, with a closure that copies the raw key
/// material out. The result depends on the private key and the peer's public
/// key alone; a peer key that is not a valid X25519 key gives `None`.
#[verifier::external_body]
pub(crate) fn agree(private: aws_lc_rs::agreement::EphemeralPrivateKey, peer: &[u8]) -> (r: Option<
    Vec<u8>,
>)
    ensures
        match x25519_shared(private, peer@) {
            Some(secret) => r matches Some(v) && v@ == secret,
            None => r is None,
        },
{
    let peer_key = aws_lc_rs::agreement::UnparsedPublicKey::new(
        &aws_lc_rs::agreement::X25519,
        peer,
    );
    aws_lc_rs::agreement::agree_ephemeral(
        private,
        peer_key,
        aws_lc_rs::error::Unspecified,
        |material| Ok(copy_all(material)),
    ).ok()
}

/// `Salt::new`, `Salt::extract`, `Prk::expand` and `Okm::fill` of
/// `aws_lc_rs::hkdf` with SHA-256, for an output of the length of an
/// AES-256-GCM-SIV key. The result depends on salt, secret and info alone.
#[verifier::external_body]
pub(crate) fn hkdf_aead_key(salt: &[u8], secret: &[u8], info: &[u8]) -> (r: Option<[u8; 32]>)
    ensures
        match hkdf_sha256(salt@, secret@, info@, AEAD_KEY_LEN as nat) {
            Some(okm) => r matches Some(key) && key@ == okm,
            None => r is None,
        },
{
    let prk = aws_lc_rs::hkdf::Salt::new(aws_lc_rs::hkdf::HKDF_SHA256, salt).extract(secret);
    let parts = [info];
    let okm = prk.expand(&parts, &aws_lc_rs::aead::AES_256_GCM_SIV).ok()?;
    let mut key = [0u8; 32];
    okm.fill(&mut key).ok()?;
    Some(key)
}

/// The same calls of `aws_lc_rs::hkdf` with SHA-256, for an output of the
/// length of an HMAC-SHA-512 key. The result depends on salt, secret and info
/// alone.
#[verifier::external_body]
pub(crate) fn hkdf_mac_key(salt: &[u8], secret: &[u8], info: &[u8]) -> (r: Option<[u8; 64]>)
    ensures
        match hkdf_sha256(salt@, secret@, info@, MAC_LEN as nat) {
            Some(okm) => r matches Some(key) && key@ == okm,
            None => r is None,
        },
{
    let prk = aws_lc_rs::hkdf::Salt::new(aws_lc_rs::hkdf::HKDF_SHA256, salt).extract(secret);
    let parts = [info];
    let okm = prk.expand(&parts, aws_lc_rs::hkdf::HKDF_SHA512.hmac_algorithm()).ok()?;
    let mut key = [0u8; 64];
    okm.fill(&mut key).ok()?;
    Some(key)
}

/// `aws_lc_rs::rand::fill` on 32 bytes: a fresh random salt, or `None` where
/// the generator fails. Nothing is claimed of the bytes.
#[verifier::external_body]
pub(crate) fn random_salt() -> (r: Option<[u8; 32]>) {
    let mut salt = [0u8; 32];
    aws_lc_rs::rand::fill(&mut salt).ok()?;
    Some(salt)
}

/// `RandomizedNonceKey::seal_in_place_append_tag` with AES-256-GCM-SIV and
/// no associated data, on a copy of the plaintext. The nonce is random, so
/// the sealed bytes are not named. Believed of every outcome: the sealed
/// message is the plaintext's length plus the tag's, and opening it under the
/// same key with the nonce that was returned recovers the plaintext.
#[verifier::external_body]
pub(crate) fn aead_seal(key: &[u8; 32], plaintext: &[u8]) -> (r: Option<([u8; 12], Vec<u8>)>)
    ensures
        r matches Some((nonce, sealed)) ==> sealed@.len() == plaintext@.len() + TAG_LEN
            && aead_opened(key@, nonce@, sealed@) == Some(plaintext@),
{
    let sealer = aws_lc_rs::aead::RandomizedNonceKey::new(
        &aws_lc_rs::aead::AES_256_GCM_SIV,
        key,
    ).ok()?;
    let mut sealed = plaintext.to_vec();
    let nonce = sealer.seal_in_place_append_tag(aws_lc_rs::aead::Aad::empty(), &mut sealed).ok()?;
    Some((*nonce.as_ref(), sealed))
}

/// `RandomizedNonceKey::open_in_place` with AES-256-GCM-SIV and no
/// associated data, on a copy of the sealed message. The result depends on
/// key, nonce and message alone; a plaintext is shorter than its sealed
/// message by the tag's length.
#[verifier::external_body]
pub(crate) fn aead_open(key: &[u8; 32], nonce: &[u8; 12], sealed: &[u8]) -> (r: Option<Vec<u8>>)
    ensures
        match aead_opened(key@, nonce@, sealed@) {
            Some(plain) => r matches Some(v) && v@ == plain,
            None => r is None,
        },
        r matches Some(v) ==> v@.len() + TAG_LEN == sealed@.len(),
{
    let opener = aws_lc_rs::aead::RandomizedNonceKey::new(
        &aws_lc_rs::aead::AES_256_GCM_SIV,
        key,
    ).ok()?;
    let mut buffer = sealed.to_vec();
    let opened = opener.open_in_place(
        aws_lc_rs::aead::Nonce::from(nonce),
        aws_lc_rs::aead::Aad::empty(),
        &mut buffer,
    );
    match opened {
        Ok(plain) => Some(plain.to_vec()),
        Err(_) => None,
    }
}

/// `aws_lc_rs::hmac::sign` with HMAC-SHA-512: the tag over `data` under
/// `key`. It depends on key and data alone and is 64 bytes long.
#[verifier::external_body]
pub(crate) fn mac_sign(key: &[u8; 64], data: &[u8]) -> (tag: Vec<u8>)
    ensures
        tag@ == hmac_sha512(key@, data@),
        tag@.len() == MAC_LEN,
{
    let mac_key = aws_lc_rs::hmac::Key::new(aws_lc_rs::hmac::HMAC_SHA512, key);
    aws_lc_rs::hmac::sign(&mac_key, data).as_ref().to_vec()
}

/// `aws_lc_rs::hmac::verify` with HMAC-SHA-512: whether `tag` is the tag
/// over `data` under `key`.
#[verifier::external_body]
pub(crate) fn mac_verify(key: &[u8; 64], data: &[u8], tag: &[u8]) -> (valid: bool)
    ensures
        valid == (tag@ == hmac_sha512(key@, data@)),
{
    let mac_key = aws_lc_rs::hmac::Key::new(aws_lc_rs::hmac::HMAC_SHA512, key);
    aws_lc_rs::hmac::verify(&mac_key, data, tag).is_ok()
}

/// The symmetric keys of a session: one for encryption, one for
/// authentication of datagrams.
#[derive(Clone, Copy, Debug, PartialEq, Eq)]
pub struct SessionKeys {
    /// Key of the authenticated cipher.
    pub aead: [u8; 32],
    /// Key of the message authentication code.
    pub mac: [u8; 64],
}

/// Session keys as mathematical values.
pub struct SessionKeysView {
    pub aead: Seq<u8>,
    pub mac: Seq<u8>,
}

impl View for SessionKeys {
    type V = SessionKeysView;

    open spec fn view(&self) -> SessionKeysView {
        SessionKeysView { aead: self.aead@, mac: self.mac@ }
    }
}

} // verus!
