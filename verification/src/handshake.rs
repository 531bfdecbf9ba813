//! The four-message handshake, as two state machines.
//!
//! The initiator sends `Initialize` with its public key. The responder
//! answers `PeerInitialize` with its own public key and a fresh salt. Both
//! agree on a secret and derive two keys from it, one for encryption and one
//! for authentication. The initiator proves that it holds the same keys by
//! sending `Check`: a known marker sealed under the encryption key. The
//! responder opens it and, where the marker is there, issues the session
//! identifier in `KeyAgreement`.
//!
//! A step takes the state and the frame that arrived and gives the next
//! state and the frame to send, if any. Reading and writing frames is the
//! caller's part.

use vstd::prelude::*;

use crate::crypto::{
    aead_open, aead_opened, aead_seal, agree, compute_public_key, generate_private_key,
    hkdf_aead_key, hkdf_mac_key, hkdf_sha256, public_key_of, random_salt, x25519_shared,
    SessionKeys, SessionKeysView, AEAD_KEY_LEN, MAC_LEN, PUBLIC_KEY_LEN, TAG_LEN,
};
use crate::error::Error;
use crate::frame::{Frame, FrameView};
use crate::uuid::{is_version_4, UuidWrapper};
use crate::wire::copy_all;

verus! {

/// Length in bytes of the salt for key derivation.
pub const SALT_LEN: usize = 32;

/// The known plaintext of the `Check` frame.
pub open spec fn marker() -> Seq<u8> {
    seq![0x59u8, 0x6f, 0x64, 0x61]
}

/// The info string under which the encryption key is derived.
pub open spec fn aead_info() -> Seq<u8> {
    seq![0x61u8, 0x65, 0x61, 0x64, 0x20, 0x6b, 0x65, 0x79]
}

/// The info string under which the authentication key is derived.
pub open spec fn mac_info() -> Seq<u8> {
    seq![0x68u8, 0x6d, 0x61, 0x63, 0x20, 0x6b, 0x65, 0x79]
}

/// The known plaintext of the `Check` frame.
pub fn check_marker() -> (r: Vec<u8>)
    ensures
        r@ == marker(),
{
    let r = vec![0x59u8, 0x6f, 0x64, 0x61];
    proof {
        assert(r@ =~= marker());
    }
    r
}

fn aead_label() -> (r: Vec<u8>)
    ensures
        r@ == aead_info(),
{
    let r = vec![0x61u8, 0x65, 0x61, 0x64, 0x20, 0x6b, 0x65, 0x79];
    proof {
        assert(r@ =~= aead_info());
    }
    r
}

fn mac_label() -> (r: Vec<u8>)
    ensures
        r@ == mac_info(),
{
    let r = vec![0x68u8, 0x6d, 0x61, 0x63, 0x20, 0x6b, 0x65, 0x79];
    proof {
        assert(r@ =~= mac_info());
    }
    r
}

/// The two keys that a shared secret and a salt give: each from its own
/// derivation, under its own info string. `None` where a derivation fails.
pub open spec fn derived_keys(secret: Seq<u8>, salt: Seq<u8>) -> Option<SessionKeysView> {
    match hkdf_sha256(salt, secret, aead_info(), AEAD_KEY_LEN as nat) {
        Some(aead) => match hkdf_sha256(salt, secret, mac_info(), MAC_LEN as nat) {
            Some(mac) => Some(SessionKeysView { aead, mac }),
            None => None,
        },
        None => None,
    }
}

/// Derives the session keys from a shared secret and a salt. The keys depend
/// on secret and salt alone, so two sides that hold the same secret and salt
/// hold the same keys. It fails, with `Error::Unspecified`, exactly where a
/// derivation does.
pub fn derive_session_keys(secret: &[u8], salt: &[u8]) -> (r: Result<SessionKeys, Error>)
    ensures
        match derived_keys(secret@, salt@) {
            Some(keys) => r matches Ok(got) && got@ == keys,
            None => r matches Err(e) && e == Error::Unspecified,
        },
{
    let aead_label = aead_label();
    let mac_label = mac_label();
    let aead = match hkdf_aead_key(salt, secret, aead_label.as_slice()) {
        Some(key) => key,
        None => {
            return Err(Error::Unspecified);
        },
    };
    let mac = match hkdf_mac_key(salt, secret, mac_label.as_slice()) {
        Some(key) => key,
        None => {
            return Err(Error::Unspecified);
        },
    };
    Ok(SessionKeys { aead, mac })
}

/// Whether a responder that holds `keys` accepts a `Check` frame with this
/// nonce and sealed message: it opens under the encryption key, and what it
/// holds is the marker.
pub open spec fn check_passes(keys: SessionKeysView, nonce: Seq<u8>, sealed: Seq<u8>) -> bool {
    aead_opened(keys.aead, nonce, sealed) == Some(marker())
}

/// Whether two byte strings are the same.
pub fn bytes_equal(a: &[u8], b: &[u8]) -> (same: bool)
    ensures
        same == (a@ == b@),
{
    if a.len() != b.len() {
        return false;
    }
    let mut i: usize = 0;
    while i < a.len()
        invariant
            i <= a@.len(),
            a@.len() == b@.len(),
            forall|j: int| 0 <= j < i ==> a@[j] == b@[j],
        decreases a@.len() - i,
    {
        if a[i] != b[i] {
            return false;
        }
        i = i + 1;
    }
    proof {
        assert(a@ =~= b@);
    }
    true
}

/// Judges what opening a `Check` frame gave: the handshake goes on exactly
/// where the frame opened and held the marker; anything else is
/// `Error::DecryptionFailed`.
pub fn check_verdict(opened: &Option<Vec<u8>>) -> (r: Result<(), Error>)
    ensures
        r is Ok <==> (opened matches Some(plain) && plain@ == marker()),
        r matches Err(e) ==> e == Error::DecryptionFailed,
{
    match opened {
        Some(plain) => {
            let known = check_marker();
            if bytes_equal(plain.as_slice(), known.as_slice()) {
                Ok(())
            } else {
                Err(Error::DecryptionFailed)
            }
        },
        None => Err(Error::DecryptionFailed),
    }
}

/// The initiator's side of the handshake.
pub enum ClientHandshake {
    /// `Initialize` is sent; the answer decides the keys.
    AwaitingPeerInitialize(aws_lc_rs::agreement::EphemeralPrivateKey),
    /// `Check` is sent under the keys held; the session identifier is
    /// awaited.
    AwaitingKeyAgreement(SessionKeys),
    /// The handshake succeeded.
    Established(SessionKeys, UuidWrapper),
    /// The handshake failed, for the reason held.
    Failed(Error),
}

/// The responder's side of the handshake.
#[derive(Clone, Copy, Debug, PartialEq, Eq)]
pub enum RelayHandshake {
    /// Nothing has arrived yet.
    AwaitingInitialize,
    /// `PeerInitialize` is sent and the keys are derived; the proof that the
    /// peer holds them is awaited.
    AwaitingCheck(SessionKeys),
    /// The handshake succeeded.
    Established(SessionKeys, UuidWrapper),
    /// The handshake failed, for the reason held.
    Failed(Error),
}

/// The public key that the handshake sends for a private key: the key's
/// public key where it has the 32 bytes of an X25519 key. A private key whose
/// public key cannot be computed, or is of another length, has none.
pub open spec fn sendable_public_key(
    private: aws_lc_rs::agreement::EphemeralPrivateKey,
) -> Option<Seq<u8>> {
    match public_key_of(private) {
        Some(public) => if public.len() == PUBLIC_KEY_LEN {
            Some(public)
        } else {
            None
        },
        None => None,
    }
}

/// What the initiator's first move gives for a private key: the state that
/// holds the key and the `Initialize` frame with its public key of 32 bytes,
/// or a failure where the key has no such public key.
pub open spec fn client_opening(
    private: aws_lc_rs::agreement::EphemeralPrivateKey,
    r: Result<(ClientHandshake, Frame), Error>,
) -> bool {
    match sendable_public_key(private) {
        Some(public) => {
            &&& r matches Ok((state, frame))
            &&& state == ClientHandshake::AwaitingPeerInitialize(private)
            &&& frame@ == FrameView::Initialize(public)
        },
        None => r matches Err(e) && e == Error::Unspecified,
    }
}

/// Whether a frame carries a public key of the key agreement's length, as
/// the two frames that open a handshake do.
pub open spec fn carries_public_key(frame: FrameView) -> bool {
    match frame {
        FrameView::Initialize(key) => key.len() == PUBLIC_KEY_LEN,
        FrameView::PeerInitialize(key, _) => key.len() == PUBLIC_KEY_LEN,
        _ => false,
    }
}

/// What a step of the initiator gives.
pub open spec fn client_stepped(
    before: ClientHandshake,
    frame: FrameView,
    after: ClientHandshake,
    reply: Option<Frame>,
) -> bool {
    match before {
        ClientHandshake::AwaitingPeerInitialize(private) => match frame {
            FrameView::PeerInitialize(peer, salt) => match x25519_shared(private, peer) {
                Some(secret) => match derived_keys(secret, salt) {
                    Some(keys) => client_checked(keys, after, reply),
                    None => after == ClientHandshake::Failed(Error::Unspecified) && reply is None,
                },
                None => after == ClientHandshake::Failed(Error::Unspecified) && reply is None,
            },
            _ => after == ClientHandshake::Failed(Error::InvalidFrame) && reply is None,
        },
        ClientHandshake::AwaitingKeyAgreement(keys) => match frame {
            FrameView::KeyAgreement(id) => after matches ClientHandshake::Established(held, got)
                && held@ == keys@ && got@ == id && reply is None,
            _ => after == ClientHandshake::Failed(Error::InvalidFrame) && reply is None,
        },
        ClientHandshake::Established(_, _) => after == ClientHandshake::Failed(Error::InvalidFrame)
            && reply is None,
        ClientHandshake::Failed(why) => after == ClientHandshake::Failed(why) && reply is None,
    }
}

/// What the initiator does once it holds the keys: it sends a `Check` frame
/// that a responder with the same keys accepts, whose sealed message is as
/// long as the marker and the cipher's tag together, and waits for the
/// session identifier. Only where the cipher fails does the handshake fail here.
pub open spec fn client_checked(
    keys: SessionKeysView,
    after: ClientHandshake,
    reply: Option<Frame>,
) -> bool {
    ||| {
        &&& after matches ClientHandshake::AwaitingKeyAgreement(held)
        &&& held@ == keys
        &&& reply matches Some(Frame::Check(nonce, sealed))
        &&& check_passes(keys, nonce@, sealed@)
        &&& sealed@.len() == marker().len() + TAG_LEN
    }
    ||| after == ClientHandshake::Failed(Error::Unspecified) && reply is None
}

/// What the responder's answer to `Initialize` is for a private key, a salt
/// and the peer's public key: the keys derived and the `PeerInitialize`
/// frame with the private key's public key of 32 bytes, or a failure where
/// the key has no such public key or a step of the cryptography fails.
pub open spec fn relay_answer(
    private: aws_lc_rs::agreement::EphemeralPrivateKey,
    salt: Seq<u8>,
    peer: Seq<u8>,
) -> Option<(SessionKeysView, FrameView)> {
    match sendable_public_key(private) {
        Some(public) => match x25519_shared(private, peer) {
            Some(secret) => match derived_keys(secret, salt) {
                Some(keys) => Some((keys, FrameView::PeerInitialize(public, salt))),
                None => None,
            },
            None => None,
        },
        None => None,
    }
}

/// What a step of the responder gives.
pub open spec fn relay_stepped(
    before: RelayHandshake,
    frame: FrameView,
    after: RelayHandshake,
    reply: Option<Frame>,
) -> bool {
    match before {
        RelayHandshake::AwaitingInitialize => match frame {
            FrameView::Initialize(peer) => relay_answered(peer, after, reply),
            FrameView::Check(_, _) => after == RelayHandshake::Failed(Error::KeyNotEstablished)
                && reply is None,
            _ => after == RelayHandshake::Failed(Error::InvalidFrame) && reply is None,
        },
        RelayHandshake::AwaitingCheck(keys) => match frame {
            FrameView::Check(nonce, sealed) => if check_passes(keys@, nonce, sealed) {
                &&& after matches RelayHandshake::Established(held, id)
                &&& held@ == keys@
                &&& is_version_4(id@)
                &&& reply matches Some(Frame::KeyAgreement(sent))
                &&& sent@ == id@
            } else {
                after == RelayHandshake::Failed(Error::DecryptionFailed) && reply is None
            },
            _ => after == RelayHandshake::Failed(Error::InvalidFrame) && reply is None,
        },
        RelayHandshake::Established(_, _) => after == RelayHandshake::Failed(Error::InvalidFrame)
            && reply is None,
        RelayHandshake::Failed(why) => after == RelayHandshake::Failed(why) && reply is None,
    }
}

/// What the responder does on `Initialize`: with some fresh private key and
/// salt it gives the answer that `relay_answer` states for them and waits for
/// the proof. The public key it sends has 32 bytes, and so has the salt.
/// Where the generator or a step of the cryptography fails, the handshake
/// fails.
pub open spec fn relay_answered(peer: Seq<u8>, after: RelayHandshake, reply: Option<Frame>) -> bool {
    ||| {
        &&& after matches RelayHandshake::AwaitingCheck(held)
        &&& reply matches Some(sent)
        &&& carries_public_key(sent@)
        &&& exists|private: aws_lc_rs::agreement::EphemeralPrivateKey, salt: Seq<u8>|
            salt.len() == SALT_LEN && #[trigger] relay_answer(private, salt, peer) == Some(
                (held@, sent@),
            )
    }
    ||| after == RelayHandshake::Failed(Error::Unspecified) && reply is None
}

impl ClientHandshake {
    /// Opens a handshake with a fresh ephemeral key pair: the state to keep
    /// and the `Initialize` frame to send.
    pub fn start() -> (r: Result<(ClientHandshake, Frame), Error>)
        ensures
            r matches Ok((state, frame)) ==> state matches ClientHandshake::AwaitingPeerInitialize(
                private,
            ) && client_opening(private, r),
            r matches Err(e) ==> e == Error::Unspecified,
    {
        match generate_private_key() {
            Some(private) => ClientHandshake::open(private),
            None => Err(Error::Unspecified),
        }
    }

    /// Opens a handshake with the private key given. A key whose public key
    /// is not the 32 bytes of an X25519 key opens none.
    pub fn open(private: aws_lc_rs::agreement::EphemeralPrivateKey) -> (r: Result<
        (ClientHandshake, Frame),
        Error,
    >)
        ensures
            client_opening(private, r),
    {
        match compute_public_key(&private) {
            Some(public) => {
                if public.len() == PUBLIC_KEY_LEN {
                    Ok((ClientHandshake::AwaitingPeerInitialize(private), Frame::Initialize(public)))
                } else {
                    Err(Error::Unspecified)
                }
            },
            None => Err(Error::Unspecified),
        }
    }

    /// Takes the frame that arrived: the next state, and the frame to send
    /// if there is one.
    pub fn step(self, frame: Frame) -> (r: (ClientHandshake, Option<Frame>))
        ensures
            client_stepped(self, frame@, r.0, r.1),
    {
        match self {
            ClientHandshake::AwaitingPeerInitialize(private) => match frame {
                Frame::PeerInitialize(peer, salt) => {
                    let secret = match agree(private, peer.as_slice()) {
                        Some(secret) => secret,
                        None => {
                            return (ClientHandshake::Failed(Error::Unspecified), None);
                        },
                    };
                    match derive_session_keys(secret.as_slice(), salt.as_slice()) {
                        Ok(keys) => ClientHandshake::send_check(keys),
                        Err(e) => (ClientHandshake::Failed(e), None),
                    }
                },
                _ => (ClientHandshake::Failed(Error::InvalidFrame), None),
            },
            ClientHandshake::AwaitingKeyAgreement(keys) => match frame {
                Frame::KeyAgreement(id) => (ClientHandshake::Established(keys, id), None),
                _ => (ClientHandshake::Failed(Error::InvalidFrame), None),
            },
            ClientHandshake::Established(_, _) => (
                ClientHandshake::Failed(Error::InvalidFrame),
                None,
            ),
            ClientHandshake::Failed(why) => (ClientHandshake::Failed(why), None),
        }
    }

    /// Seals the marker under the keys held, with a fresh random nonce.
    pub fn send_check(keys: SessionKeys) -> (r: (ClientHandshake, Option<Frame>))
        ensures
            client_checked(keys@, r.0, r.1),
    {
        let known = check_marker();
        match aead_seal(&keys.aead, known.as_slice()) {
            Some((nonce, sealed)) => (
                ClientHandshake::AwaitingKeyAgreement(keys),
                Some(Frame::Check(nonce, sealed)),
            ),
            None => (ClientHandshake::Failed(Error::Unspecified), None),
        }
    }

    /// The keys and the identifier of the session, once it is established.
    pub fn session(&self) -> (r: Option<(SessionKeys, UuidWrapper)>)
        ensures
            match self {
                ClientHandshake::Established(keys, id) => r matches Some((k, i)) && k@ == keys@
                    && i@ == id@,
                _ => r is None,
            },
    {
        match self {
            ClientHandshake::Established(keys, id) => Some((*keys, *id)),
            _ => None,
        }
    }

    /// The reason of a failed handshake.
    pub fn failure(&self) -> (r: Option<Error>)
        ensures
            match self {
                ClientHandshake::Failed(why) => r == Some(*why),
                _ => r is None,
            },
    {
        match self {
            ClientHandshake::Failed(why) => Some(*why),
            _ => None,
        }
    }
}

impl RelayHandshake {
    /// A responder that has seen nothing yet.
    pub fn new() -> (r: RelayHandshake)
        ensures
            r == RelayHandshake::AwaitingInitialize,
    {
        RelayHandshake::AwaitingInitialize
    }

    /// Answers `Initialize` with the private key and salt given: the keys
    /// derived and the `PeerInitialize` frame to send. A key whose public
    /// key is not the 32 bytes of an X25519 key gives no answer.
    pub fn answer(
        private: aws_lc_rs::agreement::EphemeralPrivateKey,
        salt: [u8; 32],
        peer: &[u8],
    ) -> (r: Result<(SessionKeys, Frame), Error>)
        ensures
            match relay_answer(private, salt@, peer@) {
                Some((keys, frame)) => r matches Ok((got, sent)) && got@ == keys && sent@ == frame,
                None => r matches Err(e) && e == Error::Unspecified,
            },
            r matches Ok((_, sent)) ==> carries_public_key(sent@),
    {
        let public = match compute_public_key(&private) {
            Some(public) => public,
            None => {
                return Err(Error::Unspecified);
            },
        };
        if public.len() != PUBLIC_KEY_LEN {
            return Err(Error::Unspecified);
        }
        let secret = match agree(private, peer) {
            Some(secret) => secret,
            None => {
                return Err(Error::Unspecified);
            },
        };
        let keys = match derive_session_keys(secret.as_slice(), salt.as_slice()) {
            Ok(keys) => keys,
            Err(e) => {
                return Err(e);
            },
        };
        let salt_bytes = copy_all(salt.as_slice());
        Ok((keys, Frame::PeerInitialize(public, salt_bytes)))
    }

    /// Judges a `Check` frame under the keys held: the session's identifier
    /// is issued exactly where the frame passes.
    pub fn verify_check(keys: SessionKeys, nonce: &[u8; 12], sealed: &[u8]) -> (r: (
        RelayHandshake,
        Option<Frame>,
    ))
        ensures
            relay_stepped(
                RelayHandshake::AwaitingCheck(keys),
                FrameView::Check(nonce@, sealed@),
                r.0,
                r.1,
            ),
    {
        let opened = aead_open(&keys.aead, nonce, sealed);
        match check_verdict(&opened) {
            Ok(()) => {
                let id = UuidWrapper::random();
                (RelayHandshake::Established(keys, id), Some(Frame::KeyAgreement(id)))
            },
            Err(e) => (RelayHandshake::Failed(e), None),
        }
    }

    /// Takes the frame that arrived: the next state, and the frame to send
    /// if there is one.
    pub fn step(self, frame: Frame) -> (r: (RelayHandshake, Option<Frame>))
        ensures
            relay_stepped(self, frame@, r.0, r.1),
    {
        match self {
            RelayHandshake::AwaitingInitialize => match frame {
                Frame::Initialize(peer) => {
                    let private = match generate_private_key() {
                        Some(private) => private,
                        None => {
                            return (RelayHandshake::Failed(Error::Unspecified), None);
                        },
                    };
                    let salt = match random_salt() {
                        Some(salt) => salt,
                        None => {
                            return (RelayHandshake::Failed(Error::Unspecified), None);
                        },
                    };
                    match RelayHandshake::answer(private, salt, peer.as_slice()) {
                        Ok((keys, reply)) => (RelayHandshake::AwaitingCheck(keys), Some(reply)),
                        Err(e) => (RelayHandshake::Failed(e), None),
                    }
                },
                Frame::Check(_, _) => (RelayHandshake::Failed(Error::KeyNotEstablished), None),
                _ => (RelayHandshake::Failed(Error::InvalidFrame), None),
            },
            RelayHandshake::AwaitingCheck(keys) => match frame {
                Frame::Check(nonce, sealed) => RelayHandshake::verify_check(
                    keys,
                    &nonce,
                    sealed.as_slice(),
                ),
                _ => (RelayHandshake::Failed(Error::InvalidFrame), None),
            },
            RelayHandshake::Established(_, _) => (
                RelayHandshake::Failed(Error::InvalidFrame),
                None,
            ),
            RelayHandshake::Failed(why) => (RelayHandshake::Failed(why), None),
        }
    }

    /// The keys and the identifier of the session, once it is established.
    pub fn session(&self) -> (r: Option<(SessionKeys, UuidWrapper)>)
        ensures
            match self {
                RelayHandshake::Established(keys, id) => r matches Some((k, i)) && k@ == keys@
                    && i@ == id@,
                _ => r is None,
            },
    {
        match self {
            RelayHandshake::Established(keys, id) => Some((*keys, *id)),
            _ => None,
        }
    }

    /// The reason of a failed handshake.
    pub fn failure(&self) -> (r: Option<Error>)
        ensures
            match self {
                RelayHandshake::Failed(why) => r == Some(*why),
                _ => r is None,
            },
    {
        match self {
            RelayHandshake::Failed(why) => Some(*why),
            _ => None,
        }
    }
}

/// A `Check` frame that does not open to the marker under the responder's
/// keys ends the responder's handshake with `Error::DecryptionFailed`: no
/// session is established and nothing is sent.
pub proof fn lemma_bad_check_fails(
    keys: SessionKeys,
    nonce: Seq<u8>,
    sealed: Seq<u8>,
    after: RelayHandshake,
    reply: Option<Frame>,
)
    requires
        !check_passes(keys@, nonce, sealed),
        relay_stepped(RelayHandshake::AwaitingCheck(keys), FrameView::Check(nonce, sealed), after, reply),
    ensures
        after == RelayHandshake::Failed(Error::DecryptionFailed),
        reply is None,
{
}

/// The `Check` frame that an initiator sends under its keys is accepted by a
/// responder that holds the same keys: the responder's handshake is
/// established and it answers with the session's identifier, a fresh one of
/// version 4.
pub proof fn lemma_same_keys_establish(
    keys: SessionKeys,
    waiting: ClientHandshake,
    check: Option<Frame>,
    after: RelayHandshake,
    reply: Option<Frame>,
)
    requires
        waiting matches ClientHandshake::AwaitingKeyAgreement(_),
        client_checked(keys@, waiting, check),
        check matches Some(frame) && relay_stepped(
            RelayHandshake::AwaitingCheck(keys),
            frame@,
            after,
            reply,
        ),
    ensures
        ({
            &&& after matches RelayHandshake::Established(held, id)
            &&& held@ == keys@
            &&& is_version_4(id@)
            &&& reply matches Some(Frame::KeyAgreement(sent))
            &&& sent@ == id@
        }),
{
}

} // verus!
