//! Datagrams of a promoted session.
//!
//! What is encrypted is the session identifier (16 bytes), the payload's
//! length (8 bytes, most significant first) and the payload. The
//! authenticated form of a packet is the nonce (12 bytes), a tag over the
//! sealed message (64 bytes), the sealed message's length (8 bytes, most
//! significant first) and the sealed message. The simple form is the nonce
//! and the sealed message. A packet that fails any test is rejected with the
//! test it failed; nothing here panics on any input.

use vstd::prelude::*;
use vstd::slice::slice_subrange;

use crate::crypto::{
    aead_open, aead_opened, aead_seal, hmac_sha512, mac_sign, mac_verify, SessionKeys,
    SessionKeysView, MAC_LEN, TAG_LEN,
};
use crate::cursor::{Cursor, NONCE_LEN};
use crate::error::Error;
use crate::uuid::{UuidWrapper, UUID_LEN};
use crate::wire::{
    be_u64, be_value, copy_all, copy_array, copy_range, lemma_be_round_trip, push_be_u64,
    read_be_u64,
};

verus! {

/// Length of what stands before the payload in a decrypted message.
pub const INNER_HEADER_LEN: usize = 24;

/// Length of what stands before the sealed message in an authenticated
/// packet.
pub const PACKET_HEADER_LEN: usize = 84;

/// The shortest simple packet that is looked at.
pub const SIMPLE_MIN_LEN: usize = 37;

/// Why a packet was not accepted.
#[derive(Clone, Copy, Debug, PartialEq, Eq, Structural)]
pub enum Rejected {
    /// The packet is shorter than its header.
    Short,
    /// The packet announces a longer sealed message than it holds.
    Truncated,
    /// The tag is not the tag of the sealed message.
    Mac,
    /// The sealed message is not authentic under the key and nonce.
    Decryption,
    /// The decrypted message is shorter than its header, or announces a
    /// longer payload than it holds.
    Length,
}

/// A decrypted datagram.
#[derive(Debug, Eq, Hash, Ord, PartialEq, PartialOrd)]
pub enum EncryptedFrame {
    /// The session that a packet belongs to, and its payload.
    Bytes((UuidWrapper, Vec<u8>)),
}

impl Clone for EncryptedFrame {
    fn clone(&self) -> (r: Self)
        ensures
            r@ == self@,
    {
        match self {
            EncryptedFrame::Bytes((id, payload)) => {
                EncryptedFrame::Bytes((*id, copy_all(payload.as_slice())))
            },
        }
    }
}

impl View for EncryptedFrame {
    type V = (Seq<u8>, Seq<u8>);

    open spec fn view(&self) -> (Seq<u8>, Seq<u8>) {
        match self {
            EncryptedFrame::Bytes((id, payload)) => (id@, payload@),
        }
    }
}

/// The message that is sealed for a session and a payload.
pub open spec fn inner_bytes(id: Seq<u8>, payload: Seq<u8>) -> Seq<u8>
    recommends
        payload.len() <= u64::MAX,
{
    id + be_u64(payload.len() as u64) + payload
}

/// Reads session and payload from a decrypted message. Bytes after the
/// payload are not looked at.
pub open spec fn parse_inner(plain: Seq<u8>) -> Result<(Seq<u8>, Seq<u8>), Rejected> {
    if plain.len() < INNER_HEADER_LEN {
        Err(Rejected::Length)
    } else {
        let length = be_value(plain.subrange(UUID_LEN as int, INNER_HEADER_LEN as int));
        if plain.len() - INNER_HEADER_LEN < length {
            Err(Rejected::Length)
        } else {
            Ok(
                (
                    plain.take(UUID_LEN as int),
                    plain.subrange(INNER_HEADER_LEN as int, INNER_HEADER_LEN + length),
                ),
            )
        }
    }
}

/// What opening a sealed message under a key and a nonce gives.
pub open spec fn open_spec(key: Seq<u8>, nonce: Seq<u8>, sealed: Seq<u8>) -> Result<
    (Seq<u8>, Seq<u8>),
    Rejected,
> {
    match aead_opened(key, nonce, sealed) {
        Some(plain) => parse_inner(plain),
        None => Err(Rejected::Decryption),
    }
}

/// The sealed message that an authenticated packet announces, where it
/// holds one.
pub open spec fn sealed_part(packet: Seq<u8>) -> Seq<u8>
    recommends
        packet.len() >= PACKET_HEADER_LEN,
{
    packet.subrange(
        PACKET_HEADER_LEN as int,
        PACKET_HEADER_LEN + be_value(
            packet.subrange(NONCE_LEN + MAC_LEN, PACKET_HEADER_LEN as int),
        ),
    )
}

/// What `decrypt` makes of an authenticated packet: first its lengths, then
/// its tag, then its seal, then what it holds.
pub open spec fn decrypt_spec(packet: Seq<u8>, keys: SessionKeysView) -> Result<
    (Seq<u8>, Seq<u8>),
    Rejected,
> {
    if packet.len() < PACKET_HEADER_LEN {
        Err(Rejected::Short)
    } else if packet.len() - PACKET_HEADER_LEN < be_value(
        packet.subrange(NONCE_LEN + MAC_LEN, PACKET_HEADER_LEN as int),
    ) {
        Err(Rejected::Truncated)
    } else if packet.subrange(NONCE_LEN as int, NONCE_LEN + MAC_LEN) != hmac_sha512(
        keys.mac,
        sealed_part(packet),
    ) {
        Err(Rejected::Mac)
    } else {
        open_spec(keys.aead, packet.take(NONCE_LEN as int), sealed_part(packet))
    }
}

/// What `decrypt_simple` makes of a simple packet.
pub open spec fn decrypt_simple_spec(packet: Seq<u8>, key: Seq<u8>) -> Result<
    (Seq<u8>, Seq<u8>),
    Rejected,
> {
    if packet.len() < SIMPLE_MIN_LEN {
        Err(Rejected::Short)
    } else {
        open_spec(key, packet.take(NONCE_LEN as int), packet.skip(NONCE_LEN as int))
    }
}

/// Whether a result of decrypting is the one that a specification gives.
pub open spec fn agrees(
    r: Result<(UuidWrapper, Vec<u8>), Rejected>,
    spec: Result<(Seq<u8>, Seq<u8>), Rejected>,
) -> bool {
    match spec {
        Ok((id, payload)) => r matches Ok((got_id, got)) && got_id@ == id && got@ == payload,
        Err(why) => r matches Err(got) && got == why,
    }
}

/// The message to seal: identifier, payload length, payload.
fn build_inner(id: &UuidWrapper, payload: &[u8]) -> (inner: Vec<u8>)
    ensures
        inner@ == inner_bytes(id@, payload@),
{
    let mut inner: Vec<u8> = Vec::new();
    inner.extend_from_slice(id.as_bytes().as_slice());
    push_be_u64(&mut inner, payload.len() as u64);
    inner.extend_from_slice(payload);
    inner
}

/// Reads session and payload from a decrypted message.
pub fn read_inner(plain: &[u8]) -> (r: Result<(UuidWrapper, Vec<u8>), Rejected>)
    ensures
        agrees(r, parse_inner(plain@)),
{
    let total: usize = plain.len();
    if total < INNER_HEADER_LEN {
        return Err(Rejected::Length);
    }
    let length: u64 = read_be_u64(plain, UUID_LEN);
    if ((total - INNER_HEADER_LEN) as u64) < length {
        return Err(Rejected::Length);
    }
    let id = UuidWrapper::from_bytes(copy_array(plain, 0));
    proof {
        assert(id@ =~= plain@.take(UUID_LEN as int));
    }
    let payload = copy_range(plain, INNER_HEADER_LEN, INNER_HEADER_LEN + length as usize);
    Ok((id, payload))
}

/// Says what a packet holds once the cipher has opened it, or not.
pub fn read_opened(opened: Option<Vec<u8>>) -> (r: Result<(UuidWrapper, Vec<u8>), Rejected>)
    ensures
        match opened {
            Some(plain) => agrees(r, parse_inner(plain@)),
            None => r matches Err(why) && why == Rejected::Decryption,
        },
{
    match opened {
        Some(plain) => read_inner(plain.as_slice()),
        None => Err(Rejected::Decryption),
    }
}

/// An authenticated packet for a nonce, a tag and a sealed message: the four
/// parts in their order.
pub open spec fn packet_bytes(nonce: Seq<u8>, tag: Seq<u8>, sealed: Seq<u8>) -> Seq<u8>
    recommends
        sealed.len() <= u64::MAX,
{
    nonce + tag + be_u64(sealed.len() as u64) + sealed
}

/// Whether `packet` is an authenticated packet that carries `payload` for
/// the session `id` under `keys`: behind the header stands a sealed message
/// that fills the rest of the packet, the length field says so, the tag is
/// the tag of the sealed message under the authentication key, and the sealed
/// message opens under the encryption key and the packet's nonce to exactly
/// identifier, payload length and payload.
pub open spec fn is_packet_of(
    packet: Seq<u8>,
    id: Seq<u8>,
    payload: Seq<u8>,
    keys: SessionKeysView,
) -> bool {
    &&& packet.len() >= PACKET_HEADER_LEN
    &&& be_value(packet.subrange(NONCE_LEN + MAC_LEN, PACKET_HEADER_LEN as int)) == packet.len()
        - PACKET_HEADER_LEN
    &&& packet.subrange(NONCE_LEN as int, NONCE_LEN + MAC_LEN) == hmac_sha512(
        keys.mac,
        packet.skip(PACKET_HEADER_LEN as int),
    )
    &&& aead_opened(
        keys.aead,
        packet.take(NONCE_LEN as int),
        packet.skip(PACKET_HEADER_LEN as int),
    ) == Some(inner_bytes(id, payload))
}

/// Whether `packet` is a simple packet that carries `payload` for the
/// session `id` under `key`: behind the nonce stands a sealed message that
/// opens under the key and that nonce to exactly identifier, payload length
/// and payload.
pub open spec fn is_simple_packet_of(
    packet: Seq<u8>,
    id: Seq<u8>,
    payload: Seq<u8>,
    key: Seq<u8>,
) -> bool {
    &&& packet.len() >= NONCE_LEN
    &&& aead_opened(key, packet.take(NONCE_LEN as int), packet.skip(NONCE_LEN as int)) == Some(
        inner_bytes(id, payload),
    )
}

/// Lays an authenticated packet out round a sealed message: the nonce it
/// was sealed under, the tag over it under the authentication key, its
/// length, and the sealed message itself.
pub fn assemble(nonce: &[u8; 12], sealed: &[u8], mac_key: &[u8; 64]) -> (packet: Vec<u8>)
    ensures
        packet@ == packet_bytes(nonce@, hmac_sha512(mac_key@, sealed@), sealed@),
        packet@.len() == PACKET_HEADER_LEN + sealed@.len(),
        hmac_sha512(mac_key@, sealed@).len() == MAC_LEN,
{
    let tag = mac_sign(mac_key, sealed);
    let mut packet: Vec<u8> = Vec::new();
    packet.extend_from_slice(nonce.as_slice());
    packet.extend_from_slice(tag.as_slice());
    push_be_u64(&mut packet, sealed.len() as u64);
    packet.extend_from_slice(sealed);
    proof {
        lemma_be_round_trip(sealed.len() as u64);
        assert(packet@ =~= packet_bytes(nonce@, tag@, sealed@));
    }
    packet
}

/// Lays a simple packet out round a sealed message: the nonce it was sealed
/// under, and the sealed message itself.
pub fn assemble_simple(nonce: &[u8; 12], sealed: &[u8]) -> (packet: Vec<u8>)
    ensures
        packet@ == nonce@ + sealed@,
{
    let mut packet: Vec<u8> = Vec::new();
    packet.extend_from_slice(nonce.as_slice());
    packet.extend_from_slice(sealed);
    proof {
        assert(packet@ =~= nonce@ + sealed@);
    }
    packet
}

/// Encrypts a payload for a session into an authenticated packet, under a
/// fresh random nonce.
///
/// It fails, with `Error::Unspecified`, only where the cipher does. A packet
/// that it returns is laid out as `is_packet_of` says and is as long as that
/// makes it, and `decrypt` with the same keys gives back the session and the
/// payload.
pub fn encrypt(id: &UuidWrapper, payload: &[u8], keys: &SessionKeys) -> (r: Result<Vec<u8>, Error>)
    ensures
        r matches Ok(packet) ==> is_packet_of(packet@, id@, payload@, keys@),
        r matches Ok(packet) ==> packet@.len() == PACKET_HEADER_LEN + INNER_HEADER_LEN
            + payload@.len() + TAG_LEN,
        r matches Ok(packet) ==> decrypt_spec(packet@, keys@) == Ok::<(Seq<u8>, Seq<u8>), Rejected>(
            (id@, payload@),
        ),
        r matches Err(e) ==> e == Error::Unspecified,
{
    let inner = build_inner(id, payload);
    let (nonce, sealed) = match aead_seal(&keys.aead, inner.as_slice()) {
        Some(pair) => pair,
        None => {
            return Err(Error::Unspecified);
        },
    };
    let count: usize = payload.len();
    let sealed_count: usize = sealed.len();
    let packet = assemble(&nonce, sealed.as_slice(), &keys.mac);
    proof {
        id.lemma_len();
        lemma_be_round_trip(count as u64);
        assert(sealed@.len() == sealed_count);
        lemma_packet_bytes(nonce@, hmac_sha512(keys@.mac, sealed@), sealed@);
        lemma_packet_decrypts(packet@, id@, payload@, keys@);
    }
    Ok(packet)
}

/// Checks and decrypts an authenticated packet: session and payload, or the
/// first test that the packet failed.
pub fn decrypt(packet: &[u8], keys: &SessionKeys) -> (r: Result<(UuidWrapper, Vec<u8>), Rejected>)
    ensures
        agrees(r, decrypt_spec(packet@, keys@)),
        packet@.len() < PACKET_HEADER_LEN ==> r is Err,
{
    let total: usize = packet.len();
    if total < PACKET_HEADER_LEN {
        return Err(Rejected::Short);
    }
    let length: u64 = read_be_u64(packet, NONCE_LEN + MAC_LEN);
    if ((total - PACKET_HEADER_LEN) as u64) < length {
        return Err(Rejected::Truncated);
    }
    let sealed = slice_subrange(packet, PACKET_HEADER_LEN, PACKET_HEADER_LEN + length as usize);
    let tag = slice_subrange(packet, NONCE_LEN, NONCE_LEN + MAC_LEN);
    if !mac_verify(&keys.mac, sealed, tag) {
        return Err(Rejected::Mac);
    }
    let nonce: [u8; 12] = copy_array(packet, 0);
    proof {
        assert(nonce@ =~= packet@.take(NONCE_LEN as int));
    }
    read_opened(aead_open(&keys.aead, &nonce, sealed))
}

/// Encrypts a payload for a session into a simple packet, under a fresh
/// random nonce. It fails, with `Error::Unspecified`, only where the cipher
/// does. A packet that it returns is laid out as `is_simple_packet_of` says
/// and is as long as that makes it, and `decrypt_simple` with the same key
/// gives back session and payload.
pub fn encrypt_simple(id: &UuidWrapper, payload: &[u8], key: &[u8; 32]) -> (r: Result<
    Vec<u8>,
    Error,
>)
    ensures
        r matches Ok(packet) ==> is_simple_packet_of(packet@, id@, payload@, key@),
        r matches Ok(packet) ==> packet@.len() == NONCE_LEN + INNER_HEADER_LEN + payload@.len()
            + TAG_LEN,
        r matches Ok(packet) ==> decrypt_simple_spec(packet@, key@) == Ok::<
            (Seq<u8>, Seq<u8>),
            Rejected,
        >((id@, payload@)),
        r matches Err(e) ==> e == Error::Unspecified,
{
    let inner = build_inner(id, payload);
    let (nonce, sealed) = match aead_seal(key, inner.as_slice()) {
        Some(pair) => pair,
        None => {
            return Err(Error::Unspecified);
        },
    };
    let count: usize = payload.len();
    let packet = assemble_simple(&nonce, sealed.as_slice());
    proof {
        id.lemma_len();
        lemma_be_round_trip(count as u64);
        let p = packet@;
        assert(p.take(NONCE_LEN as int) =~= nonce@);
        assert(p.skip(NONCE_LEN as int) =~= sealed@);
        lemma_simple_packet_decrypts(p, id@, payload@, key@);
    }
    Ok(packet)
}

/// Decrypts a simple packet: session and payload, or the first test that
/// the packet failed.
pub fn decrypt_simple(packet: &[u8], key: &[u8; 32]) -> (r: Result<
    (UuidWrapper, Vec<u8>),
    Rejected,
>)
    ensures
        agrees(r, decrypt_simple_spec(packet@, key@)),
        packet@.len() < SIMPLE_MIN_LEN ==> r is Err,
{
    let total: usize = packet.len();
    if total < SIMPLE_MIN_LEN {
        return Err(Rejected::Short);
    }
    let nonce: [u8; 12] = copy_array(packet, 0);
    proof {
        assert(nonce@ =~= packet@.take(NONCE_LEN as int));
    }
    let sealed = slice_subrange(packet, NONCE_LEN, total);
    proof {
        assert(sealed@ =~= packet@.skip(NONCE_LEN as int));
    }
    read_opened(aead_open(key, &nonce, sealed))
}

impl EncryptedFrame {
    /// Parse an authenticated packet from the given byte source.
    ///
    /// A packet that is shorter than its header or than it announces is no
    /// packet yet: `Ok(None)`, and the cursor stays. A tag that does not
    /// match, or a seal that does not open, is `Error::DecryptionFailed`; a
    /// decrypted message with wrong lengths is `Error::Malformed`. Past an
    /// accepted packet the cursor stands behind its sealed message.
    pub fn parse(src: &mut Cursor, keys: &SessionKeys) -> (r: Result<Option<Self>, Error>)
        requires
            old(src).wf(),
        ensures
            final(src).wf(),
            final(src).data() == old(src).data(),
            match decrypt_spec(old(src).rest(), keys@) {
                Ok(held) => r matches Ok(Some(frame)) && frame@ == held && final(src).pos() == old(
                    src,
                ).pos() + PACKET_HEADER_LEN + sealed_part(old(src).rest()).len(),
                Err(why) => final(src).pos() == old(src).pos() && parse_reports(why, r),
            },
    {
        let rest = src.unread();
        match decrypt(rest, keys) {
            Ok((id, payload)) => {
                proof {
                    assert(decrypt_spec(rest@, keys@) is Ok);
                    assert(rest@.len() >= PACKET_HEADER_LEN);
                }
                let total: usize = rest.len();
                let length: u64 = read_be_u64(rest, NONCE_LEN + MAC_LEN);
                proof {
                    assert(length <= total - PACKET_HEADER_LEN);
                    assert(sealed_part(rest@).len() == length);
                }
                let _ = src.take(PACKET_HEADER_LEN + length as usize);
                Ok(Some(EncryptedFrame::Bytes((id, payload))))
            },
            Err(Rejected::Short) => Ok(None),
            Err(Rejected::Truncated) => Ok(None),
            Err(Rejected::Mac) => Err(Error::DecryptionFailed),
            Err(Rejected::Decryption) => Err(Error::DecryptionFailed),
            Err(Rejected::Length) => Err(Error::Malformed),
        }
    }
}

/// How `EncryptedFrame::parse` reports a rejected packet.
pub open spec fn parse_reports(why: Rejected, r: Result<Option<EncryptedFrame>, Error>) -> bool {
    match why {
        Rejected::Short | Rejected::Truncated => r matches Ok(None),
        Rejected::Mac | Rejected::Decryption => r matches Err(e) && e == Error::DecryptionFailed,
        Rejected::Length => r matches Err(e) && e == Error::Malformed,
    }
}

/// The parts of an authenticated packet stand where the layout says: the
/// nonce first, the tag behind it, then a length field that announces all
/// that follows, then the sealed message.
pub proof fn lemma_packet_bytes(nonce: Seq<u8>, tag: Seq<u8>, sealed: Seq<u8>)
    requires
        nonce.len() == NONCE_LEN,
        tag.len() == MAC_LEN,
        sealed.len() <= u64::MAX,
    ensures
        packet_bytes(nonce, tag, sealed).len() == PACKET_HEADER_LEN + sealed.len(),
        packet_bytes(nonce, tag, sealed).take(NONCE_LEN as int) == nonce,
        packet_bytes(nonce, tag, sealed).subrange(NONCE_LEN as int, NONCE_LEN + MAC_LEN) == tag,
        be_value(
            packet_bytes(nonce, tag, sealed).subrange(NONCE_LEN + MAC_LEN, PACKET_HEADER_LEN as int),
        ) == sealed.len(),
        packet_bytes(nonce, tag, sealed).skip(PACKET_HEADER_LEN as int) == sealed,
{
    let p = packet_bytes(nonce, tag, sealed);
    lemma_be_round_trip(sealed.len() as u64);
    assert(p.take(NONCE_LEN as int) =~= nonce);
    assert(p.subrange(NONCE_LEN as int, NONCE_LEN + MAC_LEN) =~= tag);
    assert(p.subrange(NONCE_LEN + MAC_LEN, PACKET_HEADER_LEN as int) =~= be_u64(
        sealed.len() as u64,
    ));
    assert(p.skip(PACKET_HEADER_LEN as int) =~= sealed);
}

/// An authenticated packet that carries a payload for a session is accepted
/// under the same keys, and what is read from it is that session and that
/// payload.
pub proof fn lemma_packet_decrypts(
    packet: Seq<u8>,
    id: Seq<u8>,
    payload: Seq<u8>,
    keys: SessionKeysView,
)
    requires
        id.len() == UUID_LEN,
        payload.len() <= u64::MAX,
        is_packet_of(packet, id, payload, keys),
    ensures
        decrypt_spec(packet, keys) == Ok::<(Seq<u8>, Seq<u8>), Rejected>((id, payload)),
{
    assert(sealed_part(packet) =~= packet.skip(PACKET_HEADER_LEN as int));
    lemma_parse_inner(id, payload);
}

/// A simple packet that carries a payload for a session is accepted under
/// the same key, and what is read from it is that session and that payload.
pub proof fn lemma_simple_packet_decrypts(
    packet: Seq<u8>,
    id: Seq<u8>,
    payload: Seq<u8>,
    key: Seq<u8>,
)
    requires
        id.len() == UUID_LEN,
        payload.len() <= u64::MAX,
        packet.len() >= SIMPLE_MIN_LEN,
        is_simple_packet_of(packet, id, payload, key),
    ensures
        decrypt_simple_spec(packet, key) == Ok::<(Seq<u8>, Seq<u8>), Rejected>((id, payload)),
{
    lemma_parse_inner(id, payload);
}

/// A message built for a session and a payload is read back as them.
pub proof fn lemma_parse_inner(id: Seq<u8>, payload: Seq<u8>)
    requires
        id.len() == UUID_LEN,
        payload.len() <= u64::MAX,
    ensures
        parse_inner(inner_bytes(id, payload)) == Ok::<(Seq<u8>, Seq<u8>), Rejected>((id, payload)),
{
    let plain = inner_bytes(id, payload);
    lemma_be_round_trip(payload.len() as u64);
    assert(plain.subrange(UUID_LEN as int, INNER_HEADER_LEN as int) =~= be_u64(
        payload.len() as u64,
    ));
    assert(plain.take(UUID_LEN as int) =~= id);
    assert(plain.subrange(INNER_HEADER_LEN as int, INNER_HEADER_LEN + payload.len()) =~= payload);
}

/// A packet shorter than its header is rejected, whatever it holds and
/// whatever the keys.
pub proof fn lemma_short_packet_rejected(packet: Seq<u8>, keys: SessionKeysView)
    requires
        packet.len() < PACKET_HEADER_LEN,
    ensures
        decrypt_spec(packet, keys) == Err::<(Seq<u8>, Seq<u8>), Rejected>(Rejected::Short),
{
}

/// A packet whose tag is not the tag of its sealed message is rejected, and
/// nothing of it is decrypted.
pub proof fn lemma_bad_tag_rejected(packet: Seq<u8>, keys: SessionKeysView)
    requires
        packet.len() >= PACKET_HEADER_LEN,
        packet.subrange(NONCE_LEN as int, NONCE_LEN + MAC_LEN) != hmac_sha512(
            keys.mac,
            sealed_part(packet),
        ),
    ensures
        decrypt_spec(packet, keys) is Err,
        decrypt_spec(packet, keys) != Err::<(Seq<u8>, Seq<u8>), Rejected>(Rejected::Decryption),
        decrypt_spec(packet, keys) != Err::<(Seq<u8>, Seq<u8>), Rejected>(Rejected::Length),
{
}

/// A decrypted message that announces a longer payload than it holds is
/// rejected.
pub proof fn lemma_overlong_inner_rejected(plain: Seq<u8>)
    requires
        plain.len() >= INNER_HEADER_LEN,
        be_value(plain.subrange(UUID_LEN as int, INNER_HEADER_LEN as int)) > plain.len()
            - INNER_HEADER_LEN,
    ensures
        parse_inner(plain) == Err::<(Seq<u8>, Seq<u8>), Rejected>(Rejected::Length),
{
}

/// Every packet is either accepted or rejected with a cause: an accepted one
/// passed every test.
pub proof fn lemma_accepted_passed_all(packet: Seq<u8>, keys: SessionKeysView)
    requires
        decrypt_spec(packet, keys) is Ok,
    ensures
        packet.len() >= PACKET_HEADER_LEN,
        packet.subrange(NONCE_LEN as int, NONCE_LEN + MAC_LEN) == hmac_sha512(
            keys.mac,
            sealed_part(packet),
        ),
        aead_opened(keys.aead, packet.take(NONCE_LEN as int), sealed_part(packet)) is Some,
{
}

} // verus!
