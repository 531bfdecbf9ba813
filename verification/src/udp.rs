//! Promotion of a session to the datagram channel, and the sessions that a
//! relay serves on one socket.
//!
//! The handshake hands over the pieces of a session one by one. A session is
//! promoted only when all of them have arrived: the encryption key, the
//! authentication key and the identifier.

use std::collections::HashMap;
use vstd::prelude::*;

use crate::crypto::{SessionKeys, SessionKeysView, TAG_LEN};
use crate::encframe::{
    decrypt, decrypt_spec, encrypt, is_packet_of, INNER_HEADER_LEN, PACKET_HEADER_LEN,
};
use crate::error::Error;
use crate::uuid::{uuid_octets, UuidWrapper, UUID_LEN};
use crate::wire::{
    be_value, lemma_be_value_injective, lemma_pow256_fifteen, lemma_pow256_monotonic, pow256,
};

verus! {

broadcast use vstd::std_specs::hash::group_hash_axioms;

/// State needed for UDP communication
pub enum UdpState {
    /// Key material for encrypting/decrypting UDP packets
    Key([u8; 32]),
    /// HMAC key for signing UDP packets
    HmacKey([u8; 64]),
    /// Client UUID
    Uuid(uuid::Uuid),
}

/// The pieces of a session that have arrived so far.
pub struct Promotion {
    key: Option<[u8; 32]>,
    mac: Option<[u8; 64]>,
    id: Option<UuidWrapper>,
}

/// The pieces of a session as mathematical values.
pub struct PromotionView {
    pub key: Option<Seq<u8>>,
    pub mac: Option<Seq<u8>>,
    pub id: Option<Seq<u8>>,
}

impl PromotionView {
    /// The session that the pieces make, once none is missing.
    pub open spec fn ready(self) -> Option<(Seq<u8>, SessionKeysView)> {
        match (self.key, self.mac, self.id) {
            (Some(aead), Some(mac), Some(id)) => Some((id, SessionKeysView { aead, mac })),
            _ => None,
        }
    }
}

impl View for Promotion {
    type V = PromotionView;

    closed spec fn view(&self) -> PromotionView {
        PromotionView {
            key: match self.key {
                Some(key) => Some(key@),
                None => None,
            },
            mac: match self.mac {
                Some(mac) => Some(mac@),
                None => None,
            },
            id: match self.id {
                Some(id) => Some(id@),
                None => None,
            },
        }
    }
}

/// What one piece does to the pieces held: it takes the place of its kind,
/// and the other kinds stay.
pub open spec fn with_piece(held: PromotionView, piece: UdpState) -> PromotionView {
    match piece {
        UdpState::Key(key) => PromotionView { key: Some(key@), ..held },
        UdpState::HmacKey(mac) => PromotionView { mac: Some(mac@), ..held },
        UdpState::Uuid(id) => PromotionView { id: Some(uuid_octets(id)), ..held },
    }
}

impl Promotion {
    /// No piece has arrived.
    pub fn new() -> (r: Self)
        ensures
            r@ == (PromotionView { key: None, mac: None, id: None }),
    {
        Promotion { key: None, mac: None, id: None }
    }

    /// Takes a piece that arrived.
    pub fn apply(&mut self, piece: UdpState)
        ensures
            final(self)@ == with_piece(old(self)@, piece),
    {
        match piece {
            UdpState::Key(key) => {
                self.key = Some(key);
            },
            UdpState::HmacKey(mac) => {
                self.mac = Some(mac);
            },
            UdpState::Uuid(id) => {
                self.id = Some(UuidWrapper::new(id));
            },
        }
    }

    /// The session, exactly when all of its pieces have arrived.
    pub fn ready(&self) -> (r: Option<UdpClient>)
        ensures
            match self@.ready() {
                Some((id, keys)) => r matches Some(client) && client@ == (id, keys),
                None => r is None,
            },
    {
        match (self.key, self.mac, self.id) {
            (Some(aead), Some(mac), Some(id)) => Some(
                UdpClient { uuid: id, keys: SessionKeys { aead, mac } },
            ),
            _ => None,
        }
    }
}

/// UDP client data: a promoted session.
#[derive(Clone, Copy, Debug, PartialEq, Eq)]
pub struct UdpClient {
    /// Client UUID
    uuid: UuidWrapper,
    /// Keys for encrypting/decrypting and authenticating UDP packets
    keys: SessionKeys,
}

impl View for UdpClient {
    type V = (Seq<u8>, SessionKeysView);

    closed spec fn view(&self) -> (Seq<u8>, SessionKeysView) {
        (self.uuid@, self.keys@)
    }
}

impl UdpClient {
    /// A session with the identifier and keys given.
    pub fn new(uuid: UuidWrapper, keys: SessionKeys) -> (r: Self)
        ensures
            r@ == (uuid@, keys@),
    {
        UdpClient { uuid, keys }
    }

    /// Client UUID
    pub fn uuid(&self) -> (r: &UuidWrapper)
        ensures
            r@ == self@.0,
    {
        &self.uuid
    }

    /// Keys of the session
    pub fn keys(&self) -> (r: &SessionKeys)
        ensures
            r@ == self@.1,
    {
        &self.keys
    }

    /// Encrypts a payload for this session into an authenticated packet. It
    /// fails, with `Error::Unspecified`, only where the cipher does; a
    /// packet it returns is laid out as `is_packet_of` says and is accepted
    /// by `receive` of the same session.
    pub fn encrypt(&self, payload: &[u8]) -> (r: Result<Vec<u8>, Error>)
        ensures
            r matches Ok(packet) ==> is_packet_of(packet@, self@.0, payload@, self@.1),
            r matches Ok(packet) ==> packet@.len() == PACKET_HEADER_LEN + INNER_HEADER_LEN
                + payload@.len() + TAG_LEN,
            r matches Ok(packet) ==> received(self@, packet@) == Some(payload@),
            r matches Err(e) ==> e == Error::Unspecified,
    {
        encrypt(&self.uuid, payload, &self.keys)
    }

    /// The payload of a packet, where the packet is authentic under this
    /// session's keys and names this session. Anything else is dropped.
    pub fn receive(&self, packet: &[u8]) -> (r: Option<Vec<u8>>)
        ensures
            match received(self@, packet@) {
                Some(payload) => r matches Some(got) && got@ == payload,
                None => r is None,
            },
    {
        match decrypt(packet, &self.keys) {
            Ok((id, payload)) => {
                if same_id(&id, &self.uuid) {
                    Some(payload)
                } else {
                    None
                }
            },
            Err(_) => None,
        }
    }
}

/// What a session makes of a packet: its payload where the packet passes
/// every test under the session's keys and holds the session's identifier.
pub open spec fn received(session: (Seq<u8>, SessionKeysView), packet: Seq<u8>) -> Option<Seq<u8>> {
    match decrypt_spec(packet, session.1) {
        Ok((id, payload)) => if id == session.0 {
            Some(payload)
        } else {
            None
        },
        Err(_) => None,
    }
}

/// Whether two identifiers are the same.
pub fn same_id(a: &UuidWrapper, b: &UuidWrapper) -> (same: bool)
    ensures
        same == (a@ == b@),
{
    let left = a.as_bytes();
    let right = b.as_bytes();
    let mut i: usize = 0;
    while i < 16
        invariant
            i <= 16,
            left@ == a@,
            right@ == b@,
            forall|j: int| 0 <= j < i ==> left@[j] == right@[j],
        decreases 16 - i,
    {
        if left[i] != right[i] {
            return false;
        }
        i = i + 1;
    }
    proof {
        assert(left@ =~= right@);
    }
    true
}

/// The number that the sixteen bytes of an identifier read as, most
/// significant byte first: the key under which a session is held.
pub fn id_key(id: &UuidWrapper) -> (key: u128)
    ensures
        key == be_value(id@),
{
    let bytes = id.as_bytes();
    let mut key: u128 = 0;
    let mut i: usize = 0;
    while i < 16
        invariant
            i <= 16,
            bytes@ == id@,
            key == be_value(bytes@.take(i as int)),
            key < pow256(i as nat),
        decreases 16 - i,
    {
        proof {
            assert(bytes@.take(i + 1).drop_last() =~= bytes@.take(i as int));
            lemma_pow256_monotonic(i as nat, 15);
            lemma_pow256_fifteen();
        }
        key = key * 256 + bytes[i] as u128;
        i = i + 1;
    }
    proof {
        assert(bytes@.take(16) =~= bytes@);
    }
    key
}

/// The sessions that a relay serves, each held under the number of its
/// identifier, and the order in which they came. No identifier occurs twice.
pub struct SessionTable {
    sessions: HashMap<u128, UdpClient>,
    order: Vec<u128>,
}

impl View for SessionTable {
    type V = Seq<(Seq<u8>, SessionKeysView)>;

    closed spec fn view(&self) -> Seq<(Seq<u8>, SessionKeysView)> {
        Seq::new(self.order@.len(), |i: int| self.sessions@[self.order@[i]]@)
    }
}

/// Whether no identifier occurs twice among the sessions.
pub open spec fn distinct_ids(sessions: Seq<(Seq<u8>, SessionKeysView)>) -> bool {
    forall|i: int, j: int|
        0 <= i < j < sessions.len() ==> (#[trigger] sessions[i]).0 != (#[trigger] sessions[j]).0
}

/// The first session that accepts a packet: its place and the payload.
pub open spec fn first_accepting(
    sessions: Seq<(Seq<u8>, SessionKeysView)>,
    packet: Seq<u8>,
    from: int,
) -> Option<(int, Seq<u8>)>
    decreases sessions.len() - from,
{
    if from < 0 || from >= sessions.len() {
        None
    } else {
        match received(sessions[from], packet) {
            Some(payload) => Some((from, payload)),
            None => first_accepting(sessions, packet, from + 1),
        }
    }
}

impl SessionTable {
    /// The invariant of the table: every session is held under the number
    /// of its own identifier, the order names exactly the sessions held, and
    /// names none twice.
    pub closed spec fn wf(&self) -> bool {
        &&& forall|i: int|
            0 <= i < self.order@.len() ==> self.sessions@.contains_key(#[trigger] self.order@[i])
                && be_value(self.sessions@[self.order@[i]]@.0) == self.order@[i]
                && self.sessions@[self.order@[i]]@.0.len() == UUID_LEN
        &&& forall|k: u128|
            self.sessions@.contains_key(k) ==> exists|i: int|
                0 <= i < self.order@.len() && #[trigger] self.order@[i] == k
        &&& forall|i: int, j: int|
            0 <= i < j < self.order@.len() ==> #[trigger] self.order@[i] != #[trigger] self.order@[j]
    }

    /// In a table that meets its invariant no identifier occurs twice.
    pub proof fn lemma_distinct(&self)
        requires
            self.wf(),
        ensures
            distinct_ids(self@),
    {
        assert forall|i: int, j: int| 0 <= i < j < self@.len() implies (#[trigger] self@[i]).0 != (
        #[trigger] self@[j]).0 by {
            assert(be_value(self@[i].0) == self.order@[i]);
            assert(be_value(self@[j].0) == self.order@[j]);
        }
    }

    /// A table without sessions.
    pub fn new() -> (r: Self)
        ensures
            r.wf(),
            r@.len() == 0,
    {
        SessionTable { sessions: HashMap::new(), order: Vec::new() }
    }

    /// The number of sessions.
    pub fn len(&self) -> (n: usize)
        ensures
            n == self@.len(),
    {
        self.order.len()
    }

    /// Whether a session with this identifier is in the table.
    pub fn contains(&self, id: &UuidWrapper) -> (found: bool)
        requires
            self.wf(),
        ensures
            found == exists|i: int| 0 <= i < self@.len() && (#[trigger] self@[i]).0 == id@,
    {
        let key = id_key(id);
        let found = self.sessions.contains_key(&key);
        proof {
            id.lemma_len();
            if found {
                let i = choose|i: int| 0 <= i < self.order@.len() && #[trigger] self.order@[i] == key;
                lemma_be_value_injective(self@[i].0, id@);
            } else {
                assert forall|i: int| 0 <= i < self@.len() implies (#[trigger] self@[i]).0 != id@ by {
                    assert(self.sessions@.contains_key(self.order@[i]));
                }
            }
        }
        found
    }

    /// The keys of the session with this identifier, if the table holds one.
    pub fn lookup(&self, id: &UuidWrapper) -> (r: Option<SessionKeys>)
        requires
            self.wf(),
        ensures
            match r {
                Some(keys) => exists|i: int|
                    0 <= i < self@.len() && #[trigger] self@[i] == (id@, keys@),
                None => forall|i: int| 0 <= i < self@.len() ==> (#[trigger] self@[i]).0 != id@,
            },
    {
        let key = id_key(id);
        proof {
            id.lemma_len();
        }
        match self.sessions.get(&key) {
            Some(session) => {
                proof {
                    let i = choose|i: int|
                        0 <= i < self.order@.len() && #[trigger] self.order@[i] == key;
                    lemma_be_value_injective(self@[i].0, id@);
                    assert(self@[i] == (id@, session.keys@));
                }
                Some(*session.keys())
            },
            None => {
                proof {
                    assert forall|i: int| 0 <= i < self@.len() implies (#[trigger] self@[i]).0
                        != id@ by {
                        assert(self.sessions@.contains_key(self.order@[i]));
                    }
                }
                None
            },
        }
    }

    /// Adds a session. A session whose identifier is already in the table is
    /// not added, and the table stays as it is.
    pub fn insert(&mut self, session: UdpClient) -> (added: bool)
        requires
            old(self).wf(),
        ensures
            final(self).wf(),
            added == !(exists|i: int|
                0 <= i < old(self)@.len() && (#[trigger] old(self)@[i]).0 == session@.0),
            added ==> final(self)@ == old(self)@.push(session@),
            !added ==> final(self)@ == old(self)@,
    {
        if self.contains(session.uuid()) {
            false
        } else {
            let key = id_key(session.uuid());
            proof {
                session.uuid.lemma_len();
                assert(!self.sessions@.contains_key(key)) by {
                    if self.sessions@.contains_key(key) {
                        let i = choose|i: int|
                            0 <= i < self.order@.len() && #[trigger] self.order@[i] == key;
                        lemma_be_value_injective(self@[i].0, session@.0);
                    }
                }
            }
            let _ = self.sessions.insert(key, session);
            self.order.push(key);
            proof {
                let n = old(self).order@.len() as int;
                assert(self.order@[n] == key);
                assert forall|i: int| 0 <= i < self.order@.len() implies self.sessions@.contains_key(
                    #[trigger] self.order@[i],
                ) && be_value(self.sessions@[self.order@[i]]@.0) == self.order@[i]
                    && self.sessions@[self.order@[i]]@.0.len() == UUID_LEN by {
                    if i < n {
                        assert(self.order@[i] == old(self).order@[i]);
                    }
                }
                assert forall|k: u128| self.sessions@.contains_key(k) implies exists|i: int|
                    0 <= i < self.order@.len() && #[trigger] self.order@[i] == k by {
                    if k == key {
                        assert(self.order@[n] == k);
                    } else {
                        let i = choose|i: int|
                            0 <= i < old(self).order@.len() && #[trigger] old(self).order@[i] == k;
                        assert(self.order@[i] == k);
                    }
                }
                assert forall|i: int, j: int| 0 <= i < j < self.order@.len() implies #[trigger]
                self.order@[i] != #[trigger] self.order@[j] by {
                    assert(self.order@[i] == old(self).order@[i]);
                    if j < n {
                        assert(self.order@[j] == old(self).order@[j]);
                    }
                }
                assert forall|i: int| 0 <= i < n implies #[trigger] self@[i] == old(self)@[i] by {
                    assert(self.order@[i] == old(self).order@[i]);
                }
                assert(self@ =~= old(self)@.push(session@));
            }
            true
        }
    }

    /// Hands a packet to the session it belongs to: the first session, in
    /// the order in which they came, under whose keys the packet is authentic
    /// and whose identifier it holds. The result is that session's identifier
    /// and the payload; a packet that no session accepts is dropped.
    pub fn dispatch(&self, packet: &[u8]) -> (r: Option<(UuidWrapper, Vec<u8>)>)
        requires
            self.wf(),
        ensures
            match first_accepting(self@, packet@, 0) {
                Some((at, payload)) => r matches Some((id, got)) && id@ == self@[at].0 && got@
                    == payload,
                None => r is None,
            },
    {
        let mut i: usize = 0;
        while i < self.order.len()
            invariant
                self.wf(),
                i <= self.order@.len(),
                self@.len() == self.order@.len(),
                first_accepting(self@, packet@, 0) == first_accepting(self@, packet@, i as int),
            decreases self.order@.len() - i,
        {
            let key: u128 = self.order[i];
            proof {
                assert(self.sessions@.contains_key(self.order@[i as int]));
                assert(self@[i as int] == self.sessions@[key]@);
            }
            match self.sessions.get(&key) {
                Some(session) => {
                    match session.receive(packet) {
                        Some(payload) => {
                            return Some((*session.uuid(), payload));
                        },
                        None => {},
                    }
                },
                None => {
                    proof {
                        assert(false);
                    }
                },
            }
            i = i + 1;
        }
        None
    }
}

/// A packet that a session sent is handed to that session by a table that
/// holds it, unless an earlier session of the table accepts it too; and what
/// is handed over is what was sent.
pub proof fn lemma_dispatch_finds(
    sessions: Seq<(Seq<u8>, SessionKeysView)>,
    packet: Seq<u8>,
    at: int,
    from: int,
)
    requires
        0 <= from <= at < sessions.len(),
        received(sessions[at], packet) is Some,
        forall|i: int| from <= i < at ==> received(#[trigger] sessions[i], packet) is None,
    ensures
        first_accepting(sessions, packet, from) == Some((at, received(sessions[at], packet)->0)),
    decreases at - from,
{
    if from < at {
        lemma_dispatch_finds(sessions, packet, at, from + 1);
    }
}

} // verus!
