use libmoshpit::encframe::encrypt;
use libmoshpit::udp::{id_key, same_id};
use libmoshpit::{Promotion, SessionKeys, SessionTable, UdpClient, UdpState, UuidWrapper};

fn keys(seed: u8) -> SessionKeys {
    SessionKeys {
        aead: [seed; 32],
        mac: [seed.wrapping_add(1); 64],
    }
}

fn id(seed: u8) -> UuidWrapper {
    UuidWrapper::from_bytes([seed; 16])
}

#[test]
fn promotion_waits_for_every_piece() {
    let uuid = uuid::Uuid::from_bytes([9u8; 16]);
    let pieces = || {
        vec![
            UdpState::Key([1u8; 32]),
            UdpState::HmacKey([2u8; 64]),
            UdpState::Uuid(uuid),
        ]
    };
    let orders: [[usize; 3]; 6] = [
        [0, 1, 2],
        [0, 2, 1],
        [1, 0, 2],
        [1, 2, 0],
        [2, 0, 1],
        [2, 1, 0],
    ];
    for order in orders {
        let mut promotion = Promotion::new();
        assert!(promotion.ready().is_none());
        let mut all = pieces().into_iter().map(Some).collect::<Vec<_>>();
        for (count, at) in order.iter().enumerate() {
            promotion.apply(all[*at].take().unwrap());
            if count < 2 {
                assert!(promotion.ready().is_none());
            }
        }
        let client = promotion.ready().unwrap();
        assert_eq!(client.uuid(), &id(9));
        assert_eq!(client.uuid().as_uuid(), uuid);
        assert_eq!(client.keys().aead, [1u8; 32]);
        assert_eq!(client.keys().mac, [2u8; 64]);
    }
}

#[test]
fn promotion_keeps_the_latest_piece_of_a_kind() {
    let mut promotion = Promotion::new();
    promotion.apply(UdpState::Key([1u8; 32]));
    promotion.apply(UdpState::Key([3u8; 32]));
    promotion.apply(UdpState::HmacKey([2u8; 64]));
    promotion.apply(UdpState::Uuid(uuid::Uuid::from_bytes([4u8; 16])));
    assert_eq!(
        promotion.ready(),
        Some(UdpClient::new(
            id(4),
            SessionKeys {
                aead: [3u8; 32],
                mac: [2u8; 64]
            }
        ))
    );
}

#[test]
fn session_sends_and_receives() {
    let session = UdpClient::new(id(1), keys(1));
    let packet = session.encrypt(b"ping").unwrap();
    assert_eq!(packet.len(), 84 + 24 + 4 + 16);
    assert_eq!(session.receive(&packet), Some(b"ping".to_vec()));
    let mut bad = packet.clone();
    bad[90] ^= 1;
    assert_eq!(session.receive(&bad), None);
    assert_eq!(session.receive(&packet[..40]), None);
    assert_eq!(session.receive(&[]), None);
}

#[test]
fn session_drops_what_belongs_to_another() {
    let session = UdpClient::new(id(1), keys(1));
    let same_keys_other_id = UdpClient::new(id(2), keys(1));
    let other_keys = UdpClient::new(id(1), keys(5));
    let packet = session.encrypt(b"ping").unwrap();
    assert_eq!(same_keys_other_id.receive(&packet), None);
    assert_eq!(other_keys.receive(&packet), None);
}

#[test]
fn same_id_compares_every_byte() {
    assert!(same_id(&id(1), &id(1)));
    assert!(!same_id(&id(1), &id(2)));
    let mut bytes = [1u8; 16];
    bytes[15] = 2;
    assert!(!same_id(&id(1), &UuidWrapper::from_bytes(bytes)));
}

#[test]
fn table_holds_each_identifier_once() {
    let mut table = SessionTable::new();
    assert_eq!(table.len(), 0);
    assert!(!table.contains(&id(1)));
    assert!(table.insert(UdpClient::new(id(1), keys(1))));
    assert!(table.insert(UdpClient::new(id(2), keys(2))));
    assert!(!table.insert(UdpClient::new(id(1), keys(3))));
    assert_eq!(table.len(), 2);
    assert!(table.contains(&id(1)));
    assert!(table.contains(&id(2)));
    assert!(!table.contains(&id(3)));
}

#[test]
fn table_hands_a_packet_to_its_session() {
    let mut table = SessionTable::new();
    for seed in 1..6u8 {
        assert!(table.insert(UdpClient::new(id(seed), keys(seed))));
    }
    for seed in 1..6u8 {
        let packet = encrypt(&id(seed), &[seed; 3], &keys(seed)).unwrap();
        assert_eq!(table.dispatch(&packet), Some((id(seed), vec![seed; 3])));
    }
    let stranger = encrypt(&id(9), b"ping", &keys(9)).unwrap();
    assert_eq!(table.dispatch(&stranger), None);
    let forged = encrypt(&id(2), b"ping", &keys(1)).unwrap();
    assert_eq!(table.dispatch(&forged), None);
    assert_eq!(table.dispatch(&[0u8; 10]), None);
    assert_eq!(SessionTable::new().dispatch(&stranger), None);
}

#[test]
fn table_looks_keys_up_by_identifier() {
    let mut table = SessionTable::new();
    assert_eq!(table.lookup(&id(1)), None);
    for seed in 1..6u8 {
        assert!(table.insert(UdpClient::new(id(seed), keys(seed))));
    }
    for seed in 1..6u8 {
        assert_eq!(table.lookup(&id(seed)), Some(keys(seed)));
    }
    assert_eq!(table.lookup(&id(9)), None);
    assert!(!table.insert(UdpClient::new(id(3), keys(9))));
    assert_eq!(table.lookup(&id(3)), Some(keys(3)));
    assert_eq!(table.len(), 5);
}

#[test]
fn table_hands_out_in_the_order_of_arrival() {
    let mut table = SessionTable::new();
    for seed in [9u8, 2, 7, 4] {
        assert!(table.insert(UdpClient::new(id(seed), keys(seed))));
    }
    for seed in [4u8, 7, 2, 9] {
        let packet = encrypt(&id(seed), &[seed], &keys(seed)).unwrap();
        assert_eq!(table.dispatch(&packet), Some((id(seed), vec![seed])));
    }
}

#[test]
fn id_key_reads_the_bytes_most_significant_first() {
    assert_eq!(id_key(&UuidWrapper::from_bytes([0u8; 16])), 0);
    assert_eq!(id_key(&UuidWrapper::from_bytes([0xffu8; 16])), u128::MAX);
    let mut bytes = [0u8; 16];
    bytes[15] = 1;
    assert_eq!(id_key(&UuidWrapper::from_bytes(bytes)), 1);
    bytes[0] = 0x80;
    assert_eq!(id_key(&UuidWrapper::from_bytes(bytes)), (1u128 << 127) + 1);
    let bytes: [u8; 16] = [
        0x93, 0x6d, 0xa0, 0x1f, 0x9a, 0xbd, 0x4d, 0x9d, 0x80, 0xc7, 0x02, 0xaf, 0x85, 0xc8, 0x22,
        0xa8,
    ];
    assert_eq!(id_key(&UuidWrapper::from_bytes(bytes)), u128::from_be_bytes(bytes));
    assert_eq!(
        id_key(&UuidWrapper::from_bytes(bytes)),
        uuid::Uuid::from_bytes(bytes).as_u128()
    );
}
