use libmoshpit::wire::USIZE_LENGTH;
use libmoshpit::{get_bytes, get_u8, get_usize, Cursor, Decoded, Error, Frame, UuidWrapper};

const TEST_USIZE: usize = 12;

fn validate_get_u8(cursor: &mut Cursor) {
    let flag = get_u8(cursor);
    assert!(flag.is_some());
    let flag = flag.unwrap();
    assert_eq!(flag, 0);
    assert_eq!(cursor.position(), 1);
}

fn validate_get_usize(cursor: &mut Cursor, expected: usize) {
    let line = get_usize(cursor).unwrap();
    assert!(line.is_some());
    let line = line.unwrap();
    let value = usize::from_be_bytes(line.try_into().unwrap());
    assert_eq!(value, expected);
    assert_eq!(cursor.position(), u64::try_from(USIZE_LENGTH + 1).unwrap());
}

fn validate_get_bytes(cursor: &mut Cursor, expected: &[u8]) {
    let bytes = get_bytes(cursor, expected.len()).unwrap();
    assert!(bytes.is_some());
    let bytes = bytes.unwrap();
    assert_eq!(bytes, expected);
    assert_eq!(
        cursor.position(),
        u64::try_from(USIZE_LENGTH + 1 + expected.len()).unwrap()
    );
}

enum Completness {
    Complete,
    Incomplete,
}

enum DataKind {
    U8,
    Usize,
    Bytes,
}

fn test_data(kind: DataKind, completeness: Completness) -> (Vec<u8>, usize, Vec<u8>) {
    match (kind, completeness) {
        (DataKind::U8, Completness::Complete) => (vec![0u8], 0, vec![]),
        (DataKind::U8, Completness::Incomplete) => (vec![], 0, vec![]),
        (DataKind::Usize, Completness::Complete) => {
            let val = TEST_USIZE;
            let data = val.to_be_bytes();
            ([&[0], data.as_slice()].concat(), val, vec![])
        }
        (DataKind::Usize, Completness::Incomplete) => {
            let val = TEST_USIZE;
            let data = val.to_be_bytes();
            ([&[0], &data[..4]].concat(), val, vec![])
        }
        (DataKind::Bytes, Completness::Complete) => {
            let data = b"hello";
            let length = data.len();
            let length_bytes = length.to_be_bytes();
            (
                [&[0], length_bytes.as_slice(), data.as_slice()].concat(),
                length,
                data.to_vec(),
            )
        }
        (DataKind::Bytes, Completness::Incomplete) => {
            let data = b"hello";
            let length = data.len() + 5; // Intentionally incorrect length
            let length_bytes = length.to_be_bytes();
            (
                [&[0], length_bytes.as_slice(), data.as_slice()].concat(),
                length,
                data.to_vec(),
            )
        }
    }
}

#[test]
fn frame_test_get_u8() {
    let (all_data, _, _) = test_data(DataKind::U8, Completness::Complete);
    let mut cursor = Cursor::new(&all_data[..]);
    validate_get_u8(&mut cursor);
}

#[test]
fn frame_test_get_u8_incomplete() {
    let (all_data, _, _) = test_data(DataKind::U8, Completness::Incomplete);
    let mut cursor = Cursor::new(&all_data[..]);
    assert!(get_u8(&mut cursor).is_none());
}

#[test]
fn frame_test_get_usize() {
    let (all_data, expected_usize, _) = test_data(DataKind::Usize, Completness::Complete);
    let mut cursor = Cursor::new(&all_data[..]);
    validate_get_u8(&mut cursor);
    validate_get_usize(&mut cursor, expected_usize);
}

#[test]
fn frame_test_get_usize_incomplete() {
    let (all_data, _, _) = test_data(DataKind::Usize, Completness::Incomplete);
    let mut cursor = Cursor::new(&all_data[..]);
    validate_get_u8(&mut cursor);
    let res = get_usize(&mut cursor);
    assert!(res.is_ok());
    let maybe_usize = res.unwrap();
    assert!(maybe_usize.is_none());
}

#[test]
fn frame_test_get_bytes() {
    let (all_data, expected_usize, expected_bytes) =
        test_data(DataKind::Bytes, Completness::Complete);
    let mut cursor = Cursor::new(&all_data[..]);
    validate_get_u8(&mut cursor);
    validate_get_usize(&mut cursor, expected_usize);
    validate_get_bytes(&mut cursor, &expected_bytes);
}

#[test]
fn frame_test_get_bytes_incomplete() {
    let (all_data, expected_usize, _) = test_data(DataKind::Bytes, Completness::Incomplete);
    let mut cursor = Cursor::new(&all_data[..]);
    validate_get_u8(&mut cursor);
    validate_get_usize(&mut cursor, expected_usize);
    let res = get_bytes(&mut cursor, expected_usize);
    assert!(res.is_ok());
    let maybe_bytes = res.unwrap();
    assert!(maybe_bytes.is_none());
}

#[test]
fn frame_test_parse() {
    let data = b"hello world".to_vec();
    let frame = Frame::Initialize(data.clone());
    let encoded_frame =
        bincode::encode_to_vec((0u32, data.clone()), bincode::config::standard()).unwrap();

    let length = encoded_frame.len();
    let length_bytes = length.to_be_bytes();

    let mut all_data = vec![0u8];
    all_data.extend_from_slice(&length_bytes);
    all_data.extend_from_slice(&encoded_frame);

    let mut cursor = Cursor::new(&all_data[..]);
    let parsed_frame = Frame::parse(&mut cursor).unwrap();
    assert!(parsed_frame.is_some());
    let parsed_frame = parsed_frame.unwrap();
    assert_eq!(parsed_frame, frame);
}

#[test]
fn frame_test_parse_incomplete() {
    let all_data = [200u8];
    let mut cursor = Cursor::new(&all_data[..]);
    let result = Frame::parse(&mut cursor);
    assert!(result.is_ok());
    let maybe_frame = result.unwrap();
    assert!(maybe_frame.is_none());
}

#[test]
fn frame_test_parse_lone_tag() {
    let all_data = [1u8];
    let mut cursor = Cursor::new(&all_data[..]);
    let result = Frame::parse(&mut cursor);
    assert!(result.is_ok());
    let maybe_frame = result.unwrap();
    assert!(maybe_frame.is_none());
}

#[test]
fn frame_test_parse_error() {
    let all_data = [];
    let mut cursor = Cursor::new(&all_data[..]);
    let result = Frame::parse(&mut cursor);
    assert!(result.is_ok());
    let maybe_frame = result.unwrap();
    assert!(maybe_frame.is_none());
}

#[test]
fn test_initialize() {
    let data = b"hello world".to_vec();
    let frame_bytes = Frame::initialize(data.clone()).unwrap();
    let mut cursor = Cursor::new(&frame_bytes[..]);
    let parsed_frame = Frame::parse(&mut cursor).unwrap();
    assert!(parsed_frame.is_some());
    let parsed_frame = parsed_frame.unwrap();
    assert_eq!(parsed_frame, Frame::Initialize(data));
}

fn sample_frames() -> Vec<Frame> {
    vec![
        Frame::Initialize(vec![]),
        Frame::Initialize(b"hello world".to_vec()),
        Frame::Initialize(vec![7u8; 300]),
        Frame::Initialize(vec![9u8; 70_000]),
        Frame::PeerInitialize(vec![1u8; 32], vec![2u8; 32]),
        Frame::PeerInitialize(vec![], vec![3u8; 251]),
        Frame::Check([5u8; 12], vec![6u8; 20]),
        Frame::Check([0u8; 12], vec![]),
        Frame::KeyAgreement(UuidWrapper::from_bytes([0u8; 16])),
        Frame::KeyAgreement(UuidWrapper::from_bytes([
            0x93, 0x6d, 0xa0, 0x1f, 0x9a, 0xbd, 0x4d, 0x9d, 0x80, 0xc7, 0x02, 0xaf, 0x85, 0xc8,
            0x22, 0xa8,
        ])),
    ]
}

#[test]
fn frame_exact_bytes_initialize() {
    let frame = Frame::Initialize(b"hello world".to_vec());
    let bytes = frame.encode().unwrap();
    let mut expected = vec![0u8, 0, 0, 0, 0, 0, 0, 0, 13, 0, 11];
    expected.extend_from_slice(b"hello world");
    assert_eq!(bytes, expected);
    assert_eq!(Frame::decode(&bytes), Decoded::Frame(frame, bytes.len()));
}

#[test]
fn frame_exact_bytes_peer_initialize() {
    let frame = Frame::PeerInitialize(vec![0xaa, 0xbb], vec![0xcc]);
    let bytes = frame.encode().unwrap();
    assert_eq!(
        bytes,
        vec![1u8, 0, 0, 0, 0, 0, 0, 0, 6, 1, 2, 0xaa, 0xbb, 1, 0xcc]
    );
}

#[test]
fn frame_exact_bytes_check() {
    let frame = Frame::Check([9u8; 12], vec![1, 2, 3]);
    let bytes = frame.encode().unwrap();
    let mut expected = vec![2u8, 0, 0, 0, 0, 0, 0, 0, 17, 2];
    expected.extend_from_slice(&[9u8; 12]);
    expected.extend_from_slice(&[3, 1, 2, 3]);
    assert_eq!(bytes, expected);
}

#[test]
fn frame_exact_bytes_key_agreement() {
    let id = UuidWrapper::from_bytes([
        0x93, 0x6d, 0xa0, 0x1f, 0x9a, 0xbd, 0x4d, 0x9d, 0x80, 0xc7, 0x02, 0xaf, 0x85, 0xc8, 0x22,
        0xa8,
    ]);
    let bytes = Frame::KeyAgreement(id).encode().unwrap();
    let mut expected = vec![3u8, 0, 0, 0, 0, 0, 0, 0, 38, 3, 36];
    expected.extend_from_slice(b"936da01f-9abd-4d9d-80c7-02af85c822a8");
    assert_eq!(bytes, expected);
}

#[test]
fn frame_long_field_uses_wide_length() {
    let frame = Frame::Initialize(vec![7u8; 300]);
    let bytes = frame.encode().unwrap();
    assert_eq!(&bytes[9..13], &[0u8, 251, 0x2c, 0x01]);
    assert_eq!(bytes.len(), 9 + 1 + 3 + 300);
    let frame = Frame::Initialize(vec![9u8; 70_000]);
    let bytes = frame.encode().unwrap();
    assert_eq!(&bytes[9..15], &[0u8, 252, 0x70, 0x11, 0x01, 0x00]);
}

#[test]
fn frame_round_trip_all_variants() {
    for frame in sample_frames() {
        let bytes = frame.encode().unwrap();
        assert_eq!(bytes[0], frame.id());
        assert_eq!(
            Frame::decode(&bytes),
            Decoded::Frame(frame.clone(), bytes.len())
        );
        let mut cursor = Cursor::new(&bytes[..]);
        assert_eq!(Frame::parse(&mut cursor).unwrap(), Some(frame));
        assert_eq!(cursor.position(), bytes.len() as u64);
    }
}

#[test]
fn frame_decode_ignores_what_follows() {
    for frame in sample_frames() {
        let mut bytes = frame.encode().unwrap();
        let length = bytes.len();
        bytes.extend_from_slice(&[1, 2, 3]);
        assert_eq!(Frame::decode(&bytes), Decoded::Frame(frame, length));
    }
}

#[test]
fn frame_every_proper_prefix_is_incomplete() {
    for frame in sample_frames() {
        let bytes = frame.encode().unwrap();
        let step = if bytes.len() > 1000 { 997 } else { 1 };
        let mut cut = 0;
        while cut < bytes.len() {
            assert_eq!(Frame::decode(&bytes[..cut]), Decoded::Incomplete);
            let mut cursor = Cursor::new(&bytes[..cut]);
            assert_eq!(Frame::parse(&mut cursor), Ok(None));
            assert_eq!(cursor.position(), 0);
            cut += step;
        }
    }
}

#[test]
fn frame_short_input_is_incomplete_whatever_it_holds() {
    for length in 0..9usize {
        for byte in [0u8, 3, 4, 200, 255] {
            let bytes = vec![byte; length];
            assert_eq!(Frame::decode(&bytes), Decoded::Incomplete);
        }
    }
}

#[test]
fn frame_unknown_tag_is_malformed_and_no_frame_yet() {
    let mut bytes = Frame::Initialize(vec![1, 2, 3]).encode().unwrap();
    bytes[0] = 4;
    assert_eq!(Frame::decode(&bytes), Decoded::Malformed);
    let mut cursor = Cursor::new(&bytes[..]);
    assert_eq!(Frame::parse(&mut cursor), Ok(None));
    assert_eq!(cursor.position(), 0);
}

#[test]
fn frame_tag_and_payload_must_agree() {
    let mut bytes = Frame::Initialize(vec![1, 2, 3]).encode().unwrap();
    bytes[0] = 1;
    assert_eq!(Frame::decode(&bytes), Decoded::Malformed);
    let mut cursor = Cursor::new(&bytes[..]);
    assert_eq!(Frame::parse(&mut cursor), Err(Error::Malformed));
}

#[test]
fn frame_hostile_inner_length_is_malformed() {
    // The payload announces a byte string of 2^64 - 1 bytes.
    let payload = [0u8, 253, 255, 255, 255, 255, 255, 255, 255, 255, 1, 2];
    let mut bytes = vec![0u8];
    bytes.extend_from_slice(&(payload.len() as u64).to_be_bytes());
    bytes.extend_from_slice(&payload);
    assert_eq!(Frame::decode(&bytes), Decoded::Malformed);
}

#[test]
fn frame_huge_outer_length_is_incomplete() {
    let mut bytes = vec![0u8];
    bytes.extend_from_slice(&u64::MAX.to_be_bytes());
    bytes.extend_from_slice(&[0, 1, 7]);
    assert_eq!(Frame::decode(&bytes), Decoded::Incomplete);
}

#[test]
fn frame_bad_payloads_are_malformed() {
    let payloads: Vec<Vec<u8>> = vec![
        vec![],
        vec![4, 0],
        vec![254, 0, 0, 0, 0],
        vec![253, 0, 0, 0, 0, 0, 0, 0, 0, 0],
        vec![0],
        vec![0, 5, 1, 2],
        vec![1, 1, 9],
        vec![2, 1, 2, 3],
        vec![3, 3, b'a', b'b', b'c'],
        vec![3, 2, 0xff, 0xfe],
    ];
    for payload in payloads {
        for tag in 0u8..4 {
            let mut bytes = vec![tag];
            bytes.extend_from_slice(&(payload.len() as u64).to_be_bytes());
            bytes.extend_from_slice(&payload);
            assert_eq!(Frame::decode(&bytes), Decoded::Malformed);
        }
    }
}

#[test]
fn frame_wide_forms_are_read() {
    // Variant 0 and length 2, each in a wider form than it needs.
    let payload = [251u8, 0, 0, 252, 2, 0, 0, 0, 0xaa, 0xbb];
    let mut bytes = vec![0u8];
    bytes.extend_from_slice(&(payload.len() as u64).to_be_bytes());
    bytes.extend_from_slice(&payload);
    assert_eq!(
        Frame::decode(&bytes),
        Decoded::Frame(Frame::Initialize(vec![0xaa, 0xbb]), bytes.len())
    );
}

#[test]
fn frame_key_agreement_reads_other_texts_of_an_identifier() {
    let id = UuidWrapper::from_bytes([
        0x93, 0x6d, 0xa0, 0x1f, 0x9a, 0xbd, 0x4d, 0x9d, 0x80, 0xc7, 0x02, 0xaf, 0x85, 0xc8, 0x22,
        0xa8,
    ]);
    let text = b"936DA01F9ABD4D9D80C702AF85C822A8";
    let mut payload = vec![3u8, text.len() as u8];
    payload.extend_from_slice(text);
    let mut bytes = vec![3u8];
    bytes.extend_from_slice(&(payload.len() as u64).to_be_bytes());
    bytes.extend_from_slice(&payload);
    assert_eq!(
        Frame::decode(&bytes),
        Decoded::Frame(Frame::KeyAgreement(id), bytes.len())
    );
}

#[test]
fn frame_payload_is_what_the_serializer_reads() {
    let standard = bincode::config::standard();
    let bytes = Frame::PeerInitialize(vec![1u8; 300], vec![2u8; 32])
        .encode()
        .unwrap();
    let ((variant, key, salt), used): ((u32, Vec<u8>, Vec<u8>), usize) =
        bincode::decode_from_slice(&bytes[9..], standard).unwrap();
    assert_eq!(variant, 1);
    assert_eq!(key, vec![1u8; 300]);
    assert_eq!(salt, vec![2u8; 32]);
    assert_eq!(used, bytes.len() - 9);

    let bytes = Frame::Check([4u8; 12], vec![5u8; 20]).encode().unwrap();
    let ((variant, nonce, sealed), used): ((u32, [u8; 12], Vec<u8>), usize) =
        bincode::decode_from_slice(&bytes[9..], standard).unwrap();
    assert_eq!(variant, 2);
    assert_eq!(nonce, [4u8; 12]);
    assert_eq!(sealed, vec![5u8; 20]);
    assert_eq!(used, bytes.len() - 9);

    let id = UuidWrapper::from_bytes([0x11u8; 16]);
    let bytes = Frame::KeyAgreement(id).encode().unwrap();
    let ((variant, text), _): ((u32, String), usize) =
        bincode::decode_from_slice(&bytes[9..], standard).unwrap();
    assert_eq!(variant, 3);
    assert_eq!(text, "11111111-1111-1111-1111-111111111111");
}

#[test]
fn frame_reads_what_the_serializer_writes() {
    let standard = bincode::config::standard();
    let cases: Vec<(u8, Vec<u8>, Frame)> = vec![
        (
            1,
            bincode::encode_to_vec((1u32, vec![8u8; 70_000], vec![9u8; 3]), standard).unwrap(),
            Frame::PeerInitialize(vec![8u8; 70_000], vec![9u8; 3]),
        ),
        (
            2,
            bincode::encode_to_vec((2u32, [3u8; 12], vec![4u8; 260]), standard).unwrap(),
            Frame::Check([3u8; 12], vec![4u8; 260]),
        ),
        (
            3,
            bincode::encode_to_vec(
                (3u32, "936da01f-9abd-4d9d-80c7-02af85c822a8".to_string()),
                standard,
            )
            .unwrap(),
            Frame::KeyAgreement(UuidWrapper::from_bytes([
                0x93, 0x6d, 0xa0, 0x1f, 0x9a, 0xbd, 0x4d, 0x9d, 0x80, 0xc7, 0x02, 0xaf, 0x85,
                0xc8, 0x22, 0xa8,
            ])),
        ),
    ];
    for (tag, payload, frame) in cases {
        let mut bytes = vec![tag];
        bytes.extend_from_slice(&(payload.len() as u64).to_be_bytes());
        bytes.extend_from_slice(&payload);
        assert_eq!(Frame::decode(&bytes), Decoded::Frame(frame.clone(), bytes.len()));
        assert_eq!(frame.encode().unwrap(), bytes);
    }
}

#[test]
fn frame_ids() {
    assert_eq!(Frame::Initialize(vec![]).id(), 0);
    assert_eq!(Frame::PeerInitialize(vec![], vec![]).id(), 1);
    assert_eq!(Frame::Check([0u8; 12], vec![]).id(), 2);
    assert_eq!(Frame::KeyAgreement(UuidWrapper::from_bytes([0u8; 16])).id(), 3);
}

#[test]
fn frame_text_names_kind_and_lengths() {
    assert_eq!(
        Frame::Initialize(b"hello world".to_vec()).text(),
        "Initialize(11 bytes)"
    );
    assert_eq!(Frame::Initialize(vec![]).text(), "Initialize(0 bytes)");
    assert_eq!(
        Frame::Initialize(vec![7u8; 70_000]).text(),
        "Initialize(70000 bytes)"
    );
    assert_eq!(
        Frame::PeerInitialize(vec![1u8; 32], vec![2u8; 109]).text(),
        "PeerInitialize(32 bytes, 109 bytes)"
    );
    assert_eq!(
        Frame::Check([5u8; 12], vec![6u8; 20]).text(),
        "Check(12 bytes, 20 bytes)"
    );
    let id = UuidWrapper::from_bytes([
        0x93, 0x6d, 0xa0, 0x1f, 0x9a, 0xbd, 0x4d, 0x9d, 0x80, 0xc7, 0x02, 0xaf, 0x85, 0xc8, 0x22,
        0xa8,
    ]);
    assert_eq!(
        Frame::KeyAgreement(id).text(),
        "KeyAgreement(936da01f-9abd-4d9d-80c7-02af85c822a8)"
    );
    assert_eq!(
        Frame::KeyAgreement(id).text(),
        format!("KeyAgreement({})", id.as_uuid())
    );
}
