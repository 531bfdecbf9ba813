//! The four messages of the control channel and their binary form.
//!
//! A frame on the wire is one tag byte, eight bytes of payload length (most
//! significant first) and the payload. The payload names the variant again,
//! as a variable-width integer, and then holds the variant's fields in order:
//! a byte string behind its length, the twelve bytes of a nonce as they are,
//! a session identifier as text behind its length.

use vstd::prelude::*;
use vstd::slice::slice_subrange;
use vstd::string::StringExecFns;

use crate::cursor::{Cursor, NONCE_LEN};
use crate::error::Error;
use crate::text::{ascii_chars, decimal, decimal_string};
use crate::uuid::{uuid_hyphenated, uuid_parsed, UuidWrapper};
use crate::wire::{
    be_u64, be_value, copy_array, encode_len_prefixed, len_prefixed, lemma_be_round_trip,
    lemma_len_prefixed_round_trip, parse_len_prefixed, parse_varint, push_be_u64, read_be_u64,
    read_len_prefixed, read_varint,
};

verus! {

/// Length of the tag and length fields that stand before every payload.
pub const HEADER_LEN: usize = 9;

/// The highest tag that names a frame.
pub const MAX_TAG: u8 = 3;

/// A message of the control channel.
#[derive(Clone, Debug, Eq, Hash, Ord, PartialEq, PartialOrd)]
pub enum Frame {
    /// The initiator's public key.
    Initialize(Vec<u8>),
    /// The responder's public key and the salt for key derivation.
    PeerInitialize(Vec<u8>, Vec<u8>),
    /// A nonce and the known marker encrypted under the derived key.
    Check([u8; 12], Vec<u8>),
    /// The identifier of the session that was agreed.
    KeyAgreement(UuidWrapper),
}

/// A frame as a mathematical value.
pub enum FrameView {
    Initialize(Seq<u8>),
    PeerInitialize(Seq<u8>, Seq<u8>),
    Check(Seq<u8>, Seq<u8>),
    KeyAgreement(Seq<u8>),
}

impl View for Frame {
    type V = FrameView;

    open spec fn view(&self) -> FrameView {
        match self {
            Frame::Initialize(key) => FrameView::Initialize(key@),
            Frame::PeerInitialize(key, salt) => FrameView::PeerInitialize(key@, salt@),
            Frame::Check(nonce, sealed) => FrameView::Check(nonce@, sealed@),
            Frame::KeyAgreement(id) => FrameView::KeyAgreement(id@),
        }
    }
}

impl FrameView {
    /// The tag of the frame on the wire.
    pub open spec fn id(self) -> u8 {
        match self {
            FrameView::Initialize(_) => 0,
            FrameView::PeerInitialize(_, _) => 1,
            FrameView::Check(_, _) => 2,
            FrameView::KeyAgreement(_) => 3,
        }
    }

    /// What every frame held in memory satisfies: the nonce has twelve bytes,
    /// the identifier sixteen, and each byte string a length that fits the
    /// machine.
    pub open spec fn wf(self) -> bool {
        match self {
            FrameView::Initialize(key) => key.len() <= usize::MAX,
            FrameView::PeerInitialize(key, salt) => key.len() <= usize::MAX && salt.len()
                <= usize::MAX,
            FrameView::Check(nonce, sealed) => nonce.len() == NONCE_LEN && sealed.len()
                <= usize::MAX,
            FrameView::KeyAgreement(id) => id.len() == 16,
        }
    }

    /// The payload of the frame, given the text of its identifier (a frame
    /// without one does not look at `text`).
    pub open spec fn payload_with(self, text: Seq<u8>) -> Seq<u8> {
        match self {
            FrameView::Initialize(key) => seq![0u8] + len_prefixed(key),
            FrameView::PeerInitialize(key, salt) => seq![1u8] + len_prefixed(key) + len_prefixed(
                salt,
            ),
            FrameView::Check(nonce, sealed) => seq![2u8] + nonce + len_prefixed(sealed),
            FrameView::KeyAgreement(_) => seq![3u8] + len_prefixed(text),
        }
    }

    /// The payload that `Frame::encode` writes.
    pub open spec fn payload(self) -> Seq<u8> {
        match self {
            FrameView::KeyAgreement(id) => self.payload_with(uuid_hyphenated(id)),
            _ => self.payload_with(Seq::empty()),
        }
    }

    /// Whether `text` may stand for the identifier of this frame: it is read
    /// back as that identifier. True of any text for a frame without one.
    pub open spec fn names(self, text: Seq<u8>) -> bool {
        match self {
            FrameView::KeyAgreement(id) => uuid_parsed(text) == Some(id) && text.len() <= u64::MAX,
            _ => true,
        }
    }
}

/// A payload in its envelope: the tag, the payload's length, the payload.
pub open spec fn envelope(tag: u8, payload: Seq<u8>) -> Seq<u8>
    recommends
        payload.len() <= u64::MAX,
{
    seq![tag] + be_u64(payload.len() as u64) + payload
}

/// The bytes that `Frame::encode` writes for a frame.
pub open spec fn frame_bytes(frame: FrameView) -> Seq<u8> {
    envelope(frame.id(), frame.payload())
}

/// Whether `bytes` is a form of `frame` on the wire: the frame's envelope
/// round a payload that holds its fields, the identifier in any text that is
/// read back as it.
pub open spec fn is_encoding(frame: FrameView, bytes: Seq<u8>) -> bool {
    exists|text: Seq<u8>|
        #![trigger frame.payload_with(text)]
        frame.names(text) && frame.payload_with(text).len() <= u64::MAX && bytes == envelope(
            frame.id(),
            frame.payload_with(text),
        )
}

/// Reads the variant that a payload names: a variable-width integer of at
/// most 32 bits that is at most 3, and the number of bytes it takes.
pub open spec fn parse_variant(payload: Seq<u8>) -> Option<(u8, int)> {
    match parse_varint(payload) {
        Some((value, used)) => if payload[0] <= 252 && value <= MAX_TAG {
            Some((value as u8, used))
        } else {
            None
        },
        None => None,
    }
}

/// Reads the fields of variant `variant` from `body`. Bytes after the last
/// field are not looked at.
pub open spec fn parse_fields(variant: u8, body: Seq<u8>) -> Option<FrameView> {
    if variant == 0 {
        match parse_len_prefixed(body) {
            Some((key, _)) => Some(FrameView::Initialize(key)),
            None => None,
        }
    } else if variant == 1 {
        match parse_len_prefixed(body) {
            Some((key, used)) => match parse_len_prefixed(body.skip(used)) {
                Some((salt, _)) => Some(FrameView::PeerInitialize(key, salt)),
                None => None,
            },
            None => None,
        }
    } else if variant == 2 {
        if body.len() < NONCE_LEN {
            None
        } else {
            match parse_len_prefixed(body.skip(NONCE_LEN as int)) {
                Some((sealed, _)) => Some(FrameView::Check(body.take(NONCE_LEN as int), sealed)),
                None => None,
            }
        }
    } else {
        match parse_len_prefixed(body) {
            Some((text, _)) => match uuid_parsed(text) {
                Some(id) => Some(FrameView::KeyAgreement(id)),
                None => None,
            },
            None => None,
        }
    }
}

/// Reads a frame from a complete payload.
pub open spec fn parse_payload(payload: Seq<u8>) -> Option<FrameView> {
    match parse_variant(payload) {
        Some((variant, used)) => parse_fields(variant, payload.skip(used)),
        None => None,
    }
}

/// What decoding makes of a run of bytes.
pub enum DecodedView {
    /// A frame, and the number of bytes it took.
    Frame(FrameView, int),
    /// The bytes may be the start of a frame; more are needed.
    Incomplete,
    /// The bytes hold no frame, whatever follows them.
    Malformed,
}

/// What `Frame::decode` makes of `bytes`.
pub open spec fn decode_spec(bytes: Seq<u8>) -> DecodedView {
    if bytes.len() < HEADER_LEN {
        DecodedView::Incomplete
    } else if bytes[0] > MAX_TAG {
        DecodedView::Malformed
    } else {
        let length = be_value(bytes.subrange(1, HEADER_LEN as int));
        if bytes.len() - HEADER_LEN < length {
            DecodedView::Incomplete
        } else {
            match parse_payload(bytes.subrange(HEADER_LEN as int, HEADER_LEN + length)) {
                Some(frame) => if frame.id() == bytes[0] {
                    DecodedView::Frame(frame, HEADER_LEN + length)
                } else {
                    DecodedView::Malformed
                },
                None => DecodedView::Malformed,
            }
        }
    }
}

/// What decoding made of a run of bytes.
#[derive(Clone, Debug, Eq, PartialEq)]
pub enum Decoded {
    /// A frame, and the number of bytes it took.
    Frame(Frame, usize),
    /// The bytes may be the start of a frame; more are needed.
    Incomplete,
    /// The bytes hold no frame, whatever follows them.
    Malformed,
}

impl View for Decoded {
    type V = DecodedView;

    open spec fn view(&self) -> DecodedView {
        match self {
            Decoded::Frame(frame, used) => DecodedView::Frame(frame@, *used as int),
            Decoded::Incomplete => DecodedView::Incomplete,
            Decoded::Malformed => DecodedView::Malformed,
        }
    }
}

/// Reads a frame from a complete payload.
fn decode_payload(payload: &[u8]) -> (r: Option<Frame>)
    ensures
        match parse_payload(payload@) {
            Some(frame) => r matches Some(got) && got@ == frame,
            None => r is None,
        },
{
    let total: usize = payload.len();
    proof {
        assert(payload@.skip(0) =~= payload@);
    }
    let (variant, at) = match read_varint(payload, 0) {
        Some((value, used)) => {
            if payload[0] > 252 || value > MAX_TAG as u64 {
                return None;
            }
            (value as u8, used)
        },
        None => {
            return None;
        },
    };
    let ghost body = payload@.skip(at as int);
    if variant == 0 {
        match read_len_prefixed(payload, at) {
            Some((key, _)) => Some(Frame::Initialize(key)),
            None => None,
        }
    } else if variant == 1 {
        match read_len_prefixed(payload, at) {
            Some((key, used)) => {
                proof {
                    assert(body.skip(used as int) =~= payload@.skip(at + used));
                }
                match read_len_prefixed(payload, at + used) {
                    Some((salt, _)) => Some(Frame::PeerInitialize(key, salt)),
                    None => None,
                }
            },
            None => None,
        }
    } else if variant == 2 {
        if total - at < NONCE_LEN {
            None
        } else {
            let nonce: [u8; 12] = copy_array(payload, at);
            proof {
                assert(body.skip(NONCE_LEN as int) =~= payload@.skip(at + NONCE_LEN));
                assert(body.take(NONCE_LEN as int) =~= payload@.subrange(
                    at as int,
                    at + NONCE_LEN,
                ));
            }
            match read_len_prefixed(payload, at + NONCE_LEN) {
                Some((sealed, _)) => Some(Frame::Check(nonce, sealed)),
                None => None,
            }
        }
    } else {
        match read_len_prefixed(payload, at) {
            Some((text, _)) => match UuidWrapper::parse_text(text.as_slice()) {
                Some(id) => Some(Frame::KeyAgreement(id)),
                None => None,
            },
            None => None,
        }
    }
}

impl Frame {
    /// Get the frame identifier: the tag that stands first on the wire.
    pub fn id(&self) -> (tag: u8)
        ensures
            tag == self@.id(),
            tag <= MAX_TAG,
    {
        match self {
            Frame::Initialize(_) => 0,
            Frame::PeerInitialize(_, _) => 1,
            Frame::Check(_, _) => 2,
            Frame::KeyAgreement(_) => 3,
        }
    }

    /// The text that names the frame to a person.
    pub fn text(&self) -> (r: String)
        ensures
            r@ == frame_text(self@),
    {
        match self {
            Frame::Initialize(key) => {
                let mut text = String::from_str("Initialize(");
                text.append(decimal_string(key.len()).as_str());
                text.append(" bytes)");
                text
            },
            Frame::PeerInitialize(key, salt) => {
                let mut text = String::from_str("PeerInitialize(");
                text.append(decimal_string(key.len()).as_str());
                text.append(" bytes, ");
                text.append(decimal_string(salt.len()).as_str());
                text.append(" bytes)");
                text
            },
            Frame::Check(nonce, sealed) => {
                let mut text = String::from_str("Check(");
                text.append(decimal_string(nonce.len()).as_str());
                text.append(" bytes, ");
                text.append(decimal_string(sealed.len()).as_str());
                text.append(" bytes)");
                text
            },
            Frame::KeyAgreement(id) => {
                let mut text = String::from_str("KeyAgreement(");
                text.append(id.hyphenated().as_str());
                text.append(")");
                text
            },
        }
    }

    /// Every frame held in memory is well formed.
    pub proof fn lemma_wf(&self)
        ensures
            self@.wf(),
    {
        match self {
            Frame::Initialize(key) => {
                assert(key@.len() == key.len());
            },
            Frame::PeerInitialize(key, salt) => {
                assert(key@.len() == key.len());
                assert(salt@.len() == salt.len());
            },
            Frame::Check(nonce, sealed) => {
                assert(sealed@.len() == sealed.len());
            },
            Frame::KeyAgreement(id) => {
                id.lemma_len();
            },
        }
    }

    /// The payload of the frame.
    fn encode_payload(&self) -> (r: Result<Vec<u8>, Error>)
        ensures
            r matches Ok(payload) && payload@ == self@.payload() && exists|text: Seq<u8>|
                #![trigger self@.payload_with(text)]
                self@.names(text) && payload@ == self@.payload_with(text),
    {
        let mut payload: Vec<u8> = Vec::new();
        payload.push(self.id());
        match self {
            Frame::Initialize(key) => {
                let mut field = match encode_len_prefixed(key.as_slice()) {
                    Ok(field) => field,
                    Err(_) => {
                        return Err(Error::Encode);
                    },
                };
                payload.append(&mut field);
                proof {
                    assert(payload@ =~= self@.payload_with(Seq::empty()));
                }
            },
            Frame::PeerInitialize(key, salt) => {
                let mut first = match encode_len_prefixed(key.as_slice()) {
                    Ok(field) => field,
                    Err(_) => {
                        return Err(Error::Encode);
                    },
                };
                let mut second = match encode_len_prefixed(salt.as_slice()) {
                    Ok(field) => field,
                    Err(_) => {
                        return Err(Error::Encode);
                    },
                };
                payload.append(&mut first);
                payload.append(&mut second);
                proof {
                    assert(payload@ =~= self@.payload_with(Seq::empty()));
                }
            },
            Frame::Check(nonce, sealed) => {
                let mut field = match encode_len_prefixed(sealed.as_slice()) {
                    Ok(field) => field,
                    Err(_) => {
                        return Err(Error::Encode);
                    },
                };
                payload.extend_from_slice(nonce.as_slice());
                payload.append(&mut field);
                proof {
                    assert(payload@ =~= self@.payload_with(Seq::empty()));
                }
            },
            Frame::KeyAgreement(id) => {
                let text = id.to_text();
                let mut field = match encode_len_prefixed(text.as_slice()) {
                    Ok(field) => field,
                    Err(_) => {
                        return Err(Error::Encode);
                    },
                };
                payload.append(&mut field);
                proof {
                    assert(payload@ =~= self@.payload_with(text@));
                    assert(self@.names(text@));
                }
            },
        }
        Ok(payload)
    }

    /// The frame as bytes for the wire: tag, payload length, payload. It
    /// succeeds for every frame.
    pub fn encode(&self) -> (r: Result<Vec<u8>, Error>)
        ensures
            r matches Ok(bytes) && bytes@ == frame_bytes(self@) && is_encoding(self@, bytes@),
    {
        let mut payload = match self.encode_payload() {
            Ok(payload) => payload,
            Err(e) => {
                return Err(e);
            },
        };
        let mut bytes: Vec<u8> = Vec::new();
        bytes.push(self.id());
        push_be_u64(&mut bytes, payload.len() as u64);
        let ghost held = payload@;
        bytes.append(&mut payload);
        proof {
            assert(bytes@ =~= envelope(self@.id(), held));
        }
        Ok(bytes)
    }

    /// Create the bytes of an initialization frame with the given data. It
    /// succeeds for every data.
    pub fn initialize(data: Vec<u8>) -> (r: Result<Vec<u8>, Error>)
        ensures
            r matches Ok(bytes) && bytes@ == frame_bytes(FrameView::Initialize(data@))
                && is_encoding(FrameView::Initialize(data@), bytes@),
    {
        let frame = Frame::Initialize(data);
        frame.encode()
    }

    /// Reads one frame from the start of `bytes`.
    ///
    /// Fewer bytes than a header, or fewer after the header than it
    /// announces, are `Incomplete`; an unknown tag, a payload that holds no
    /// frame, or one that holds another frame than the tag names, are
    /// `Malformed`. Bytes after the frame are not looked at.
    pub fn decode(bytes: &[u8]) -> (r: Decoded)
        ensures
            r@ == decode_spec(bytes@),
            bytes@.len() < HEADER_LEN ==> r is Incomplete,
    {
        let total: usize = bytes.len();
        if total < HEADER_LEN {
            return Decoded::Incomplete;
        }
        let tag: u8 = bytes[0];
        if tag > MAX_TAG {
            return Decoded::Malformed;
        }
        let length: u64 = read_be_u64(bytes, 1);
        if ((total - HEADER_LEN) as u64) < length {
            return Decoded::Incomplete;
        }
        let end: usize = HEADER_LEN + length as usize;
        let payload = slice_subrange(bytes, HEADER_LEN, end);
        match decode_payload(payload) {
            Some(frame) => {
                if frame.id() == tag {
                    Decoded::Frame(frame, end)
                } else {
                    Decoded::Malformed
                }
            },
            None => Decoded::Malformed,
        }
    }

    /// Parse a frame from the given byte source.
    ///
    /// A frame is handed out and the cursor stands behind it. Where the bytes
    /// are incomplete, or start with an unknown tag, there is no frame yet:
    /// `Ok(None)`. Where the payload is complete and holds no frame of its
    /// tag, the result is `Error::Malformed`. The cursor moves only past a
    /// frame.
    pub fn parse(src: &mut Cursor) -> (r: Result<Option<Frame>, Error>)
        requires
            old(src).wf(),
        ensures
            final(src).wf(),
            final(src).data() == old(src).data(),
            parsed(decode_spec(old(src).rest()), old(src).rest(), r),
            final(src).pos() == old(src).pos() + consumed(decode_spec(old(src).rest())),
    {
        let rest = src.unread();
        match Frame::decode(rest) {
            Decoded::Frame(frame, used) => {
                let _ = src.take(used);
                Ok(Some(frame))
            },
            Decoded::Incomplete => Ok(None),
            Decoded::Malformed => {
                if rest[0] > MAX_TAG {
                    Ok(None)
                } else {
                    Err(Error::Malformed)
                }
            },
        }
    }
}

/// The number of bytes that a decoding consumes: those of a frame, else none.
pub open spec fn consumed(decoded: DecodedView) -> int {
    match decoded {
        DecodedView::Frame(_, used) => used,
        _ => 0,
    }
}

/// How `Frame::parse` reports what decoding made of `rest`.
pub open spec fn parsed(
    decoded: DecodedView,
    rest: Seq<u8>,
    r: Result<Option<Frame>, Error>,
) -> bool {
    match decoded {
        DecodedView::Frame(frame, _) => r matches Ok(Some(got)) && got@ == frame,
        DecodedView::Incomplete => r matches Ok(None),
        DecodedView::Malformed => if rest[0] > MAX_TAG {
            r matches Ok(None)
        } else {
            r matches Err(e) && e == Error::Malformed
        },
    }
}

/// The text that names a frame to a person: its kind, and in brackets the
/// lengths of its byte strings, or the identifier it carries.
pub open spec fn frame_text(frame: FrameView) -> Seq<char> {
    match frame {
        FrameView::Initialize(key) => "Initialize("@ + decimal(key.len()) + " bytes)"@,
        FrameView::PeerInitialize(key, salt) => "PeerInitialize("@ + decimal(key.len())
            + " bytes, "@ + decimal(salt.len()) + " bytes)"@,
        FrameView::Check(nonce, sealed) => "Check("@ + decimal(nonce.len()) + " bytes, "@
            + decimal(sealed.len()) + " bytes)"@,
        FrameView::KeyAgreement(id) => "KeyAgreement("@ + ascii_chars(uuid_hyphenated(id)) + ")"@,
    }
}

/// Decoding undoes encoding: every form of a frame on the wire, whatever
/// bytes follow it, is read back as that frame and as exactly its own length.
pub proof fn lemma_decode_encoding(frame: FrameView, bytes: Seq<u8>, after: Seq<u8>)
    requires
        frame.wf(),
        is_encoding(frame, bytes),
    ensures
        decode_spec(bytes + after) == DecodedView::Frame(frame, bytes.len() as int),
{
    let text = choose|text: Seq<u8>|
        #![trigger frame.payload_with(text)]
        frame.names(text) && frame.payload_with(text).len() <= u64::MAX && bytes == envelope(
            frame.id(),
            frame.payload_with(text),
        );
    let payload = frame.payload_with(text);
    let all = bytes + after;
    lemma_be_round_trip(payload.len() as u64);
    assert(all.subrange(1, HEADER_LEN as int) =~= be_u64(payload.len() as u64));
    assert(all.subrange(HEADER_LEN as int, HEADER_LEN + payload.len()) =~= payload);
    assert(all[0] == frame.id());
    lemma_parse_payload(frame, text);
}

/// A payload that holds the fields of a frame is read back as that frame.
pub proof fn lemma_parse_payload(frame: FrameView, text: Seq<u8>)
    requires
        frame.wf(),
        frame.names(text),
    ensures
        parse_payload(frame.payload_with(text)) == Some(frame),
{
    let payload = frame.payload_with(text);
    let body = payload.skip(1);
    assert(payload[0] == frame.id());
    assert(parse_variant(payload) == Some((frame.id(), 1int)));
    let none = Seq::<u8>::empty();
    match frame {
        FrameView::Initialize(key) => {
            lemma_len_prefixed_round_trip(key, none);
            assert(body =~= len_prefixed(key) + none);
        },
        FrameView::PeerInitialize(key, salt) => {
            lemma_len_prefixed_round_trip(key, len_prefixed(salt));
            lemma_len_prefixed_round_trip(salt, none);
            assert(body =~= len_prefixed(key) + len_prefixed(salt));
            assert(body.skip(len_prefixed(key).len() as int) =~= len_prefixed(salt) + none);
        },
        FrameView::Check(nonce, sealed) => {
            lemma_len_prefixed_round_trip(sealed, none);
            assert(body =~= nonce + len_prefixed(sealed));
            assert(body.take(NONCE_LEN as int) =~= nonce);
            assert(body.skip(NONCE_LEN as int) =~= len_prefixed(sealed) + none);
        },
        FrameView::KeyAgreement(id) => {
            lemma_len_prefixed_round_trip(text, none);
            assert(body =~= len_prefixed(text) + none);
        },
    }
}

/// Round trip: a frame's encoding is decoded as the frame and its full
/// length.
pub proof fn lemma_round_trip(frame: FrameView, bytes: Seq<u8>)
    requires
        frame.wf(),
        is_encoding(frame, bytes),
    ensures
        decode_spec(bytes) == DecodedView::Frame(frame, bytes.len() as int),
{
    lemma_decode_encoding(frame, bytes, Seq::empty());
    assert(bytes + Seq::<u8>::empty() =~= bytes);
}

/// Too few bytes are never a frame and never an error: a run shorter than a
/// header, and any proper start of a frame's encoding, decode as
/// `Incomplete`.
pub proof fn lemma_prefix_incomplete(frame: FrameView, bytes: Seq<u8>, cut: int)
    requires
        frame.wf(),
        is_encoding(frame, bytes),
        0 <= cut < bytes.len(),
    ensures
        decode_spec(bytes.take(cut)) == DecodedView::Incomplete,
{
    let text = choose|text: Seq<u8>|
        #![trigger frame.payload_with(text)]
        frame.names(text) && frame.payload_with(text).len() <= u64::MAX && bytes == envelope(
            frame.id(),
            frame.payload_with(text),
        );
    let payload = frame.payload_with(text);
    let part = bytes.take(cut);
    lemma_be_round_trip(payload.len() as u64);
    if cut >= HEADER_LEN {
        assert(part.subrange(1, HEADER_LEN as int) =~= be_u64(payload.len() as u64));
        assert(part[0] == frame.id());
    }
}

/// Fewer bytes than a header decode as `Incomplete`, whatever they are.
pub proof fn lemma_short_incomplete(bytes: Seq<u8>)
    requires
        bytes.len() < HEADER_LEN,
    ensures
        decode_spec(bytes) == DecodedView::Incomplete,
{
}

/// A header that announces more payload than there is decodes as
/// `Incomplete`, whatever the payload holds.
pub proof fn lemma_underrun_incomplete(bytes: Seq<u8>)
    requires
        bytes.len() >= HEADER_LEN,
        bytes[0] <= MAX_TAG,
        be_value(bytes.subrange(1, HEADER_LEN as int)) > bytes.len() - HEADER_LEN,
    ensures
        decode_spec(bytes) == DecodedView::Incomplete,
{
}

} // verus!
