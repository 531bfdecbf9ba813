//! Session identifiers: 128 bits, held as sixteen bytes.

use vstd::prelude::*;

use crate::text::{ascii_chars, ascii_string, is_ascii_bytes};

verus! {

#[verifier::external_type_specification]
#[verifier::external_body]
pub struct ExUuid(uuid::Uuid);

/// The sixteen bytes that a `uuid::Uuid` holds, in the order of
/// `Uuid::as_bytes`.
pub uninterp spec fn uuid_octets(id: uuid::Uuid) -> Seq<u8>;

/// The digit of a number below sixteen: `0` to `9`, then `a` to `f`.
pub open spec fn hex_digit(n: u8) -> u8 {
    if n < 10 {
        (48 + n) as u8
    } else {
        (87 + n) as u8
    }
}

/// Bytes as text: two digits for each byte, the high half first.
pub open spec fn hex_text(octets: Seq<u8>) -> Seq<u8>
    decreases octets.len(),
{
    if octets.len() == 0 {
        Seq::empty()
    } else {
        hex_text(octets.drop_last()) + seq![
            hex_digit(octets.last() / 16),
            hex_digit(octets.last() % 16),
        ]
    }
}

/// Every byte of `hex_text` is a character of ASCII.
pub proof fn lemma_hex_text_ascii(octets: Seq<u8>)
    ensures
        is_ascii_bytes(hex_text(octets)),
        hex_text(octets).len() == 2 * octets.len(),
    decreases octets.len(),
{
    if octets.len() > 0 {
        lemma_hex_text_ascii(octets.drop_last());
    }
}

/// The text of an identifier is 36 characters of ASCII.
pub proof fn lemma_hyphenated_ascii(octets: Seq<u8>)
    requires
        octets.len() == UUID_LEN,
    ensures
        is_ascii_bytes(uuid_hyphenated(octets)),
        uuid_hyphenated(octets).len() == UUID_TEXT_LEN,
{
    lemma_hex_text_ascii(octets.subrange(0, 4));
    lemma_hex_text_ascii(octets.subrange(4, 6));
    lemma_hex_text_ascii(octets.subrange(6, 8));
    lemma_hex_text_ascii(octets.subrange(8, 10));
    lemma_hex_text_ascii(octets.subrange(10, 16));
}

/// The text of an identifier: its sixteen bytes as lower-case digits in
/// groups of four, two, two, two and six bytes, with a hyphen between the
/// groups.
pub open spec fn uuid_hyphenated(octets: Seq<u8>) -> Seq<u8>
    recommends
        octets.len() == UUID_LEN,
{
    hex_text(octets.subrange(0, 4)) + seq![45u8] + hex_text(octets.subrange(4, 6)) + seq![45u8]
        + hex_text(octets.subrange(6, 8)) + seq![45u8] + hex_text(octets.subrange(8, 10)) + seq![
        45u8,
    ] + hex_text(octets.subrange(10, 16))
}

/// What `Uuid::try_parse_ascii` makes of a text: the sixteen bytes it
/// stands for, or `None` where it is no identifier.
pub uninterp spec fn uuid_parsed(text: Seq<u8>) -> Option<Seq<u8>>;

/// Length of an identifier in bytes.
pub const UUID_LEN: usize = 16;

/// Length of an identifier's text.
pub const UUID_TEXT_LEN: usize = 36;

/// `Uuid::into_bytes`: the bytes held, unchanged.
#[verifier::external_body]
fn uuid_into_bytes(id: uuid::Uuid) -> (bytes: [u8; 16])
    ensures
        bytes@ == uuid_octets(id),
{
    id.into_bytes()
}

/// `Uuid::from_bytes`: an identifier that holds exactly the bytes given.
#[verifier::external_body]
fn uuid_from_bytes(bytes: [u8; 16]) -> (id: uuid::Uuid)
    ensures
        uuid_octets(id) == bytes@,
{
    uuid::Uuid::from_bytes(bytes)
}

/// Whether sixteen bytes are an identifier of version 4, the random kind, in
/// the layout of RFC 9562: the high half of the seventh byte is 4, and the
/// two highest bits of the ninth byte are 1 and 0. The other 122 bits are
/// free.
pub open spec fn is_version_4(octets: Seq<u8>) -> bool {
    &&& octets.len() == UUID_LEN
    &&& octets[6] / 16 == 4
    &&& octets[8] / 64 == 2
}

/// `Uuid::new_v4`: a random identifier. Believed of every outcome: it is of
/// version 4, that is, the function sets the version and variant bits and
/// leaves the rest to the random number generator. Nothing is claimed of the
/// random bits.
#[verifier::external_body]
fn uuid_new_v4() -> (id: uuid::Uuid)
    ensures
        is_version_4(uuid_octets(id)),
{
    uuid::Uuid::new_v4()
}

/// `Uuid::try_parse_ascii`: the bytes of the identifier that a text stands
/// for. The result depends on the text alone.
#[verifier::external_body]
fn uuid_parse_ascii(text: &[u8]) -> (r: Option<[u8; 16]>)
    ensures
        match uuid_parsed(text@) {
            Some(octets) => r matches Some(bytes) && bytes@ == octets,
            None => r is None,
        },
{
    match uuid::Uuid::try_parse_ascii(text) {
        Ok(id) => Some(id.into_bytes()),
        Err(_) => None,
    }
}

/// `Hyphenated::encode_lower` on `Uuid::from_bytes`: the lower-case text
/// with hyphens. Believed of it: the text is the one that `uuid_hyphenated`
/// spells out, 36 bytes long, and `Uuid::try_parse_ascii` reads the same
/// bytes back from it.
#[verifier::external_body]
fn uuid_encode_lower(bytes: &[u8; 16]) -> (text: Vec<u8>)
    ensures
        text@ == uuid_hyphenated(bytes@),
        text@.len() == UUID_TEXT_LEN,
        uuid_parsed(text@) == Some(bytes@),
{
    let mut buffer = uuid::Uuid::encode_buffer();
    let text = uuid::Uuid::from_bytes(*bytes).hyphenated().encode_lower(&mut buffer);
    text.as_bytes().to_vec()
}

/// A session identifier.
#[derive(Clone, Copy, Debug, Eq, Hash, Ord, PartialEq, PartialOrd)]
pub struct UuidWrapper {
    bytes: [u8; 16],
}

impl View for UuidWrapper {
    type V = Seq<u8>;

    closed spec fn view(&self) -> Seq<u8> {
        self.bytes@
    }
}

impl From<uuid::Uuid> for UuidWrapper {
    /// The wrapper that holds the bytes of the given `Uuid`.
    fn from(uuid: uuid::Uuid) -> (r: Self)
        ensures
            r@ == uuid_octets(uuid),
    {
        let r = UuidWrapper::new(uuid);
        proof {
            UuidWrapper::lemma_view_decides(r, wrapper_of(uuid));
        }
        r
    }
}

/// The one wrapper whose bytes are those of the given `Uuid`.
pub open spec fn wrapper_of(uuid: uuid::Uuid) -> UuidWrapper {
    choose|wrapper: UuidWrapper| wrapper@ == uuid_octets(uuid)
}

impl vstd::std_specs::convert::FromSpecImpl<uuid::Uuid> for UuidWrapper {
    open spec fn obeys_from_spec() -> bool {
        true
    }

    open spec fn from_spec(uuid: uuid::Uuid) -> Self {
        wrapper_of(uuid)
    }
}

impl Default for UuidWrapper {
    /// A fresh random identifier.
    fn default() -> Self {
        UuidWrapper::random()
    }
}

impl UuidWrapper {
    /// Create a new `UuidWrapper` from the given `Uuid`.
    pub fn new(uuid: uuid::Uuid) -> (r: Self)
        ensures
            r@ == uuid_octets(uuid),
    {
        UuidWrapper { bytes: uuid_into_bytes(uuid) }
    }

    /// Get the inner `Uuid`.
    pub fn as_uuid(&self) -> (r: uuid::Uuid)
        ensures
            uuid_octets(r) == self@,
    {
        uuid_from_bytes(self.bytes)
    }

    /// The identifier that holds the given bytes.
    pub fn from_bytes(bytes: [u8; 16]) -> (r: Self)
        ensures
            r@ == bytes@,
    {
        UuidWrapper { bytes }
    }

    /// The sixteen bytes of the identifier.
    pub fn as_bytes(&self) -> (r: &[u8; 16])
        ensures
            r@ == self@,
    {
        &self.bytes
    }

    /// A fresh random identifier of version 4: its version and variant bits
    /// say so, and its other bits come from the random number generator.
    pub fn random() -> (r: Self)
        ensures
            is_version_4(r@),
    {
        UuidWrapper { bytes: uuid_into_bytes(uuid_new_v4()) }
    }

    /// The identifier that a text stands for, if it stands for one.
    pub fn parse_text(text: &[u8]) -> (r: Option<Self>)
        ensures
            match uuid_parsed(text@) {
                Some(octets) => r matches Some(id) && id@ == octets,
                None => r is None,
            },
    {
        match uuid_parse_ascii(text) {
            Some(bytes) => Some(UuidWrapper { bytes }),
            None => None,
        }
    }

    /// The identifier as lower-case text with hyphens.
    pub fn to_text(&self) -> (text: Vec<u8>)
        ensures
            text@ == uuid_hyphenated(self@),
            text@.len() == UUID_TEXT_LEN,
            uuid_parsed(text@) == Some(self@),
    {
        uuid_encode_lower(&self.bytes)
    }

    /// The identifier as a string: lower-case text with hyphens, as
    /// `to_text` gives it in bytes.
    pub fn hyphenated(&self) -> (text: String)
        ensures
            text@ == ascii_chars(uuid_hyphenated(self@)),
    {
        let bytes = self.to_text();
        proof {
            self.lemma_len();
            lemma_hyphenated_ascii(self@);
        }
        match ascii_string(bytes.as_slice()) {
            Some(text) => text,
            None => String::new(),
        }
    }

    /// Two identifiers with the same bytes are the same identifier.
    pub proof fn lemma_view_decides(a: UuidWrapper, b: UuidWrapper)
        requires
            a@ == b@,
        ensures
            a == b,
    {
        assert(a.bytes =~= b.bytes);
    }

    /// Every identifier has sixteen bytes.
    pub proof fn lemma_len(&self)
        ensures
            self@.len() == UUID_LEN,
    {
    }
}

} // verus!
