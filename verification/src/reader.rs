//! The receive side of the control channel: bytes arrive in pieces of any
//! size, and frames leave whole.
//!
//! The buffer holds what has arrived and is not yet part of a delivered
//! frame. A frame is looked for after every arrival; a delivered frame takes
//! exactly its own bytes from the front of the buffer.

use vstd::prelude::*;

use crate::error::Error;
use crate::frame::{
    decode_spec, is_encoding, lemma_decode_encoding, lemma_prefix_incomplete, Decoded,
    DecodedView, Frame, FrameView, MAX_TAG,
};

verus! {

#[verifier::external_type_specification]
#[verifier::external_body]
pub struct ExBytesMut(bytes::BytesMut);

/// The bytes that a `bytes::BytesMut` holds, first to last.
pub uninterp spec fn buffered(buffer: bytes::BytesMut) -> Seq<u8>;

/// The capacity that a new receive buffer asks for.
pub const INITIAL_CAPACITY: usize = 4096;

/// `BytesMut::with_capacity`: a buffer that holds no bytes.
#[verifier::external_body]
fn buffer_with_capacity(capacity: usize) -> (buffer: bytes::BytesMut)
    ensures
        buffered(buffer) == Seq::<u8>::empty(),
{
    bytes::BytesMut::with_capacity(capacity)
}

/// `BytesMut::len`: the number of bytes held.
#[verifier::external_body]
fn buffer_len(buffer: &bytes::BytesMut) -> (len: usize)
    ensures
        len == buffered(*buffer).len(),
{
    buffer.len()
}

/// `BytesMut::as_ref`: the bytes held, as a slice.
#[verifier::external_body]
fn buffer_bytes(buffer: &bytes::BytesMut) -> (held: &[u8])
    ensures
        held@ == buffered(*buffer),
{
    buffer.as_ref()
}

/// `BytesMut::extend_from_slice`: the bytes given are appended to those held.
/// It panics where the two lengths together are more than an allocation can
/// hold, so that is left out.
#[verifier::external_body]
fn buffer_extend(buffer: &mut bytes::BytesMut, piece: &[u8])
    requires
        buffered(*old(buffer)).len() + piece@.len() <= isize::MAX,
    ensures
        buffered(*final(buffer)) == buffered(*old(buffer)) + piece@,
{
    buffer.extend_from_slice(piece)
}

/// `Buf::advance` on a `BytesMut`: the first `count` bytes are dropped. It
/// panics where fewer are held, so that is left out.
#[verifier::external_body]
fn buffer_advance(buffer: &mut bytes::BytesMut, count: usize)
    requires
        count <= buffered(*old(buffer)).len(),
    ensures
        buffered(*final(buffer)) == buffered(*old(buffer)).skip(count as int),
{
    bytes::Buf::advance(buffer, count)
}

/// What the reader does once a read from the stream has returned.
#[derive(Clone, Copy, Debug, PartialEq, Eq, Structural)]
pub enum AfterRead {
    /// Bytes arrived: look for a frame again.
    Continue,
    /// The peer closed the stream between frames: a clean end.
    EndOfStream,
}

/// Bytes that have arrived and are not yet part of a delivered frame.
pub struct ReceiveBuffer {
    buffer: bytes::BytesMut,
}

impl View for ReceiveBuffer {
    type V = Seq<u8>;

    closed spec fn view(&self) -> Seq<u8> {
        buffered(self.buffer)
    }
}

/// What one arrival does to the framer: the bytes held afterwards, and the
/// frame that is delivered, if one is.
pub open spec fn framer_feed(held: Seq<u8>, piece: Seq<u8>) -> (Seq<u8>, Option<FrameView>) {
    framer_take(held + piece)
}

/// What looking for a frame does to the framer: a frame at the front leaves
/// with exactly its own bytes; anything else leaves the bytes as they are.
pub open spec fn framer_take(held: Seq<u8>) -> (Seq<u8>, Option<FrameView>) {
    match decode_spec(held) {
        DecodedView::Frame(frame, used) => (held.skip(used), Some(frame)),
        _ => (held, None),
    }
}

/// How `parse_frame` reports what decoding made of the bytes held.
pub open spec fn reported(held: Seq<u8>, r: Result<Option<Frame>, Error>) -> bool {
    match decode_spec(held) {
        DecodedView::Frame(frame, _) => r matches Ok(Some(got)) && got@ == frame,
        DecodedView::Incomplete => r matches Ok(None),
        DecodedView::Malformed => if held[0] > MAX_TAG {
            r matches Ok(None)
        } else {
            r matches Err(e) && e == Error::Malformed
        },
    }
}

impl ReceiveBuffer {
    /// A buffer that holds nothing yet.
    pub fn new() -> (r: Self)
        ensures
            r@ == Seq::<u8>::empty(),
    {
        ReceiveBuffer { buffer: buffer_with_capacity(INITIAL_CAPACITY) }
    }

    /// The number of bytes held.
    pub fn len(&self) -> (len: usize)
        ensures
            len == self@.len(),
    {
        buffer_len(&self.buffer)
    }

    /// Whether no bytes are held.
    pub fn is_empty(&self) -> (empty: bool)
        ensures
            empty == (self@.len() == 0),
    {
        buffer_len(&self.buffer) == 0
    }

    /// Whether `count` more bytes fit: no allocation holds more than
    /// `isize::MAX` bytes.
    pub fn has_room(&self, count: usize) -> (fits: bool)
        ensures
            fits == (self@.len() + count <= isize::MAX),
    {
        let held: usize = buffer_len(&self.buffer);
        let most: usize = isize::MAX as usize;
        held <= most && count <= most - held
    }

    /// Appends what a read brought.
    pub fn extend(&mut self, piece: &[u8])
        requires
            old(self)@.len() + piece@.len() <= isize::MAX,
        ensures
            final(self)@ == old(self)@ + piece@,
    {
        buffer_extend(&mut self.buffer, piece);
    }

    /// Tries to parse a frame from the buffer. If the buffer holds a whole
    /// frame at its front, the frame is returned and its bytes leave the
    /// buffer. If it does not hold enough yet, or starts with an unknown tag,
    /// `Ok(None)` is returned; if a complete payload holds no frame of its
    /// tag, `Error::Malformed`. The buffer changes only when a frame leaves.
    pub fn parse_frame(&mut self) -> (r: Result<Option<Frame>, Error>)
        ensures
            reported(old(self)@, r),
            final(self)@ == framer_take(old(self)@).0,
    {
        let decoded = Frame::decode(buffer_bytes(&self.buffer));
        match decoded {
            Decoded::Frame(frame, used) => {
                buffer_advance(&mut self.buffer, used);
                Ok(Some(frame))
            },
            Decoded::Incomplete => Ok(None),
            Decoded::Malformed => {
                let first: u8 = buffer_bytes(&self.buffer)[0];
                if first > MAX_TAG {
                    Ok(None)
                } else {
                    Err(Error::Malformed)
                }
            },
        }
    }

    /// Appends what a read brought and looks for a frame.
    pub fn feed(&mut self, piece: &[u8]) -> (r: Result<Option<Frame>, Error>)
        requires
            old(self)@.len() + piece@.len() <= isize::MAX,
        ensures
            reported(old(self)@ + piece@, r),
            final(self)@ == framer_feed(old(self)@, piece@).0,
    {
        self.extend(piece);
        self.parse_frame()
    }

    /// Decides what follows a read that returned `count` bytes and found no
    /// frame before it. No bytes mean that the peer closed the stream: with
    /// nothing held that is a clean end, with a part of a frame held the
    /// connection was reset.
    pub fn after_read(&self, count: usize) -> (r: Result<AfterRead, Error>)
        ensures
            count > 0 ==> r == Ok::<AfterRead, Error>(AfterRead::Continue),
            count == 0 && self@.len() == 0 ==> r == Ok::<AfterRead, Error>(AfterRead::EndOfStream),
            count == 0 && self@.len() > 0 ==> r == Err::<AfterRead, Error>(
                Error::ConnectionResetByPeer,
            ),
    {
        if count == 0 {
            if self.is_empty() {
                Ok(AfterRead::EndOfStream)
            } else {
                Err(Error::ConnectionResetByPeer)
            }
        } else {
            Ok(AfterRead::Continue)
        }
    }
}

/// Partial delivery: a frame's encoding that arrives in two pieces, cut
/// anywhere, gives the framer the same frame as the encoding in one piece,
/// and leaves it as empty. Until the last byte has arrived no frame is
/// delivered and nothing is dropped.
pub proof fn lemma_partial_delivery(frame: FrameView, bytes: Seq<u8>, cut: int)
    requires
        frame.wf(),
        is_encoding(frame, bytes),
        0 <= cut <= bytes.len(),
    ensures
        framer_feed(Seq::empty(), bytes) == (Seq::<u8>::empty(), Some(frame)),
        cut < bytes.len() ==> framer_feed(Seq::empty(), bytes.take(cut)) == (
            bytes.take(cut),
            None::<FrameView>,
        ),
        framer_feed(framer_feed(Seq::empty(), bytes.take(cut)).0, bytes.skip(cut)).0
            == Seq::<u8>::empty(),
        cut < bytes.len() ==> framer_feed(
            framer_feed(Seq::empty(), bytes.take(cut)).0,
            bytes.skip(cut),
        ).1 == Some(frame),
        cut == bytes.len() ==> framer_feed(Seq::empty(), bytes.take(cut)).1 == Some(frame),
{
    let none = Seq::<u8>::empty();
    lemma_decode_encoding(frame, bytes, none);
    assert(bytes + none =~= bytes);
    assert(none + bytes =~= bytes);
    assert(bytes.skip(bytes.len() as int) =~= none);
    assert(none + bytes.take(cut) =~= bytes.take(cut));
    if cut < bytes.len() {
        lemma_prefix_incomplete(frame, bytes, cut);
        assert(bytes.take(cut) + bytes.skip(cut) =~= bytes);
    } else {
        assert(bytes.take(cut) =~= bytes);
        assert(bytes.skip(cut) =~= none);
        assert(none + none =~= none);
    }
}

/// A frame that arrives with the start of the next one behind it is
/// delivered, and what follows it stays in the buffer untouched.
pub proof fn lemma_frame_then_more(frame: FrameView, bytes: Seq<u8>, more: Seq<u8>)
    requires
        frame.wf(),
        is_encoding(frame, bytes),
    ensures
        framer_feed(Seq::empty(), bytes + more) == (more, Some(frame)),
{
    lemma_decode_encoding(frame, bytes, more);
    assert(Seq::<u8>::empty() + (bytes + more) =~= bytes + more);
    assert((bytes + more).skip(bytes.len() as int) =~= more);
}

} // verus!
