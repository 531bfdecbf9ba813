//! A read position over a byte slice, and the steps that take a tag, a
//! length field, a nonce or a run of bytes from it.

use vstd::prelude::*;
use vstd::slice::slice_subrange;

use crate::error::Error;
use crate::wire::USIZE_LENGTH;

verus! {

/// Length in bytes of the nonce of the authenticated cipher.
pub const NONCE_LEN: usize = 12;

/// A byte slice and the position of the next byte to read.
pub struct Cursor<'a> {
    data: &'a [u8],
    position: usize,
}

impl<'a> Cursor<'a> {
    /// All the bytes under the cursor, read or not.
    pub closed spec fn data(&self) -> Seq<u8> {
        self.data@
    }

    /// Number of bytes already read.
    pub closed spec fn pos(&self) -> int {
        self.position as int
    }

    /// The position never passes the end of the bytes.
    pub open spec fn wf(&self) -> bool {
        0 <= self.pos() <= self.data().len()
    }

    /// The bytes not yet read.
    pub open spec fn rest(&self) -> Seq<u8> {
        self.data().skip(self.pos())
    }

    /// A cursor at the start of `data`.
    pub fn new(data: &'a [u8]) -> (cursor: Self)
        ensures
            cursor.wf(),
            cursor.data() == data@,
            cursor.pos() == 0,
    {
        Cursor { data, position: 0 }
    }

    /// Number of bytes already read.
    pub fn position(&self) -> (at: u64)
        ensures
            at == self.pos(),
    {
        self.position as u64
    }

    /// Number of bytes not yet read.
    pub fn remaining(&self) -> (left: usize)
        requires
            self.wf(),
        ensures
            left == self.rest().len(),
    {
        self.data.len() - self.position
    }

    /// Whether a byte is left to read.
    pub fn has_remaining(&self) -> (some: bool)
        requires
            self.wf(),
        ensures
            some == (self.rest().len() > 0),
    {
        self.position < self.data.len()
    }

    /// All the bytes under the cursor.
    pub fn get_ref(&self) -> (data: &'a [u8])
        ensures
            data@ == self.data(),
    {
        self.data
    }

    /// The bytes not yet read.
    pub fn unread(&self) -> (rest: &'a [u8])
        requires
            self.wf(),
        ensures
            rest@ == self.rest(),
    {
        slice_subrange(self.data, self.position, self.data.len())
    }

    /// Takes the next `length` bytes, or `None` and no step where fewer are
    /// left.
    pub fn take(&mut self, length: usize) -> (taken: Option<&'a [u8]>)
        requires
            old(self).wf(),
        ensures
            took(*old(self), *final(self), length as int, taken),
    {
        if self.data.len() - self.position < length {
            None
        } else {
            let start: usize = self.position;
            let end: usize = start + length;
            self.position = end;
            let bytes = slice_subrange(self.data, start, end);
            proof {
                assert(bytes@ =~= old(self).rest().take(length as int));
            }
            Some(bytes)
        }
    }
}

/// What holds when `length` bytes were asked of `before`: where that many
/// were left, they were handed out and the cursor stands behind them; where
/// not, nothing was handed out and the cursor did not move. The bytes under
/// the cursor stay the same either way.
pub open spec fn took(before: Cursor, after: Cursor, length: int, taken: Option<&[u8]>) -> bool {
    &&& after.wf()
    &&& after.data() == before.data()
    &&& if length <= before.rest().len() {
        &&& taken matches Some(bytes)
        &&& bytes@ == before.rest().take(length)
        &&& after.pos() == before.pos() + length
    } else {
        &&& taken is None
        &&& after.pos() == before.pos()
    }
}

/// Takes one byte, or `None` at the end.
pub fn get_u8(src: &mut Cursor) -> (byte: Option<u8>)
    requires
        old(src).wf(),
    ensures
        final(src).wf(),
        final(src).data() == old(src).data(),
        old(src).rest().len() > 0 ==> byte == Some(old(src).rest()[0]) && final(src).pos() == old(
            src
        ).pos() + 1,
        old(src).rest().len() == 0 ==> byte is None && final(src).pos() == old(src).pos(),
{
    match src.take(1) {
        Some(bytes) => Some(bytes[0]),
        None => None,
    }
}

/// Takes the eight bytes of a length field, or `Ok(None)` and no step where
/// fewer are left. It never fails.
pub fn get_usize<'a>(src: &mut Cursor<'a>) -> (field: Result<Option<&'a [u8]>, Error>)
    requires
        old(src).wf(),
    ensures
        field matches Ok(taken) && took(*old(src), *final(src), USIZE_LENGTH as int, taken),
{
    Ok(src.take(USIZE_LENGTH))
}

/// Takes the twelve bytes of a nonce, or `Ok(None)` and no step where fewer
/// are left. It never fails.
pub fn get_nonce<'a>(src: &mut Cursor<'a>) -> (field: Result<Option<&'a [u8]>, Error>)
    requires
        old(src).wf(),
    ensures
        field matches Ok(taken) && took(*old(src), *final(src), NONCE_LEN as int, taken),
{
    Ok(src.take(NONCE_LEN))
}

/// Takes the next `length` bytes, or `Ok(None)` and no step where fewer are
/// left. It never fails.
pub fn get_bytes<'a>(src: &mut Cursor<'a>, length: usize) -> (field: Result<
    Option<&'a [u8]>,
    Error,
>)
    requires
        old(src).wf(),
    ensures
        field matches Ok(taken) && took(*old(src), *final(src), length as int, taken),
{
    Ok(src.take(length))
}

} // verus!
