//! A read position over a buffer of instruction bytes.
use vstd::prelude::*;
use crate::error::DecodeError;

verus! {

/// The byte at `pos` of `bytes`, or the failure of reading past the end.
pub open spec fn byte_at(bytes: Seq<u8>, pos: nat) -> Result<u8, DecodeError> {
    if pos < bytes.len() {
        Ok(bytes[pos as int])
    } else {
        Err(DecodeError::UnexpectedEnd { offset: bytes.len() as usize })
    }
}

/// The 16-bit value whose low byte is `low` and whose high byte is `high`.
pub open spec fn word_of(low: u8, high: u8) -> u16 {
    (low + 256 * high) as u16
}

/// The little-endian word in the two bytes at `pos` of `bytes`, or the
/// failure of reading past the end.
pub open spec fn word_at(bytes: Seq<u8>, pos: nat) -> Result<u16, DecodeError> {
    if pos + 2 <= bytes.len() {
        Ok(word_of(bytes[pos as int], bytes[pos as int + 1]))
    } else {
        Err(DecodeError::UnexpectedEnd { offset: bytes.len() as usize })
    }
}

/// What reading one item of a buffer gives, and the offset at which the
/// reading stopped. A failed read leaves behind it the bytes that it had
/// taken before it failed.
pub struct Step<T> {
    pub outcome: Result<T, DecodeError>,
    pub next: nat,
}

/// What a [`Cursor`] stands for: the whole buffer, read or not, and the
/// offset of the next byte to read.
pub struct CursorView {
    pub bytes: Seq<u8>,
    pub position: nat,
}

/// A byte buffer together with the offset of the next byte to read. The
/// offset never passes the end of the buffer.
pub struct Cursor {
    bytes: Vec<u8>,
    offset: usize,
}

impl View for Cursor {
    type V = CursorView;

    closed spec fn view(&self) -> CursorView {
        CursorView { bytes: self.bytes@, position: self.offset as nat }
    }
}

impl Cursor {
    #[verifier::type_invariant]
    spec fn in_bounds(self) -> bool {
        self.offset <= self.bytes.len()
    }

    /// A cursor at the start of `bytes`.
    pub fn new(bytes: Vec<u8>) -> (cursor: Cursor)
        ensures
            cursor@ == (CursorView { bytes: bytes@, position: 0 }),
    {
        Cursor { bytes, offset: 0 }
    }

    /// The offset of the next byte to read; it lies within the buffer or at
    /// its end.
    pub fn position(&self) -> (offset: usize)
        ensures
            offset == self@.position,
            offset <= self@.bytes.len(),
    {
        proof {
            use_type_invariant(self);
        }
        self.offset
    }

    /// How many bytes are left to read.
    pub fn remaining(&self) -> (count: usize)
        ensures
            count == self@.bytes.len() - self@.position,
    {
        proof {
            use_type_invariant(self);
        }
        self.bytes.len() - self.offset
    }

    /// Reads one byte and steps past it. At the end of the buffer nothing
    /// is read and the cursor stays where it is.
    pub fn next(&mut self) -> (read: Result<u8, DecodeError>)
        ensures
            read == byte_at(old(self)@.bytes, old(self)@.position),
            final(self)@.bytes == old(self)@.bytes,
            final(self)@.position == old(self)@.position + if read is Ok { 1nat } else { 0nat },
    {
        proof {
            use_type_invariant(&*self);
        }
        if self.offset < self.bytes.len() {
            let byte = self.bytes[self.offset];
            self.offset = self.offset + 1;
            Ok(byte)
        } else {
            Err(DecodeError::UnexpectedEnd { offset: self.bytes.len() })
        }
    }

    /// Reads a little-endian word and steps past its two bytes. With fewer
    /// than two bytes left nothing is read and the cursor stays where it is.
    pub fn next_word(&mut self) -> (read: Result<u16, DecodeError>)
        ensures
            read == word_at(old(self)@.bytes, old(self)@.position),
            final(self)@.bytes == old(self)@.bytes,
            final(self)@.position == old(self)@.position + if read is Ok { 2nat } else { 0nat },
    {
        proof {
            use_type_invariant(&*self);
        }
        if self.bytes.len() - self.offset >= 2 {
            let low = self.bytes[self.offset];
            let high = self.bytes[self.offset + 1];
            self.offset = self.offset + 2;
            Ok(low as u16 + 256 * (high as u16))
        } else {
            Err(DecodeError::UnexpectedEnd { offset: self.bytes.len() })
        }
    }
}

} // verus!
