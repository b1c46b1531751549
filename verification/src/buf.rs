//! The parser cursor: a bounds-checked read head over a borrowed byte slice.

use vstd::prelude::*;

use crate::error::Error;
use crate::wire::rd_bytes;
use crate::wire::rd_u16;
use crate::wire::rd_u8;

verus! {

/// Parser buffer: a borrowed byte slice and the current read offset.
///
/// This is the only component that performs bounds arithmetic; every other
/// decoder routes all of its reads through it. A read that would run past
/// the end fails with [`Error::UnexpectedEof`] and leaves the cursor
/// unmodified; a successful read advances the offset and returns a view into
/// the original buffer, never a copy.
#[derive(Debug, Clone, Copy, PartialEq, Eq)]
pub struct Buf<'a> {
    /// Internal buffer.
    buf: &'a [u8],
    /// Current offset.
    off: usize,
}

impl<'a> Buf<'a> {
    /// The whole underlying buffer.
    pub closed spec fn data(self) -> Seq<u8> {
        self.buf@
    }

    /// The current read position.
    pub closed spec fn off(self) -> int {
        self.off as int
    }

    /// Create a new `Buf` positioned at the start of `buf`.
    pub fn new(buf: &'a [u8]) -> (r: Buf<'a>)
        ensures
            r.data() == buf@,
            r.off() == 0,
    {
        Buf { buf, off: 0 }
    }

    /// Is the cursor at (or past) the end of the buffer?
    pub fn is_eof(&self) -> (r: bool)
        ensures
            r == (self.off() >= self.data().len()),
    {
        self.off >= self.buf.len()
    }

    /// Current position in the buffer.
    pub fn pos(&self) -> (r: usize)
        ensures
            r as int == self.off(),
    {
        self.off
    }

    /// Retrieve a `u8` from the buffer.
    pub fn get_u8(&mut self) -> (r: Result<u8, Error>)
        ensures
            final(self).data() == old(self).data(),
            match rd_u8(old(self).data(), old(self).off()) {
                Ok((v, j)) => r == Ok::<u8, Error>(v) && final(self).off() == j,
                Err(e) => r == Err::<u8, Error>(e) && final(self).off() == old(self).off(),
            },
    {
        if self.off < self.buf.len() {
            let v = *vstd::slice::slice_index_get(self.buf, self.off);
            self.off = self.off + 1;
            Ok(v)
        } else {
            Err(Error::UnexpectedEof)
        }
    }

    /// Read a `u16` in network byte order from the buffer.
    pub fn get_ne_u16(&mut self) -> (r: Result<u16, Error>)
        ensures
            final(self).data() == old(self).data(),
            match rd_u16(old(self).data(), old(self).off()) {
                Ok((v, j)) => r == Ok::<u16, Error>(v) && final(self).off() == j,
                Err(e) => r == Err::<u16, Error>(e) && final(self).off() == old(self).off(),
            },
    {
        if self.buf.len() >= 2 && self.off <= self.buf.len() - 2 {
            let hi = *vstd::slice::slice_index_get(self.buf, self.off);
            let lo = *vstd::slice::slice_index_get(self.buf, self.off + 1);
            self.off = self.off + 2;
            Ok((hi as u16) * 256 + (lo as u16))
        } else {
            Err(Error::UnexpectedEof)
        }
    }

    /// Read a byte slice of length `count`, borrowed from the buffer.
    pub fn get_bytes(&mut self, count: usize) -> (r: Result<&'a [u8], Error>)
        ensures
            final(self).data() == old(self).data(),
            match rd_bytes(old(self).data(), old(self).off(), count as int) {
                Ok((b, j)) => r matches Ok(s) && s@ == b && final(self).off() == j,
                Err(e) => r matches Err(e2) && e2 == e && final(self).off() == old(self).off(),
            },
    {
        if count <= self.buf.len() && self.off <= self.buf.len() - count {
            let s = vstd::slice::slice_subrange(self.buf, self.off, self.off + count);
            self.off = self.off + count;
            Ok(s)
        } else {
            Err(Error::UnexpectedEof)
        }
    }

    /// Move the cursor to the end of the buffer. The lazy iterators use this
    /// to end a traversal permanently after the first decode error.
    pub(crate) fn exhaust(&mut self)
        ensures
            final(self).data() == old(self).data(),
            final(self).off() == final(self).data().len(),
    {
        self.off = self.buf.len();
    }

    /// Retrieve a `u8` if `present`, else leave the cursor alone.
    pub(crate) fn get_opt_u8(&mut self, present: bool) -> (r: Result<Option<u8>, Error>)
        ensures
            final(self).data() == old(self).data(),
            match crate::wire::rd_opt_u8(old(self).data(), old(self).off(), present) {
                Ok((v, j)) => r == Ok::<Option<u8>, Error>(v) && final(self).off() == j,
                Err(e) => r == Err::<Option<u8>, Error>(e),
            },
    {
        if present {
            match self.get_u8() {
                Ok(v) => Ok(Some(v)),
                Err(e) => Err(e),
            }
        } else {
            Ok(None)
        }
    }

    /// Read a network-byte-order `u16` if `present`, else leave the cursor
    /// alone.
    pub(crate) fn get_opt_u16(&mut self, present: bool) -> (r: Result<Option<u16>, Error>)
        ensures
            final(self).data() == old(self).data(),
            match crate::wire::rd_opt_u16(old(self).data(), old(self).off(), present) {
                Ok((v, j)) => r == Ok::<Option<u16>, Error>(v) && final(self).off() == j,
                Err(e) => r == Err::<Option<u16>, Error>(e),
            },
    {
        if present {
            match self.get_ne_u16() {
                Ok(v) => Ok(Some(v)),
                Err(e) => Err(e),
            }
        } else {
            Ok(None)
        }
    }

    /// Read a byte slice of length `count` if `present`, else leave the
    /// cursor alone.
    pub(crate) fn get_opt_bytes(&mut self, present: bool, count: usize) -> (r: Result<
        Option<&'a [u8]>,
        Error,
    >)
        ensures
            final(self).data() == old(self).data(),
            match crate::wire::rd_opt_bytes(
                old(self).data(),
                old(self).off(),
                present,
                count as int,
            ) {
                Ok((v, j)) => r matches Ok(s) && crate::wire::opt_bytes_view(s) == v
                    && final(self).off() == j,
                Err(e) => r matches Err(e2) && e2 == e,
            },
    {
        if present {
            match self.get_bytes(count) {
                Ok(v) => Ok(Some(v)),
                Err(e) => Err(e),
            }
        } else {
            Ok(None)
        }
    }

    /// The bytes from the current position to the end of the buffer.
    pub(crate) fn rest(&self) -> (r: &'a [u8])
        requires
            self.off() <= self.data().len(),
        ensures
            r@ == self.data().subrange(self.off(), self.data().len() as int),
    {
        vstd::slice::slice_subrange(self.buf, self.off, self.buf.len())
    }
}

} // verus!
