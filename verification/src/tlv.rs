//! Type-length-value entries and TLV blocks.

use vstd::prelude::*;

use crate::buf::Buf;
use crate::error::Error;
use crate::wire::opt_bytes_view;
use crate::wire::tlv_block_dec;
use crate::wire::tlv_dec;
use crate::wire::tlv_indices_dec;
use crate::wire::tlv_value_bytes;
use crate::wire::tlv_value_dec;
use crate::wire::SpecTlv;
use crate::wire::TLV_HAS_EXT_LEN;
use crate::wire::TLV_HAS_MULTI_INDEX;
use crate::wire::TLV_HAS_SINGLE_INDEX;
use crate::wire::TLV_HAS_TYPE_EXT;
use crate::wire::TLV_HAS_VALUE;

verus! {

/// A type-length-value entry. Every field but the type is optional and
/// gated by a flag bit; the value borrows from the input buffer.
#[derive(Debug)]
pub struct Tlv<'a> {
    /// Type.
    pub typ: u8,
    /// Type extension.
    pub type_ext: Option<u8>,
    /// Start index.
    pub start_index: Option<u8>,
    /// Stop index.
    pub stop_index: Option<u8>,
    /// Value.
    pub value: Option<&'a [u8]>,
}

impl<'a> View for Tlv<'a> {
    type V = SpecTlv;

    closed spec fn view(&self) -> SpecTlv {
        SpecTlv {
            typ: self.typ,
            type_ext: self.type_ext,
            start_index: self.start_index,
            stop_index: self.stop_index,
            value: opt_bytes_view(self.value),
        }
    }
}

/// The optional index fields of a TLV.
fn read_indices(buf: &mut Buf<'_>, flags: u8) -> (r: Result<(Option<u8>, Option<u8>), Error>)
    ensures
        final(buf).data() == old(buf).data(),
        match tlv_indices_dec(old(buf).data(), old(buf).off(), flags) {
            Ok((idx, j)) => r == Ok::<(Option<u8>, Option<u8>), Error>(idx) && final(buf).off()
                == j,
            Err(e) => r == Err::<(Option<u8>, Option<u8>), Error>(e),
        },
{
    let single = flags & TLV_HAS_SINGLE_INDEX != 0;
    let multi = flags & TLV_HAS_MULTI_INDEX != 0;
    if !single && !multi {
        Ok((None, None))
    } else if single && !multi {
        match buf.get_u8() {
            Ok(s) => Ok((Some(s), None)),
            Err(e) => Err(e),
        }
    } else {
        let s = match buf.get_u8() {
            Ok(v) => v,
            Err(e) => return Err(e),
        };
        match buf.get_u8() {
            Ok(t) => Ok((Some(s), Some(t))),
            Err(e) => Err(e),
        }
    }
}

/// The optional length and value fields of a TLV.
fn read_value<'a>(buf: &mut Buf<'a>, flags: u8) -> (r: Result<Option<&'a [u8]>, Error>)
    ensures
        final(buf).data() == old(buf).data(),
        match tlv_value_dec(old(buf).data(), old(buf).off(), flags) {
            Ok((v, j)) => r matches Ok(s) && opt_bytes_view(s) == v && final(buf).off() == j,
            Err(e) => r matches Err(e2) && e2 == e,
        },
{
    let ghost d = buf.data();
    if flags & TLV_HAS_VALUE == 0 {
        return Ok(None);
    }
    let length: usize = if flags & TLV_HAS_EXT_LEN == 0 {
        match buf.get_u8() {
            Ok(v) => v as usize,
            Err(e) => return Err(e),
        }
    } else {
        match buf.get_ne_u16() {
            Ok(v) => v as usize,
            Err(e) => return Err(e),
        }
    };
    let ghost i5 = buf.off();
    if length == 0 {
        assert(tlv_value_bytes(d, i5, length as int) == Ok::<(Option<Seq<u8>>, int), Error>(
            (None, i5),
        ));
        return Ok(None);
    }
    match buf.get_bytes(length) {
        Ok(v) => Ok(Some(v)),
        Err(e) => Err(e),
    }
}

impl<'a> Tlv<'a> {
    /// Parse a `<tlv>` and advance the cursor past it: exactly what
    /// [`tlv_dec`] says, for every input.
    pub fn read(buf: &mut Buf<'a>) -> (r: Result<Tlv<'a>, Error>)
        ensures
            final(buf).data() == old(buf).data(),
            match tlv_dec(old(buf).data(), old(buf).off()) {
                Ok((t, j)) => r matches Ok(v) && v@ == t && final(buf).off() == j,
                Err(e) => r matches Err(e2) && e2 == e,
            },
    {
        let ghost d = buf.data();
        let ghost i0 = buf.off();

        // Parse <tlv-type> and <tlv-flags>.
        let typ = match buf.get_u8() {
            Ok(v) => v,
            Err(e) => return Err(e),
        };
        let flags = match buf.get_u8() {
            Ok(v) => v,
            Err(e) => return Err(e),
        };

        // Parse <tlv-type-ext> if flagged.
        let type_ext = match buf.get_opt_u8(flags & TLV_HAS_TYPE_EXT != 0) {
            Ok(v) => v,
            Err(e) => return Err(e),
        };

        // Parse (<index-start><index-stop>?)?. Both index flags set at once
        // counts as the multi-index case.
        let indices = match read_indices(buf, flags) {
            Ok(v) => v,
            Err(e) => return Err(e),
        };

        // Parse <length><value>: the length is 8 or 16 bits wide, and a zero
        // length yields no value.
        let value = match read_value(buf, flags) {
            Ok(v) => v,
            Err(e) => return Err(e),
        };

        let r = Tlv { typ, type_ext, start_index: indices.0, stop_index: indices.1, value };
        proof {
            assert(tlv_dec(d, i0) == Ok::<(SpecTlv, int), Error>((r@, buf.off())));
        }
        Ok(r)
    }
}

/// A TLV block: the raw bytes claimed by the block's 16-bit length field,
/// borrowed from the input buffer.
#[derive(Debug, Clone, Copy, PartialEq, Eq)]
pub struct TlvBlock<'a> {
    block: &'a [u8],
}

impl<'a> View for TlvBlock<'a> {
    type V = Seq<u8>;

    closed spec fn view(&self) -> Seq<u8> {
        self.block@
    }
}

impl<'a> TlvBlock<'a> {
    /// Parse a `<tlv-block>`: a 16-bit length, then exactly that many bytes
    /// claimed as the block's contents.
    pub fn read(buf: &mut Buf<'a>) -> (r: Result<TlvBlock<'a>, Error>)
        ensures
            final(buf).data() == old(buf).data(),
            match tlv_block_dec(old(buf).data(), old(buf).off()) {
                Ok((blk, j)) => r matches Ok(b) && b@ == blk && final(buf).off() == j,
                Err(e) => r matches Err(e2) && e2 == e,
            },
    {
        let length = match buf.get_ne_u16() {
            Ok(v) => v as usize,
            Err(e) => return Err(e),
        };
        let block = match buf.get_bytes(length) {
            Ok(v) => v,
            Err(e) => return Err(e),
        };
        Ok(TlvBlock { block })
    }

    /// A fresh traversal of the block's entries, starting at its first byte.
    pub fn iter(&self) -> (r: TlvBlockIter<'a>)
        ensures
            r.data() == self@,
            r.off() == 0,
    {
        TlvBlockIter { buf: Buf::new(self.block) }
    }
}

/// Lazy iterator over a TLV block's entries.
///
/// Each pull decodes one TLV. After the first decode error the traversal is
/// permanently ended: the failing pull returns the error once, every later
/// pull returns `None`. Cloning the iterator yields an independent traversal
/// from the same position.
#[derive(Debug, Clone, Copy, PartialEq, Eq)]
pub struct TlvBlockIter<'a> {
    /// TLV block buffer.
    buf: Buf<'a>,
}

impl<'a> TlvBlockIter<'a> {
    /// The block contents being traversed.
    pub closed spec fn data(self) -> Seq<u8> {
        self.buf.data()
    }

    /// The position of the next entry.
    pub closed spec fn off(self) -> int {
        self.buf.off()
    }

    /// Decode the entry at the current position, or `None` at the end.
    pub fn next(&mut self) -> (r: Option<Result<Tlv<'a>, Error>>)
        ensures
            final(self).data() == old(self).data(),
            old(self).off() >= old(self).data().len() ==> r is None && final(self).off()
                == old(self).off(),
            old(self).off() < old(self).data().len() ==> match tlv_dec(
                old(self).data(),
                old(self).off(),
            ) {
                Ok((t, j)) => r matches Some(Ok(v)) && v@ == t && final(self).off() == j
                    && old(self).off() < j <= old(self).data().len(),
                Err(e) => r matches Some(Err(e2)) && e2 == e && final(self).off()
                    == final(self).data().len(),
            },
    {
        if self.buf.is_eof() {
            return None;
        }
        proof {
            crate::wire::lemma_tlv_dec_bounds(self.buf.data(), self.buf.off());
        }
        match Tlv::read(&mut self.buf) {
            Ok(tlv) => Some(Ok(tlv)),
            Err(e) => {
                self.buf.exhaust();
                Some(Err(e))
            },
        }
    }
}

} // verus!
